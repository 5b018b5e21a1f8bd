use std::collections::HashMap;

use music_tui::config::{config_path, helper_binary_name, helper_candidates, home_dir, resolve_helper_path, AppConfig};
use music_tui::models::{format_duration, LocalTrack};
use music_tui::paths::join_path;
use music_tui::probe::{tag, ProbeOutput, ProbeTag};
use music_tui::scanner::{
    collect_audio_files, fallback_track, file_stem_text, is_audio_file, probe_track,
    scan_music_dir, track_from_probe, ScannedFile,
};

fn ptag(key: &str, value: Option<&str>) -> ProbeTag {
    ProbeTag { key: key.to_string(), value: value.map(|v| v.to_string()) }
}

fn probe(tags: Vec<ProbeTag>) -> ProbeOutput {
    ProbeOutput { format_tags: Some(tags), stream_tags: vec![], duration_text: None }
}

fn scanned(path: &str, tags: Option<Vec<ProbeTag>>, duration_secs: u32) -> ScannedFile {
    ScannedFile { path: path.to_string(), probe: tags.map(probe), duration_secs }
}

#[test]
fn durations_are_minutes_and_seconds() {
    assert_eq!(format_duration(0), "--:--");
    assert_eq!(format_duration(5), "00:05");
    assert_eq!(format_duration(125), "02:05");
    assert_eq!(format_duration(3600), "60:00");
    assert_eq!(format_duration(6000), "100:00");
    assert_eq!(format_duration(u32::MAX), "71582788:15");
}

#[test]
fn audio_files_are_recognised_by_extension() {
    assert!(is_audio_file("/music/a/Song.mp3"));
    assert!(is_audio_file("/music/Song.FLAC"));
    assert!(is_audio_file("track.m4a"));
    assert!(is_audio_file("x.tar.ogg"));
    assert!(!is_audio_file("/music/.mp3"));
    assert!(!is_audio_file("/music/cover.jpg"));
    assert!(!is_audio_file("/music/mp3"));
    assert!(!is_audio_file("/music/song.mp3/.."));
    assert!(!is_audio_file(""));
}

#[test]
fn only_audio_files_are_collected() {
    let paths = vec![
        "/m/a.mp3".to_string(),
        "/m/a.lrc".to_string(),
        "/m/b.WAV".to_string(),
        "/m/notes.txt".to_string(),
    ];
    assert_eq!(collect_audio_files(&paths), vec!["/m/a.mp3".to_string(), "/m/b.WAV".to_string()]);
}

#[test]
fn file_stems() {
    assert_eq!(file_stem_text("/m/a/Song.mp3"), "Song");
    assert_eq!(file_stem_text("/m/.hidden"), ".hidden");
    assert_eq!(file_stem_text("/m/archive.tar.gz"), "archive.tar");
    assert_eq!(file_stem_text("/m/noext"), "noext");
    assert_eq!(file_stem_text("/m/dir/"), "dir");
    assert_eq!(file_stem_text("/"), "Unknown");
    assert_eq!(file_stem_text("/m/.."), "Unknown");
}

#[test]
fn tracks_from_tags_with_fallbacks() {
    let p = probe(vec![ptag("TITLE", Some("  Hello ")), ptag("artist", Some("   ")), ptag("album", None)]);
    let t = track_from_probe("/m/x.mp3".to_string(), &p, 201);
    assert_eq!(t.title, "Hello");
    assert_eq!(t.artist, "Unknown Artist");
    assert_eq!(t.album, "");
    assert_eq!(t.duration, 201);
    assert_eq!(t.path, "/m/x.mp3");

    // A present but non-string `title` hides `TITLE`.
    let p = probe(vec![ptag("title", None), ptag("TITLE", Some("Upper"))]);
    assert_eq!(track_from_probe("/m/y.flac".to_string(), &p, 0).title, "y");

    let f = fallback_track("/m/z.ogg".to_string());
    assert_eq!((f.title.as_str(), f.artist.as_str(), f.album.as_str(), f.duration), ("z", "Unknown Artist", "", 0));
    assert_eq!(probe_track("/m/z.ogg".to_string(), &None, 0).title, "z");
}

#[test]
fn tag_lookup_takes_the_first_string_value() {
    let tags = Some(vec![ptag("album", Some(" A ")), ptag("ALBUM", Some("B"))]);
    assert_eq!(tag(&tags, "album"), Some("A".to_string()));
    assert_eq!(tag(&None, "album"), None);
}

#[test]
fn library_is_sorted_by_lowercased_title_then_artist() {
    let files = vec![
        scanned("/m/b.mp3", Some(vec![ptag("title", Some("beta")), ptag("artist", Some("Z"))]), 1),
        scanned("/m/a.mp3", Some(vec![ptag("title", Some("Alpha"))]), 2),
        scanned("/m/c.mp3", Some(vec![ptag("title", Some("BETA")), ptag("artist", Some("a"))]), 3),
        scanned("/m/Ärger.mp3", None, 0),
        scanned("/m/d.mp3", Some(vec![ptag("title", Some("beta")), ptag("artist", Some("z"))]), 4),
    ];
    let tracks: Vec<LocalTrack> = scan_music_dir(&files);
    let order: Vec<&str> = tracks.iter().map(|t| t.path.as_str()).collect();
    // "beta"/"z" ties between b and d: the scan order is kept.
    assert_eq!(order, vec!["/m/a.mp3", "/m/c.mp3", "/m/b.mp3", "/m/d.mp3", "/m/Ärger.mp3"]);
}

#[test]
fn library_order_ignores_case() {
    let files = vec![
        scanned("/m/B.mp3", None, 0),
        scanned("/m/a.mp3", None, 0),
    ];
    let tracks = scan_music_dir(&files);
    assert_eq!(tracks[0].title, "a");
    assert_eq!(tracks[1].title, "B");
}

#[test]
fn paths_join_like_std() {
    assert_eq!(join_path("/home/u", "Music"), "/home/u/Music");
    assert_eq!(join_path("/home/u/", "Music"), "/home/u/Music");
    assert_eq!(join_path("", "Music"), "Music");
    assert_eq!(join_path("/home/u", "/abs"), "/abs");
    assert_eq!(config_path("/home/u"), "/home/u/.config/music-tui/config.toml");
}

#[test]
fn default_settings() {
    let c = AppConfig::default_with_home("/home/u", false);
    assert_eq!(c.music_dir, "/home/u/Music");
    assert_eq!(c.helper_path, "helper/music-dl-helper");
    assert_eq!(c.default_sources, vec!["netease", "qq", "kugou", "kuwo", "migu", "qianqian", "soda"]);
    assert!(c.embed_cover && c.embed_lyrics);
    assert!(c.source_cookies.is_empty());
    assert_eq!(helper_binary_name(true), "music-dl-helper.exe");
    assert_eq!(home_dir(None), ".");
    assert_eq!(home_dir(Some("/root".to_string())), "/root");
}

#[test]
fn helper_path_resolution() {
    let c = helper_candidates("helper/h", Some("/cwd"), None, Some("/opt/app/bin"));
    assert_eq!(c, vec!["/cwd/helper/h", "/opt/app/bin/helper/h", "/opt/app/bin/../../helper/h"]);
    assert!(helper_candidates("/abs/h", Some("/cwd"), Some("/m"), Some("/e")).is_empty());
    let checked: Vec<(String, bool)> = c.iter().map(|p| (p.clone(), p.starts_with("/opt"))).collect();
    assert_eq!(resolve_helper_path("helper/h", &checked), "/opt/app/bin/helper/h");
    let none: Vec<(String, bool)> = c.iter().map(|p| (p.clone(), false)).collect();
    assert_eq!(resolve_helper_path("helper/h", &none), "helper/h");
    assert_eq!(resolve_helper_path("/abs/h", &checked), "/abs/h");
    let _ = HashMap::<String, String>::new();
}
