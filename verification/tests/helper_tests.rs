use std::collections::HashMap;

use music_tui::config::AppConfig;
use music_tui::helper::{join_strings, MusicDl};
use music_tui::models::SearchResponse;

fn helper() -> MusicDl {
    let mut config = AppConfig::default_with_home("/h", false);
    config.source_cookies = HashMap::from([("qq".to_string(), "c=1".to_string())]);
    MusicDl::new(&config, "/bin/helper".to_string())
}

#[test]
fn search_arguments_without_sources() {
    let h = helper();
    assert_eq!(h.helper_path(), "/bin/helper");
    let call = h.search("k", "artist", &vec![]);
    assert_eq!(call.args, vec!["search", "--keyword", "k", "--mode", "artist", "--limit", "120"]);
    assert_eq!(call.cookies_json, "{\"qq\":\"c=1\"}");
    let call = h.search("k", "song", &vec!["qq".to_string()]);
    assert_eq!(call.args[7..], ["--sources".to_string(), "qq".to_string()]);
}

#[test]
fn helper_failure_messages() {
    assert_eq!(MusicDl::failure_message(b"out\n", b"  err \n", "exit status: 1"), "err");
    assert_eq!(MusicDl::failure_message(b" out ", b"  \n", "exit status: 1"), "out");
    assert_eq!(MusicDl::failure_message(b"", b"", "exit status: 2"), "helper exited with status exit status: 2");
    assert_eq!(MusicDl::failure_message(b"", b"bad \xff byte", "x"), "bad \u{fffd} byte");
    assert_eq!(MusicDl::invalid_json_message("EOF", b"{\xff"), "invalid helper JSON: EOF; body={\u{fffd}");
    let call = helper().search("k", "song", &vec![]);
    assert_eq!(call.run_failure_message("not found"), "failed to run /bin/helper: not found");
}

#[test]
fn joined_strings_and_search_results() {
    let v = vec!["a".to_string(), "b".to_string(), "c".to_string()];
    assert_eq!(join_strings(&v, 3, ","), "a,b,c");
    assert_eq!(join_strings(&v, 2, " | "), "a | b");
    assert_eq!(join_strings(&v, 0, ","), "");
    let r = MusicDl::search_result(SearchResponse { songs: vec![], warnings: vec!["w".to_string()] });
    assert_eq!(r.warnings, vec!["w".to_string()]);
}

#[test]
fn cookies_and_extra_fields_go_out_as_escaped_json() {
    let mut config = AppConfig::default_with_home("/h", false);
    config.source_cookies = HashMap::from([("kugou".to_string(), "a\"b\\c\nd\u{1}".to_string())]);
    let h = MusicDl::new(&config, "/bin/helper".to_string());
    let call = h.search("k", "song", &vec![]);
    assert_eq!(call.cookies_json, "{\"kugou\":\"a\\\"b\\\\c\\nd\\u0001\"}");

    let config = AppConfig::default_with_home("/h", false);
    let h = MusicDl::new(&config, "/bin/helper".to_string());
    assert_eq!(h.search("k", "song", &vec![]).cookies_json, "{}");

    let song = music_tui::models::RemoteSong {
        id: "1".to_string(),
        name: "n".to_string(),
        artist: "a".to_string(),
        album: String::new(),
        duration: 0,
        source: "qq".to_string(),
        ext: String::new(),
        cover: String::new(),
        url: String::new(),
        extra: HashMap::from([("mid".to_string(), "é\t".to_string())]),
        is_vip: false,
    };
    let call = h.download(&song, "/out", true, false).unwrap();
    assert_eq!(call.args.len(), 21);
    assert_eq!(call.args[20], "{\"mid\":\"é\\t\"}");
    song_without_extra_fields_gives_an_empty_object(&h, song);
}

fn song_without_extra_fields_gives_an_empty_object(h: &MusicDl, mut song: music_tui::models::RemoteSong) {
    song.extra.clear();
    assert_eq!(h.download(&song, "/out", false, false).unwrap().args[20], "{}");
}
