use std::collections::HashMap;

use music_tui::app::{
    download_status, lyric_source_for, search_status, App, Focus, Key, KeyOutcome, SearchMode,
    WorkerEvent, WorkerRequest,
};
use music_tui::config::AppConfig;
use music_tui::helper::{MusicDl, SearchResult};
use music_tui::models::{DownloadResponse, LocalTrack, LyricLine, RemoteSong};

fn song(id: &str, name: &str) -> RemoteSong {
    RemoteSong {
        id: id.to_string(),
        name: name.to_string(),
        artist: "Singer".to_string(),
        album: "Album".to_string(),
        duration: 170,
        source: "netease".to_string(),
        ext: String::new(),
        cover: String::new(),
        url: String::new(),
        extra: HashMap::new(),
        is_vip: false,
    }
}

fn track(path: &str, title: &str) -> LocalTrack {
    LocalTrack {
        path: path.to_string(),
        title: title.to_string(),
        artist: "Artist".to_string(),
        album: String::new(),
        duration: 60,
    }
}

fn new_app() -> App {
    let config = AppConfig::default_with_home("/home/u", false);
    let helper = MusicDl::new(&config, "/opt/helper".to_string());
    let (app, request) = App::new(config, helper, true);
    match request {
        WorkerRequest::ScanLibrary(dir) => assert_eq!(dir, "/home/u/Music"),
        _ => panic!("expected a scan"),
    }
    app
}

#[test]
fn search_mode_toggles_and_names() {
    assert_eq!(SearchMode::Song.toggle(), SearchMode::Artist);
    assert_eq!(SearchMode::Artist.toggle(), SearchMode::Song);
    assert_eq!(SearchMode::Song.toggle().toggle(), SearchMode::Song);
    assert_eq!(SearchMode::Song.helper_arg(), "song");
    assert_eq!(SearchMode::Artist.helper_arg(), "artist");
    assert_eq!(SearchMode::Song.label(), "歌曲");
    assert_eq!(SearchMode::Artist.label(), "作者");
}

#[test]
fn start_state() {
    let app = new_app();
    assert_eq!(app.focus, Focus::Search);
    assert_eq!(app.status, "扫描本地曲库: /home/u/Music");
    assert_eq!(app.lyric_source, "未播放");
    assert!(!app.busy);
}

#[test]
fn artist_prefixes_switch_the_search_mode() {
    let mut app = new_app();
    app.query = "  @ Jay Chou ".to_string();
    assert_eq!(app.normalized_search(), (SearchMode::Artist, "Jay Chou".to_string()));
    app.query = "artist:Eason".to_string();
    assert_eq!(app.normalized_search(), (SearchMode::Artist, "Eason".to_string()));
    app.query = "作者: 周杰伦".to_string();
    assert_eq!(app.normalized_search(), (SearchMode::Artist, "周杰伦".to_string()));
    app.query = " hello ".to_string();
    assert_eq!(app.normalized_search(), (SearchMode::Song, "hello".to_string()));
}

#[test]
fn typing_and_searching() {
    let mut app = new_app();
    for c in "x y".chars() {
        assert!(matches!(app.handle_key(Key::Char(c), true, 120), KeyOutcome::Continue));
    }
    // `h`, `j`, `k`, `l` move the selection, even while typing.
    app.handle_key(Key::Char('h'), true, 120);
    assert_eq!(app.query, "x y");
    app.handle_key(Key::Backspace, true, 120);
    assert_eq!(app.query, "x ");
    match app.handle_key(Key::Enter, true, 120) {
        KeyOutcome::Request(WorkerRequest::Search(call)) => {
            assert_eq!(call.program, "/opt/helper");
            assert_eq!(call.cookies_json, "{}");
            assert_eq!(
                call.args,
                vec![
                    "search", "--keyword", "x", "--mode", "song", "--limit", "120", "--sources",
                    "netease,qq,kugou,kuwo,migu,qianqian,soda",
                ]
            );
        },
        _ => panic!("expected a search"),
    }
    assert!(app.busy);
    assert_eq!(app.status, "歌曲搜索中: x");
    // A second search waits for the first.
    assert!(matches!(app.handle_key(Key::Enter, true, 120), KeyOutcome::Continue));
    let result = SearchResult { songs: vec![song("1", "One"), song("2", "Two")], warnings: vec![] };
    assert!(app.handle_worker_event(WorkerEvent::SearchFinished(Ok(result))).is_none());
    assert!(!app.busy);
    assert_eq!(app.search_selected, Some(0));
    assert_eq!(app.status, "歌曲搜索完成: 2 条结果");
}

#[test]
fn empty_queries_do_not_search() {
    let mut app = new_app();
    app.query = "  ".to_string();
    assert!(app.search().is_none());
    assert!(!app.busy);
}

#[test]
fn selection_moves_stay_in_the_list() {
    let mut app = new_app();
    app.handle_worker_event(WorkerEvent::LibraryScanned(vec![
        track("/m/1.mp3", "1"),
        track("/m/2.mp3", "2"),
        track("/m/3.mp3", "3"),
        track("/m/4.mp3", "4"),
        track("/m/5.mp3", "5"),
    ]));
    assert_eq!(app.status, "本地曲库已加载: 5 首");
    assert!(matches!(app.handle_key(Key::Tab, true, 120), KeyOutcome::Continue));
    assert_eq!(app.focus, Focus::Library);
    assert_eq!(app.library_selected, Some(0));
    app.move_left();
    assert_eq!(app.library_selected, Some(0));
    app.move_right();
    assert_eq!(app.library_selected, Some(1));
    app.move_down(3);
    assert_eq!(app.library_selected, Some(4));
    app.move_down(0);
    assert_eq!(app.library_selected, Some(4));
    app.move_up(2);
    assert_eq!(app.library_selected, Some(2));
    // 130 columns give two card columns.
    app.handle_key(Key::Up, true, 130);
    assert_eq!(app.library_selected, Some(0));
    app.handle_key(Key::Char('j'), true, 40);
    assert_eq!(app.library_selected, Some(1));
    assert_eq!(app.selected_local_track().unwrap().path, "/m/2.mp3");
    app.handle_worker_event(WorkerEvent::LibraryScanned(vec![]));
    assert_eq!(app.library_selected, None);
    app.move_right();
    assert_eq!(app.library_selected, None);
    assert!(app.selected_local_track().is_none());
}

#[test]
fn playing_local_tracks() {
    let mut app = new_app();
    app.focus = Focus::Library;
    assert!(matches!(app.handle_key(Key::Enter, true, 120), KeyOutcome::Continue));
    assert_eq!(app.status, "没有选中的本地歌曲");
    app.handle_worker_event(WorkerEvent::LibraryScanned(vec![track("/m/1.mp3", "Song")]));
    let chosen = match app.handle_key(Key::Char('p'), true, 120) {
        KeyOutcome::Play(t) => t,
        _ => panic!("expected playback"),
    };
    assert_eq!(chosen.path, "/m/1.mp3");
    let lyrics = vec![
        LyricLine { timestamp_ms: 1000, text: "a".to_string() },
        LyricLine { timestamp_ms: 3000, text: "b".to_string() },
    ];
    app.start_playback(&chosen, lyrics, Ok(()));
    assert_eq!(app.status, "正在播放: Song - Artist");
    assert_eq!(app.lyric_source, "Song - Artist: 2 行歌词");
    assert_eq!(app.active_lyric_index(0), Some(0));
    assert_eq!(app.active_lyric_index(999), Some(0));
    assert_eq!(app.active_lyric_index(1000), Some(0));
    assert_eq!(app.active_lyric_index(2999), Some(0));
    assert_eq!(app.active_lyric_index(3000), Some(1));
    assert_eq!(app.active_lyric_index(u128::MAX), Some(1));
    app.start_playback(&chosen, vec![], Err("failed to start ffplay: x".to_string()));
    assert_eq!(app.status, "failed to start ffplay: x");
    assert_eq!(app.lyric_source, "Song - Artist: 未找到歌词");
    assert_eq!(app.active_lyric_index(5), None);
    assert!(matches!(app.handle_key(Key::Char('s'), true, 120), KeyOutcome::StopPlayback));
    assert_eq!(app.status, "已停止播放");
    assert!(matches!(app.handle_key(Key::Char('q'), true, 120), KeyOutcome::Quit));
}

#[test]
fn downloading_the_selected_song() {
    let mut app = new_app();
    assert!(app.download_selected(true).is_none());
    assert_eq!(app.status, "没有选中的搜索结果");
    let mut s = song("42", "Name");
    s.extra.insert("song_id".to_string(), "42".to_string());
    app.handle_worker_event(WorkerEvent::SearchFinished(Ok(SearchResult { songs: vec![s], warnings: vec![] })));
    assert!(app.download_selected(false).is_none());
    assert_eq!(app.status, "无法下载：未找到 helper /opt/helper");
    match app.handle_key(Key::Char('d'), true, 120) {
        KeyOutcome::Request(WorkerRequest::Download(Ok(call))) => {
            assert_eq!(
                call.args,
                vec![
                    "download", "--id", "42", "--source", "netease", "--name", "Name", "--artist",
                    "Singer", "--album", "Album", "--cover-url", "", "--url", "", "--cover=true",
                    "--lyrics=true", "--outdir", "/home/u/Music", "--extra", "{\"song_id\":\"42\"}",
                ]
            );
        },
        _ => panic!("expected a download"),
    }
    assert!(app.busy);
    assert_eq!(app.selected_remote_song().unwrap().id, "42");
    assert_eq!(app.status, "下载中: Name - Singer -> /home/u/Music");
    assert!(app.download_selected(true).is_none());
    let response = DownloadResponse {
        status: "ok".to_string(),
        path: "/home/u/Music/Name.mp3".to_string(),
        filename: "Name.mp3".to_string(),
        lyric_path: None,
        warning: String::new(),
    };
    match app.handle_worker_event(WorkerEvent::DownloadFinished(Ok(response))) {
        Some(WorkerRequest::ScanLibrary(dir)) => assert_eq!(dir, "/home/u/Music"),
        _ => panic!("expected a rescan"),
    }
    assert!(!app.busy);
    assert_eq!(app.status, "下载完成[ok]: Name.mp3 -> /home/u/Music/Name.mp3 | 歌词: 未保存");
    assert!(app.handle_worker_event(WorkerEvent::DownloadFinished(Err("boom".to_string()))).is_none());
    assert_eq!(app.status, "下载失败: boom");
}

#[test]
fn search_failures() {
    let mut app = new_app();
    app.toggle_search_mode();
    assert_eq!(app.status, "搜索模式: 作者");
    app.handle_worker_event(WorkerEvent::SearchFinished(Err("no helper".to_string())));
    assert_eq!(app.status, "搜索失败: no helper");
    assert_eq!(app.search_selected, None);
    assert!(matches!(app.handle_key(Key::Char('a'), true, 120), KeyOutcome::Continue));
    assert_eq!(app.search_mode, SearchMode::Song);
    assert!(matches!(app.handle_key(Key::Char('r'), true, 120), KeyOutcome::Request(WorkerRequest::ScanLibrary(_))));
}

#[test]
fn search_status_texts() {
    let w = |v: &[&str]| v.iter().map(|s| s.to_string()).collect::<Vec<String>>();
    assert_eq!(search_status("歌曲", 3, &w(&[])), "歌曲搜索完成: 3 条结果");
    assert_eq!(search_status("歌曲", 0, &w(&["qq: x", "kugou: y"])), "歌曲搜索失败: qq: x | kugou: y");
    assert_eq!(
        search_status("作者", 2, &w(&["a", "b"])),
        "作者搜索完成: 2 条结果 | 部分源失败: a | b"
    );
    assert_eq!(
        search_status("作者", 2, &w(&["a", "b", "c"])),
        "作者搜索完成: 2 条结果 | 部分源失败: a | b 等 3 个源失败"
    );
}

#[test]
fn download_status_texts() {
    let mut r = DownloadResponse {
        status: "done".to_string(),
        path: "/m/x.mp3".to_string(),
        filename: "x.mp3".to_string(),
        lyric_path: Some("/m/x.lrc".to_string()),
        warning: "slow".to_string(),
    };
    assert_eq!(download_status(&r), "下载完成[done]: x.mp3 -> /m/x.mp3 | 歌词: /m/x.lrc (slow)");
    r.lyric_path = None;
    r.warning = String::new();
    assert_eq!(download_status(&r), "下载完成[done]: x.mp3 -> /m/x.mp3 | 歌词: 未保存");
    assert_eq!(lyric_source_for("T", "A", 0), "T - A: 未找到歌词");
    assert_eq!(lyric_source_for("T", "A", 12), "T - A: 12 行歌词");
}

#[test]
fn a_missing_helper_is_told_at_start() {
    let config = AppConfig::default_with_home("/home/u", false);
    let helper = MusicDl::new(&config, "/opt/helper".to_string());
    let (app, request) = App::new(config, helper, false);
    assert!(matches!(request, WorkerRequest::ScanLibrary(ref dir) if dir == "/home/u/Music"));
    assert_eq!(
        app.status,
        "未找到 helper: /opt/helper。请先在 helper 目录运行 go build -buildvcs=false -o music-dl-helper ."
    );
}

#[test]
fn a_download_without_lyrics_shows_the_helper_warning() {
    let mut app = new_app();
    app.busy = true;
    let response = DownloadResponse {
        status: "ok".to_string(),
        path: "/home/u/Music/Name.mp3".to_string(),
        filename: "Name.mp3".to_string(),
        lyric_path: None,
        warning: "lyric fetch failed: lyric is empty or not found".to_string(),
    };
    let reply = app.handle_worker_event(WorkerEvent::DownloadFinished(Ok(response)));
    assert!(matches!(reply, Some(WorkerRequest::ScanLibrary(ref dir)) if dir == "/home/u/Music"));
    assert!(!app.busy);
    assert!(app.status.contains("lyric fetch failed: lyric is empty or not found"));
    assert_eq!(
        app.status,
        "下载完成[ok]: Name.mp3 -> /home/u/Music/Name.mp3 | 歌词: 未保存 (lyric fetch failed: lyric is empty or not found)"
    );
}

#[test]
fn pending_reports_are_taken_in_order() {
    let mut app = new_app();
    app.busy = true;
    let events = vec![
        WorkerEvent::LibraryScanned(vec![track("/m/1.mp3", "1"), track("/m/2.mp3", "2")]),
        WorkerEvent::SearchFinished(Ok(SearchResult { songs: vec![song("7", "Seven")], warnings: vec![] })),
        WorkerEvent::DownloadFinished(Err("boom".to_string())),
        WorkerEvent::LibraryScanned(vec![]),
    ];
    let replies = app.process_worker_events(events);
    assert_eq!(replies.len(), 4);
    assert!(replies.iter().all(|r| r.is_none()));
    assert!(!app.busy);
    assert_eq!(app.library.len(), 0);
    assert_eq!(app.library_selected, None);
    assert_eq!(app.search_selected, Some(0));
    assert_eq!(app.status, "本地曲库已加载: 0 首");
    assert!(app.process_worker_events(vec![]).is_empty());

    let response = DownloadResponse {
        status: "ok".to_string(),
        path: "/m/x.mp3".to_string(),
        filename: "x.mp3".to_string(),
        lyric_path: None,
        warning: String::new(),
    };
    let replies = app.process_worker_events(vec![
        WorkerEvent::DownloadFinished(Ok(response)),
        WorkerEvent::LibraryScanned(vec![track("/m/x.mp3", "x")]),
    ]);
    assert!(matches!(&replies[0], Some(WorkerRequest::ScanLibrary(dir)) if dir == "/home/u/Music"));
    assert!(replies[1].is_none());
    assert_eq!(app.library_selected, Some(0));
}
