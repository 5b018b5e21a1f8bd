//! The player's state and its decisions: what a key press, a finished background job or
//! a started playback does to the state, which background job it asks for, and the
//! status line that tells the user about it.
//!
//! The state holds the selected entry of each list as an index; the background jobs
//! (scanning, searching, downloading) and the audio player run outside and report back
//! through [`WorkerEvent`].
use vstd::prelude::*;

use crate::config::AppConfig;
use crate::json::is_json_of;
use crate::helper::{download_args, search_args, HelperCall, MusicDl, SearchResult};
use crate::models::{lines_view, DownloadResponse, LocalTrack, LyricLine, RemoteSong};
use crate::text::{
    decimal, join, owned, pop_char, push_char, push_decimal, push_str, slice_chars, starts_with,
    starts_with_chars, str_chars, string_from, strings_view, trim, trim_chars,
};
use crate::ui::{card_columns, columns_for_width};

verus! {

/// Which list the arrow keys move in.
#[derive(Debug, Clone, Copy, PartialEq, Eq, Structural)]
pub enum Focus {
    Library,
    Search,
}

/// Whether a search looks for songs or for artists.
#[derive(Debug, Clone, Copy, PartialEq, Eq, Structural)]
pub enum SearchMode {
    Song,
    Artist,
}

impl SearchMode {
    pub open spec fn toggled(self) -> SearchMode {
        match self {
            SearchMode::Song => SearchMode::Artist,
            SearchMode::Artist => SearchMode::Song,
        }
    }

    /// The other mode.
    pub fn toggle(self) -> (r: Self)
        ensures
            r == self.toggled(),
    {
        match self {
            SearchMode::Song => SearchMode::Artist,
            SearchMode::Artist => SearchMode::Song,
        }
    }

    pub open spec fn arg_text(self) -> Seq<char> {
        match self {
            SearchMode::Song => "song"@,
            SearchMode::Artist => "artist"@,
        }
    }

    /// The mode as the helper's `--mode` argument.
    pub fn helper_arg(self) -> (r: &'static str)
        ensures
            r@ == self.arg_text(),
    {
        match self {
            SearchMode::Song => "song",
            SearchMode::Artist => "artist",
        }
    }

    pub open spec fn label_text(self) -> Seq<char> {
        match self {
            SearchMode::Song => "歌曲"@,
            SearchMode::Artist => "作者"@,
        }
    }

    /// The mode's name as shown to the user.
    pub fn label(self) -> (r: &'static str)
        ensures
            r@ == self.label_text(),
    {
        match self {
            SearchMode::Song => "歌曲",
            SearchMode::Artist => "作者",
        }
    }
}

/// What a background job reports when it is done.
#[derive(Debug)]
pub enum WorkerEvent {
    LibraryScanned(Vec<LocalTrack>),
    SearchFinished(Result<SearchResult, String>),
    DownloadFinished(Result<DownloadResponse, String>),
}

/// A background job to start.
#[derive(Debug)]
pub enum WorkerRequest {
    /// Scan this music directory.
    ScanLibrary(String),
    /// Run the helper to search.
    Search(HelperCall),
    /// Run the helper to download, or report this error as the download's outcome.
    Download(Result<HelperCall, String>),
}

/// A key press, as far as the player distinguishes keys.
#[derive(Debug, Clone, Copy, PartialEq, Eq, Structural)]
pub enum Key {
    Char(char),
    Tab,
    Left,
    Right,
    Up,
    Down,
    Enter,
    Backspace,
    Other,
}

/// What the event loop does after a key press.
#[derive(Debug)]
pub enum KeyOutcome {
    Quit,
    Continue,
    Request(WorkerRequest),
    Play(LocalTrack),
    StopPlayback,
}

/// The player's state.
pub struct App {
    pub config: AppConfig,
    pub helper: MusicDl,
    pub focus: Focus,
    pub library: Vec<LocalTrack>,
    pub search_results: Vec<RemoteSong>,
    pub library_selected: Option<usize>,
    pub search_selected: Option<usize>,
    pub query: String,
    pub search_mode: SearchMode,
    pub status: String,
    pub busy: bool,
    pub lyrics: Vec<LyricLine>,
    pub lyric_source: String,
}

// ---------------------------------------------------------------------------
// Status texts
// ---------------------------------------------------------------------------

pub open spec fn scan_status(dir: Seq<char>) -> Seq<char> {
    "扫描本地曲库: "@ + dir
}

pub open spec fn searching_status(mode: SearchMode, query: Seq<char>) -> Seq<char> {
    mode.label_text() + "搜索中: "@ + query
}

/// The status at start when the helper has not been built.
pub open spec fn helper_not_found_status(path: Seq<char>) -> Seq<char> {
    "未找到 helper: "@ + path + "。请先在 helper 目录运行 go build -buildvcs=false -o music-dl-helper ."@
}

pub open spec fn helper_missing_status(path: Seq<char>) -> Seq<char> {
    "无法下载：未找到 helper "@ + path
}

pub open spec fn no_remote_status() -> Seq<char> {
    "没有选中的搜索结果"@
}

pub open spec fn downloading_status(song: RemoteSong, dir: Seq<char>) -> Seq<char> {
    "下载中: "@ + song.name@ + " - "@ + song.artist@ + " -> "@ + dir
}

pub open spec fn no_local_status() -> Seq<char> {
    "没有选中的本地歌曲"@
}

pub open spec fn lyric_source_text(title: Seq<char>, artist: Seq<char>, count: nat) -> Seq<char> {
    if count == 0 {
        title + " - "@ + artist + ": 未找到歌词"@
    } else {
        title + " - "@ + artist + ": "@ + decimal(count) + " 行歌词"@
    }
}

pub open spec fn playing_status(title: Seq<char>, artist: Seq<char>) -> Seq<char> {
    "正在播放: "@ + title + " - "@ + artist
}

pub open spec fn library_loaded_status(count: nat) -> Seq<char> {
    "本地曲库已加载: "@ + decimal(count) + " 首"@
}

/// The status after a search: its failure when it found nothing and sources failed,
/// else the number of results and, when sources failed, the first two warnings (and
/// the number of failed sources when there are more).
pub open spec fn search_status_text(label: Seq<char>, count: nat, warnings: Seq<Seq<char>>) -> Seq<
    char,
> {
    if count == 0 && warnings.len() > 0 {
        label + "搜索失败: "@ + join(warnings, " | "@)
    } else {
        let base = label + "搜索完成: "@ + decimal(count) + " 条结果"@;
        if warnings.len() == 0 {
            base
        } else {
            let preview = join(
                warnings.take(
                    if warnings.len() > 2 {
                        2
                    } else {
                        warnings.len() as int
                    },
                ),
                " | "@,
            );
            let suffix = if warnings.len() > 2 {
                preview + " 等 "@ + decimal(warnings.len()) + " 个源失败"@
            } else {
                preview
            };
            base + " | 部分源失败: "@ + suffix
        }
    }
}

pub open spec fn search_failed_status(err: Seq<char>) -> Seq<char> {
    "搜索失败: "@ + err
}

/// The status after a completed download.
pub open spec fn download_done_status(r: DownloadResponse) -> Seq<char> {
    let lyric = match r.lyric_path {
        Some(p) => " | 歌词: "@ + p@,
        None => " | 歌词: 未保存"@,
    };
    let warning = if r.warning@.len() == 0 {
        Seq::<char>::empty()
    } else {
        " ("@ + r.warning@ + ")"@
    };
    "下载完成["@ + r.status@ + "]: "@ + r.filename@ + " -> "@ + r.path@ + lyric + warning
}

pub open spec fn download_failed_status(err: Seq<char>) -> Seq<char> {
    "下载失败: "@ + err
}

pub open spec fn mode_status(mode: SearchMode) -> Seq<char> {
    "搜索模式: "@ + mode.label_text()
}

pub open spec fn stopped_status() -> Seq<char> {
    "已停止播放"@
}

/// The status after a search (see [`search_status_text`]).
pub fn search_status(label: &str, count: usize, warnings: &Vec<String>) -> (r: String)
    ensures
        r@ == search_status_text(label@, count as nat, strings_view(warnings@)),
{
    let ghost w = strings_view(warnings@);
    if count == 0 && warnings.len() > 0 {
        let mut r = owned(label);
        push_str(&mut r, "搜索失败: ");
        let all = crate::helper::join_strings(warnings, warnings.len(), " | ");
        push_str(&mut r, all.as_str());
        proof {
            assert(w.take(w.len() as int) =~= w);
        }
        return r;
    }
    let mut r = owned(label);
    push_str(&mut r, "搜索完成: ");
    push_decimal(&mut r, count as u64);
    push_str(&mut r, " 条结果");
    if warnings.len() > 0 {
        let shown: usize = if warnings.len() > 2 {
            2
        } else {
            warnings.len()
        };
        let preview = crate::helper::join_strings(warnings, shown, " | ");
        push_str(&mut r, " | 部分源失败: ");
        push_str(&mut r, preview.as_str());
        if warnings.len() > 2 {
            push_str(&mut r, " 等 ");
            push_decimal(&mut r, warnings.len() as u64);
            push_str(&mut r, " 个源失败");
        }
    }
    r
}

/// The status after a completed download (see [`download_done_status`]).
pub fn download_status(response: &DownloadResponse) -> (r: String)
    ensures
        r@ == download_done_status(*response),
{
    let mut r = owned("下载完成[");
    push_str(&mut r, response.status.as_str());
    push_str(&mut r, "]: ");
    push_str(&mut r, response.filename.as_str());
    push_str(&mut r, " -> ");
    push_str(&mut r, response.path.as_str());
    match &response.lyric_path {
        Some(p) => {
            push_str(&mut r, " | 歌词: ");
            push_str(&mut r, p.as_str());
        },
        None => {
            push_str(&mut r, " | 歌词: 未保存");
        },
    }
    if !response.warning.as_str().is_empty() {
        push_str(&mut r, " (");
        push_str(&mut r, response.warning.as_str());
        push_str(&mut r, ")");
    }
    r
}

/// The description of the lyrics loaded for a track (see [`lyric_source_text`]).
pub fn lyric_source_for(title: &str, artist: &str, count: usize) -> (r: String)
    ensures
        r@ == lyric_source_text(title@, artist@, count as nat),
{
    let mut r = owned(title);
    push_str(&mut r, " - ");
    push_str(&mut r, artist);
    if count == 0 {
        push_str(&mut r, ": 未找到歌词");
    } else {
        push_str(&mut r, ": ");
        push_decimal(&mut r, count as u64);
        push_str(&mut r, " 行歌词");
    }
    r
}

// ---------------------------------------------------------------------------
// Search input
// ---------------------------------------------------------------------------

/// `q` without the prefix `p`, if it starts with it.
pub open spec fn strip_prefix(q: Seq<char>, p: Seq<char>) -> Option<Seq<char>> {
    if starts_with(q, p) {
        Some(q.skip(p.len() as int))
    } else {
        None
    }
}

/// The mode and keyword of a search: the trimmed query, in artist mode when it starts
/// with `@`, `artist:` or `作者:` (that prefix removed and the rest trimmed again).
pub open spec fn normalized(mode: SearchMode, query: Seq<char>) -> (SearchMode, Seq<char>) {
    let q = trim(query);
    match strip_prefix(q, "@"@) {
        Some(v) => (SearchMode::Artist, trim(v)),
        None => match strip_prefix(q, "artist:"@) {
            Some(v) => (SearchMode::Artist, trim(v)),
            None => match strip_prefix(q, "作者:"@) {
                Some(v) => (SearchMode::Artist, trim(v)),
                None => (mode, q),
            },
        },
    }
}

fn strip_prefix_chars(q: &Vec<char>, p: &str) -> (r: Option<Vec<char>>)
    ensures
        match strip_prefix(q@, p@) {
            Some(v) => r is Some && r.unwrap()@ == v,
            None => r is None,
        },
{
    let pv = str_chars(p);
    if starts_with_chars(q, &pv) {
        let rest = slice_chars(q, pv.len(), q.len());
        proof {
            assert(rest@ =~= q@.skip(pv@.len() as int));
        }
        Some(rest)
    } else {
        None
    }
}

// ---------------------------------------------------------------------------
// Selection
// ---------------------------------------------------------------------------

/// The selection after moving by `delta` in a list of `len` entries: none in an empty
/// list, else the current entry (the first without one) moved and kept inside the list.
pub open spec fn moved(selected: Option<usize>, len: nat, delta: int) -> Option<usize> {
    if len == 0 {
        None
    } else {
        let cur = match selected {
            Some(s) => s as int,
            None => 0,
        };
        let n = cur + delta;
        let hi = len - 1;
        Some(
            (if n < 0 {
                0
            } else if n > hi {
                hi
            } else {
                n
            }) as usize,
        )
    }
}

fn moved_exec(selected: Option<usize>, len: usize, delta: i128) -> (r: Option<usize>)
    requires
        -0x1_0000_0000_0000_0000 <= delta <= 0x1_0000_0000_0000_0000,
    ensures
        r == moved(selected, len as nat, delta as int),
{
    if len == 0 {
        return None;
    }
    let cur: i128 = match selected {
        Some(s) => s as i128,
        None => 0,
    };
    let n = cur + delta;
    let hi: i128 = (len - 1) as i128;
    let c: i128 = if n < 0 {
        0
    } else if n > hi {
        hi
    } else {
        n
    };
    Some(c as usize)
}

/// The entry of `list` at `selected`, if there is one.
pub open spec fn selected_in<T>(list: Seq<T>, selected: Option<usize>) -> Option<T> {
    match selected {
        Some(i) => if i < list.len() {
            Some(list[i as int])
        } else {
            None
        },
        None => None,
    }
}

/// The index of the line shown as current after `elapsed_ms` of playback: the last
/// line whose time has come, the first line before any has, none without lyrics.
pub open spec fn first_later(lines: Seq<(u32, Seq<char>)>, t: u32) -> int
    decreases lines.len(),
{
    if lines.len() == 0 {
        0
    } else if lines[0].0 > t {
        0
    } else {
        1 + first_later(lines.drop_first(), t)
    }
}

pub open spec fn clamp_ms(elapsed_ms: u128) -> u32 {
    if elapsed_ms > u32::MAX {
        u32::MAX
    } else {
        elapsed_ms as u32
    }
}

pub open spec fn active_index(lines: Seq<(u32, Seq<char>)>, elapsed_ms: u128) -> Option<usize> {
    if lines.len() == 0 {
        None
    } else {
        let n = first_later(lines, clamp_ms(elapsed_ms));
        Some(
            (if n == 0 {
                0
            } else {
                n - 1
            }) as usize,
        )
    }
}

pub proof fn lemma_first_later(lines: Seq<(u32, Seq<char>)>, t: u32)
    ensures
        0 <= first_later(lines, t) <= lines.len(),
        forall|k: int| 0 <= k < first_later(lines, t) ==> (#[trigger] lines[k]).0 <= t,
        first_later(lines, t) < lines.len() ==> lines[first_later(lines, t)].0 > t,
    decreases lines.len(),
{
    if lines.len() > 0 && lines[0].0 <= t {
        let rest = lines.drop_first();
        lemma_first_later(rest, t);
        assert forall|k: int| 0 <= k < first_later(lines, t) implies (#[trigger] lines[k]).0 <= t by {
            if k > 0 {
                assert(lines[k] == rest[k - 1]);
            }
        }
    }
}

// ---------------------------------------------------------------------------
// Transitions, stated over the state before and after
// ---------------------------------------------------------------------------

/// Everything but the status line is unchanged.
pub open spec fn same_but_status(a: App, b: App) -> bool {
    &&& b.config == a.config
    &&& b.helper == a.helper
    &&& b.focus == a.focus
    &&& b.library == a.library
    &&& b.search_results == a.search_results
    &&& b.library_selected == a.library_selected
    &&& b.search_selected == a.search_selected
    &&& b.query == a.query
    &&& b.search_mode == a.search_mode
    &&& b.busy == a.busy
    &&& b.lyrics == a.lyrics
    &&& b.lyric_source == a.lyric_source
}

/// Asking for a rescan of the music directory.
pub open spec fn refresh_post(a: App, b: App, r: WorkerRequest) -> bool {
    &&& same_but_status(a, b)
    &&& b.status@ == scan_status(a.config.music_dir@)
    &&& r matches WorkerRequest::ScanLibrary(d) && d@ == a.config.music_dir@
}

/// Starting a search, when the query is not empty and no job runs.
pub open spec fn search_post(a: App, b: App, r: Option<WorkerRequest>) -> bool {
    let (mode, q) = normalized(a.search_mode, a.query@);
    if q.len() == 0 || a.busy {
        b == a && r is None
    } else {
        &&& b.busy
        &&& b.status@ == searching_status(mode, q)
        &&& b.search_results@.len() == 0
        &&& b.search_selected is None
        &&& b.config == a.config && b.helper == a.helper && b.focus == a.focus
        &&& b.library == a.library && b.library_selected == a.library_selected
        &&& b.query == a.query && b.search_mode == a.search_mode
        &&& b.lyrics == a.lyrics && b.lyric_source == a.lyric_source
        &&& r matches Some(WorkerRequest::Search(c)) && {
            &&& c.program@ == a.helper.path_view()
            &&& c.cookies_json@ == a.helper.cookies_view()
            &&& strings_view(c.args@) == search_args(
                q,
                mode.arg_text(),
                strings_view(a.config.default_sources@),
            )
        }
    }
}

/// Starting a download of the selected search result, when no job runs and the helper
/// is there.
pub open spec fn download_post(a: App, helper_ready: bool, b: App, r: Option<WorkerRequest>) -> bool {
    if a.busy {
        b == a && r is None
    } else if !helper_ready {
        same_but_status(a, b) && b.status@ == helper_missing_status(a.helper.path_view())
            && r is None
    } else {
        match selected_in(a.search_results@, a.search_selected) {
            None => same_but_status(a, b) && b.status@ == no_remote_status() && r is None,
            Some(song) => {
                &&& b.busy
                &&& b.status@ == downloading_status(song, a.config.music_dir@)
                &&& b.config == a.config && b.helper == a.helper && b.focus == a.focus
                &&& b.library == a.library && b.search_results == a.search_results
                &&& b.library_selected == a.library_selected
                &&& b.search_selected == a.search_selected
                &&& b.query == a.query && b.search_mode == a.search_mode
                &&& b.lyrics == a.lyrics && b.lyric_source == a.lyric_source
                &&& r matches Some(WorkerRequest::Download(Ok(c))) && {
                    &&& c.program@ == a.helper.path_view()
                    &&& c.cookies_json@ == a.helper.cookies_view()
                    &&& c.args@.len() == 21
                    &&& strings_view(c.args@).take(20) == download_args(
                        song,
                        a.config.music_dir@,
                        a.config.embed_cover,
                        a.config.embed_lyrics,
                    )
                    &&& is_json_of(c.args@[20]@, song.extra@)
                }
            },
        }
    }
}

/// Choosing the selected local track for playback.
pub open spec fn play_select_post(a: App, b: App, r: Option<LocalTrack>) -> bool {
    match selected_in(a.library@, a.library_selected) {
        None => same_but_status(a, b) && b.status@ == no_local_status() && r is None,
        Some(t) => b == a && r == Some(t),
    }
}

/// Moving the selection of the focused list by `delta`.
pub open spec fn move_post(a: App, b: App, delta: int) -> bool {
    &&& b.config == a.config && b.helper == a.helper && b.focus == a.focus
    &&& b.library == a.library && b.search_results == a.search_results
    &&& b.query == a.query && b.search_mode == a.search_mode && b.status == a.status
    &&& b.busy == a.busy && b.lyrics == a.lyrics && b.lyric_source == a.lyric_source
    &&& match a.focus {
        Focus::Library => b.library_selected == moved(
            a.library_selected,
            a.library@.len(),
            delta,
        ) && b.search_selected == a.search_selected,
        Focus::Search => b.search_selected == moved(
            a.search_selected,
            a.search_results@.len(),
            delta,
        ) && b.library_selected == a.library_selected,
    }
}

/// The step of an up or down move: a whole row of cards.
pub open spec fn row_step(columns: usize) -> int {
    if columns < 1 {
        1
    } else {
        columns as int
    }
}

/// Switching the search mode.
pub open spec fn toggle_mode_post(a: App, b: App) -> bool {
    &&& b.search_mode == a.search_mode.toggled()
    &&& b.status@ == mode_status(a.search_mode.toggled())
    &&& b.config == a.config && b.helper == a.helper && b.focus == a.focus
    &&& b.library == a.library && b.search_results == a.search_results
    &&& b.library_selected == a.library_selected && b.search_selected == a.search_selected
    &&& b.query == a.query && b.busy == a.busy
    &&& b.lyrics == a.lyrics && b.lyric_source == a.lyric_source
}

/// Everything but the focus is unchanged, and the focus has moved to the other list.
pub open spec fn focus_toggled_post(a: App, b: App) -> bool {
    &&& b.focus == (if a.focus == Focus::Library {
        Focus::Search
    } else {
        Focus::Library
    })
    &&& b.config == a.config && b.helper == a.helper
    &&& b.library == a.library && b.search_results == a.search_results
    &&& b.library_selected == a.library_selected && b.search_selected == a.search_selected
    &&& b.query == a.query && b.search_mode == a.search_mode && b.status == a.status
    &&& b.busy == a.busy && b.lyrics == a.lyrics && b.lyric_source == a.lyric_source
}

/// Everything but the query is unchanged, and the query is `q`.
pub open spec fn query_post(a: App, b: App, q: Seq<char>) -> bool {
    &&& b.query@ == q
    &&& b.config == a.config && b.helper == a.helper && b.focus == a.focus
    &&& b.library == a.library && b.search_results == a.search_results
    &&& b.library_selected == a.library_selected && b.search_selected == a.search_selected
    &&& b.search_mode == a.search_mode && b.status == a.status
    &&& b.busy == a.busy && b.lyrics == a.lyrics && b.lyric_source == a.lyric_source
}

/// What a key press does (see [`App::handle_key`]).
pub open spec fn key_post(
    a: App,
    key: Key,
    helper_ready: bool,
    width: u16,
    b: App,
    r: KeyOutcome,
) -> bool {
    match key {
        Key::Char('q') => b == a && r is Quit,
        Key::Tab => focus_toggled_post(a, b) && r is Continue,
        Key::Left | Key::Char('h') => move_post(a, b, -1) && r is Continue,
        Key::Right | Key::Char('l') => move_post(a, b, 1) && r is Continue,
        Key::Up | Key::Char('k') => move_post(a, b, -row_step(columns_for_width(width)))
            && r is Continue,
        Key::Down | Key::Char('j') => move_post(a, b, row_step(columns_for_width(width)))
            && r is Continue,
        Key::Enter => if a.focus == Focus::Library {
            play_key_post(a, b, r)
        } else {
            search_key_post(a, b, r)
        },
        Key::Char('d') => download_key_post(a, helper_ready, b, r),
        Key::Char('a') => toggle_mode_post(a, b) && r is Continue,
        Key::Char('p') => play_key_post(a, b, r),
        Key::Char('s') => same_but_status(a, b) && b.status@ == stopped_status()
            && r is StopPlayback,
        Key::Char('r') => exists|w: WorkerRequest|
            refresh_post(a, b, w) && r == KeyOutcome::Request(w),
        Key::Backspace => if a.focus == Focus::Search {
            query_post(
                a,
                b,
                if a.query@.len() > 0 {
                    a.query@.drop_last()
                } else {
                    a.query@
                },
            ) && r is Continue
        } else {
            b == a && r is Continue
        },
        Key::Char(c) => if a.focus == Focus::Search {
            query_post(a, b, a.query@.push(c)) && r is Continue
        } else {
            b == a && r is Continue
        },
        Key::Other => b == a && r is Continue,
    }
}

/// A key that may start playback: the chosen track is played, or nothing happens.
pub open spec fn play_key_post(a: App, b: App, r: KeyOutcome) -> bool {
    exists|t: Option<LocalTrack>|
        #[trigger] play_select_post(a, b, t) && match t {
            Some(track) => r == KeyOutcome::Play(track),
            None => r is Continue,
        }
}

/// The key outcome of a job request: the job, or nothing.
pub open spec fn request_outcome(o: Option<WorkerRequest>, r: KeyOutcome) -> bool {
    match o {
        Some(w) => r == KeyOutcome::Request(w),
        None => r is Continue,
    }
}

/// A key that starts a search if it can.
pub open spec fn search_key_post(a: App, b: App, r: KeyOutcome) -> bool {
    exists|o: Option<WorkerRequest>| #[trigger] search_post(a, b, o) && request_outcome(o, r)
}

/// A key that starts a download if it can.
pub open spec fn download_key_post(a: App, helper_ready: bool, b: App, r: KeyOutcome) -> bool {
    exists|o: Option<WorkerRequest>|
        #[trigger] download_post(a, helper_ready, b, o) && request_outcome(o, r)
}

/// What a finished job does to the state, and the job it asks for next.
pub open spec fn event_post(a: App, e: WorkerEvent, b: App, r: Option<WorkerRequest>) -> bool {
    match e {
        WorkerEvent::LibraryScanned(tracks) => {
            &&& b.library == tracks
            &&& b.library_selected == (if tracks@.len() > 0 {
                Some(0usize)
            } else {
                None
            })
            &&& b.status@ == library_loaded_status(tracks@.len())
            &&& r is None
            &&& b.config == a.config && b.helper == a.helper && b.focus == a.focus
            &&& b.search_results == a.search_results && b.search_selected == a.search_selected
            &&& b.query == a.query && b.search_mode == a.search_mode && b.busy == a.busy
            &&& b.lyrics == a.lyrics && b.lyric_source == a.lyric_source
        },
        WorkerEvent::SearchFinished(result) => {
            &&& !b.busy
            &&& r is None
            &&& b.config == a.config && b.helper == a.helper && b.focus == a.focus
            &&& b.library == a.library && b.library_selected == a.library_selected
            &&& b.query == a.query && b.search_mode == a.search_mode
            &&& b.lyrics == a.lyrics && b.lyric_source == a.lyric_source
            &&& match result {
                Ok(s) => {
                    &&& b.search_results == s.songs
                    &&& b.search_selected == (if s.songs@.len() > 0 {
                        Some(0usize)
                    } else {
                        None
                    })
                    &&& b.status@ == search_status_text(
                        a.search_mode.label_text(),
                        s.songs@.len(),
                        strings_view(s.warnings@),
                    )
                },
                Err(err) => {
                    &&& b.search_results@.len() == 0
                    &&& b.search_selected is None
                    &&& b.status@ == search_failed_status(err@)
                },
            }
        },
        WorkerEvent::DownloadFinished(result) => {
            &&& !b.busy
            &&& b.config == a.config && b.helper == a.helper && b.focus == a.focus
            &&& b.library == a.library && b.search_results == a.search_results
            &&& b.library_selected == a.library_selected
            &&& b.search_selected == a.search_selected
            &&& b.query == a.query && b.search_mode == a.search_mode
            &&& b.lyrics == a.lyrics && b.lyric_source == a.lyric_source
            &&& match result {
                Ok(response) => {
                    &&& b.status@ == download_done_status(response)
                    &&& r matches Some(WorkerRequest::ScanLibrary(d)) && d@ == a.config.music_dir@
                },
                Err(err) => b.status@ == download_failed_status(err@) && r is None,
            }
        },
    }
}

/// `states` is what the reports `es` make of `states[0]`, one after another, and `rs`
/// are the jobs that they ask for.
pub open spec fn events_run(states: Seq<App>, es: Seq<WorkerEvent>, rs: Seq<Option<WorkerRequest>>) -> bool {
    &&& states.len() == es.len() + 1
    &&& rs.len() == es.len()
    &&& forall|i: int|
        #![trigger es[i]]
        0 <= i < es.len() ==> event_post(states[i], es[i], states[i + 1], rs[i])
}

impl App {
    /// The player's state at start: the search list in front, song mode, nothing found
    /// or loaded yet, and a scan of the music directory asked for.  The status tells that
    /// the helper is missing when `helper_ready` is false, else that the scan runs.
    pub fn new(config: AppConfig, helper: MusicDl, helper_ready: bool) -> (r: (App, WorkerRequest))
        ensures
            r.0.config == config,
            r.0.helper == helper,
            r.0.focus == Focus::Search,
            r.0.library@.len() == 0,
            r.0.search_results@.len() == 0,
            r.0.library_selected is None,
            r.0.search_selected is None,
            r.0.query@.len() == 0,
            r.0.search_mode == SearchMode::Song,
            r.0.status@ == if helper_ready {
                scan_status(config.music_dir@)
            } else {
                helper_not_found_status(helper.path_view())
            },
            !r.0.busy,
            r.0.lyrics@.len() == 0,
            r.0.lyric_source@ == "未播放"@,
            r.1 matches WorkerRequest::ScanLibrary(d) && d@ == config.music_dir@,
    {
        let mut app = App {
            config,
            helper,
            focus: Focus::Search,
            library: Vec::new(),
            search_results: Vec::new(),
            library_selected: None,
            search_selected: None,
            query: String::new(),
            search_mode: SearchMode::Song,
            status: owned("输入关键词后按 Enter 搜索；按 a 切换歌曲/作者搜索"),
            busy: false,
            lyrics: Vec::new(),
            lyric_source: owned("未播放"),
        };
        let request = app.refresh_library();
        if !helper_ready {
            let mut s = owned("未找到 helper: ");
            push_str(&mut s, app.helper.helper_path());
            push_str(&mut s, "。请先在 helper 目录运行 go build -buildvcs=false -o music-dl-helper .");
            app.status = s;
        }
        (app, request)
    }

    /// Asks for a rescan of the music directory.
    pub fn refresh_library(&mut self) -> (r: WorkerRequest)
        ensures
            refresh_post(*old(self), *final(self), r),
    {
        let mut s = owned("扫描本地曲库: ");
        push_str(&mut s, self.config.music_dir.as_str());
        self.status = s;
        WorkerRequest::ScanLibrary(self.config.music_dir.clone())
    }

    /// The mode and keyword of the current query (see [`normalized`]).
    pub fn normalized_search(&self) -> (r: (SearchMode, String))
        ensures
            (r.0, r.1@) == normalized(self.search_mode, self.query@),
    {
        let q = trim_chars(&str_chars(self.query.as_str()));
        match strip_prefix_chars(&q, "@") {
            Some(v) => {
                return (SearchMode::Artist, string_from(&trim_chars(&v)));
            },
            None => {},
        }
        match strip_prefix_chars(&q, "artist:") {
            Some(v) => {
                return (SearchMode::Artist, string_from(&trim_chars(&v)));
            },
            None => {},
        }
        match strip_prefix_chars(&q, "作者:") {
            Some(v) => {
                return (SearchMode::Artist, string_from(&trim_chars(&v)));
            },
            None => {},
        }
        (self.search_mode, string_from(&q))
    }

    /// Starts a search for the current query, unless it is empty or a job runs.
    pub fn search(&mut self) -> (r: Option<WorkerRequest>)
        ensures
            search_post(*old(self), *final(self), r),
    {
        let (mode, query) = self.normalized_search();
        if query.as_str().is_empty() || self.busy {
            return None;
        }
        self.busy = true;
        let mut s = owned(mode.label());
        push_str(&mut s, "搜索中: ");
        push_str(&mut s, query.as_str());
        self.status = s;
        self.search_results = Vec::new();
        self.search_selected = None;
        let call = self.helper.search(query.as_str(), mode.helper_arg(), &self.config.default_sources);
        Some(WorkerRequest::Search(call))
    }

    /// Starts a download of the selected search result, unless a job runs, the helper is
    /// missing (`helper_ready` false) or nothing is selected.
    pub fn download_selected(&mut self, helper_ready: bool) -> (r: Option<WorkerRequest>)
        ensures
            download_post(*old(self), helper_ready, *final(self), r),
    {
        if self.busy {
            return None;
        }
        if !helper_ready {
            let mut s = owned("无法下载：未找到 helper ");
            push_str(&mut s, self.helper.helper_path());
            self.status = s;
            return None;
        }
        let idx = match self.search_selected {
            Some(i) => if i < self.search_results.len() {
                i
            } else {
                self.status = owned("没有选中的搜索结果");
                return None;
            },
            None => {
                self.status = owned("没有选中的搜索结果");
                return None;
            },
        };
        let mut s = owned("下载中: ");
        push_str(&mut s, self.search_results[idx].name.as_str());
        push_str(&mut s, " - ");
        push_str(&mut s, self.search_results[idx].artist.as_str());
        push_str(&mut s, " -> ");
        push_str(&mut s, self.config.music_dir.as_str());
        let call = self.helper.download(
            &self.search_results[idx],
            self.config.music_dir.as_str(),
            self.config.embed_cover,
            self.config.embed_lyrics,
        );
        self.busy = true;
        self.status = s;
        Some(WorkerRequest::Download(call))
    }

    /// Chooses the selected local track for playback; tells the user when there is none.
    pub fn play_selected_local(&mut self) -> (r: Option<LocalTrack>)
        ensures
            play_select_post(*old(self), *final(self), r),
    {
        match self.selected_local_track() {
            Some(track) => Some(track.duplicate()),
            None => {
                self.status = owned("没有选中的本地歌曲");
                None
            },
        }
    }

    /// Records the start of playback of `track` with the lyrics found for it and the
    /// player's outcome.
    pub fn start_playback(&mut self, track: &LocalTrack, lyrics: Vec<LyricLine>, played: Result<
        (),
        String,
    >)
        ensures
            final(self).lyric_source@ == lyric_source_text(
                track.title@,
                track.artist@,
                lyrics@.len(),
            ),
            final(self).lyrics == lyrics,
            final(self).status@ == match played {
                Ok(()) => playing_status(track.title@, track.artist@),
                Err(e) => e@,
            },
            final(self).config == old(self).config,
            final(self).helper == old(self).helper,
            final(self).focus == old(self).focus,
            final(self).library == old(self).library,
            final(self).search_results == old(self).search_results,
            final(self).library_selected == old(self).library_selected,
            final(self).search_selected == old(self).search_selected,
            final(self).query == old(self).query,
            final(self).search_mode == old(self).search_mode,
            final(self).busy == old(self).busy,
    {
        self.lyric_source = lyric_source_for(track.title.as_str(), track.artist.as_str(), lyrics.len());
        self.lyrics = lyrics;
        match played {
            Ok(()) => {
                let mut s = owned("正在播放: ");
                push_str(&mut s, track.title.as_str());
                push_str(&mut s, " - ");
                push_str(&mut s, track.artist.as_str());
                self.status = s;
            },
            Err(e) => {
                self.status = e;
            },
        }
    }

    /// Takes in what a finished job reports; a finished download asks for a rescan.
    pub fn handle_worker_event(&mut self, event: WorkerEvent) -> (r: Option<WorkerRequest>)
        ensures
            event_post(*old(self), event, *final(self), r),
    {
        match event {
            WorkerEvent::LibraryScanned(tracks) => {
                let count = tracks.len();
                self.library = tracks;
                if count > 0 {
                    self.library_selected = Some(0);
                } else {
                    self.library_selected = None;
                }
                let mut s = owned("本地曲库已加载: ");
                push_decimal(&mut s, count as u64);
                push_str(&mut s, " 首");
                self.status = s;
                None
            },
            WorkerEvent::SearchFinished(result) => {
                self.busy = false;
                match result {
                    Ok(search) => {
                        let count = search.songs.len();
                        let status = search_status(self.search_mode.label(), count, &search.warnings);
                        self.search_results = search.songs;
                        if count > 0 {
                            self.search_selected = Some(0);
                        } else {
                            self.search_selected = None;
                        }
                        self.status = status;
                    },
                    Err(err) => {
                        self.search_results = Vec::new();
                        self.search_selected = None;
                        let mut s = owned("搜索失败: ");
                        push_str(&mut s, err.as_str());
                        self.status = s;
                    },
                }
                None
            },
            WorkerEvent::DownloadFinished(result) => {
                self.busy = false;
                match result {
                    Ok(response) => {
                        let rescan = WorkerRequest::ScanLibrary(self.config.music_dir.clone());
                        self.status = download_status(&response);
                        Some(rescan)
                    },
                    Err(err) => {
                        let mut s = owned("下载失败: ");
                        push_str(&mut s, err.as_str());
                        self.status = s;
                        None
                    },
                }
            },
        }
    }

    /// Takes in the reports of the finished jobs, in the order in which they came, and
    /// gives for each the job that it asks for next.
    pub fn process_worker_events(&mut self, events: Vec<WorkerEvent>) -> (r: Vec<Option<WorkerRequest>>)
        ensures
            exists|states: Seq<App>|
                #[trigger] events_run(states, events@, r@) && states[0] == *old(self) && states.last()
                    == *final(self),
            selections_valid(*old(self)) ==> selections_valid(*final(self)),
    {
        let ghost start = *self;
        let ghost all = events@;
        let total = events.len();
        let ghost mut states: Seq<App> = seq![*self];
        let mut rest = events;
        let mut out: Vec<Option<WorkerRequest>> = Vec::new();
        let mut k: usize = 0;
        while rest.len() > 0
            invariant
                k <= all.len(),
                all.len() == total,
                rest@ == all.skip(k as int),
                out@.len() == k,
                states.len() == k + 1,
                states[0] == start,
                states.last() == *self,
                forall|i: int|
                    #![trigger all[i]]
                    0 <= i < k ==> event_post(states[i], all[i], states[i + 1], out@[i]),
            decreases rest.len(),
        {
            let event = rest.remove(0);
            proof {
                assert(event == all[k as int]);
            }
            let reply = self.handle_worker_event(event);
            out.push(reply);
            proof {
                states = states.push(*self);
                assert(rest@ =~= all.skip(k + 1));
            }
            k += 1;
        }
        proof {
            assert(k == all.len());
            assert(events_run(states, all, out@));
            if selections_valid(start) {
                lemma_event_run_keeps_selections_valid(states, all, out@);
            }
        }
        out
    }

    /// Switches between song and artist search.
    pub fn toggle_search_mode(&mut self)
        ensures
            toggle_mode_post(*old(self), *final(self)),
    {
        self.search_mode = self.search_mode.toggle();
        let mut s = owned("搜索模式: ");
        push_str(&mut s, self.search_mode.label());
        self.status = s;
    }

    /// The lyric line that is current after `elapsed_ms` of playback (see [`active_index`]).
    pub fn active_lyric_index(&self, elapsed_ms: u128) -> (r: Option<usize>)
        ensures
            r == active_index(lines_view(self.lyrics@), elapsed_ms),
    {
        if self.lyrics.len() == 0 {
            return None;
        }
        let t: u32 = if elapsed_ms > 0xffff_ffffu128 {
            0xffff_ffffu32
        } else {
            elapsed_ms as u32
        };
        let ghost lv = lines_view(self.lyrics@);
        let mut i: usize = 0;
        proof {
            assert(lv.skip(0) =~= lv);
        }
        while i < self.lyrics.len() && self.lyrics[i].timestamp_ms <= t
            invariant
                i <= self.lyrics.len(),
                lv == lines_view(self.lyrics@),
                first_later(lv, t) == i + first_later(lv.skip(i as int), t),
            decreases self.lyrics.len() - i,
        {
            proof {
                assert(lv.skip(i as int)[0] == self.lyrics@[i as int]@);
                assert(lv.skip(i as int).drop_first() =~= lv.skip(i + 1));
            }
            i += 1;
        }
        proof {
            if i < self.lyrics.len() {
                assert(lv.skip(i as int)[0] == self.lyrics@[i as int]@);
            }
        }
        Some(
            if i == 0 {
                0
            } else {
                i - 1
            },
        )
    }

    fn move_selection(&mut self, delta: i128)
        requires
            -0x1_0000_0000_0000_0000 <= delta <= 0x1_0000_0000_0000_0000,
        ensures
            move_post(*old(self), *final(self), delta as int),
    {
        match self.focus {
            Focus::Library => {
                self.library_selected = moved_exec(self.library_selected, self.library.len(), delta);
            },
            Focus::Search => {
                self.search_selected = moved_exec(
                    self.search_selected,
                    self.search_results.len(),
                    delta,
                );
            },
        }
    }

    /// Moves the selection one entry on.
    pub fn move_right(&mut self)
        ensures
            move_post(*old(self), *final(self), 1),
    {
        self.move_selection(1);
    }

    /// Moves the selection one entry back.
    pub fn move_left(&mut self)
        ensures
            move_post(*old(self), *final(self), -1),
    {
        self.move_selection(-1);
    }

    /// Moves the selection one row of `columns` cards down.
    pub fn move_down(&mut self, columns: usize)
        ensures
            move_post(*old(self), *final(self), row_step(columns)),
    {
        let step: usize = if columns < 1 {
            1
        } else {
            columns
        };
        self.move_selection(step as i128);
    }

    /// Moves the selection one row of `columns` cards up.
    pub fn move_up(&mut self, columns: usize)
        ensures
            move_post(*old(self), *final(self), -row_step(columns)),
    {
        let step: usize = if columns < 1 {
            1
        } else {
            columns
        };
        self.move_selection(-(step as i128));
    }

    /// The selected local track, if any.
    pub fn selected_local_track(&self) -> (r: Option<&LocalTrack>)
        ensures
            match selected_in(self.library@, self.library_selected) {
                Some(t) => r is Some && *r.unwrap() == t,
                None => r is None,
            },
    {
        match self.library_selected {
            Some(i) => if i < self.library.len() {
                Some(&self.library[i])
            } else {
                None
            },
            None => None,
        }
    }

    /// The selected search result, if any.
    pub fn selected_remote_song(&self) -> (r: Option<&RemoteSong>)
        ensures
            match selected_in(self.search_results@, self.search_selected) {
                Some(s) => r is Some && *r.unwrap() == s,
                None => r is None,
            },
    {
        match self.search_selected {
            Some(i) => if i < self.search_results.len() {
                Some(&self.search_results[i])
            } else {
                None
            },
            None => None,
        }
    }

    /// Handles a key press.  `helper_ready` tells whether the helper exists and
    /// `terminal_width` is the terminal's width in columns.
    pub fn handle_key(&mut self, key: Key, helper_ready: bool, terminal_width: u16) -> (r:
        KeyOutcome)
        ensures
            key_post(*old(self), key, helper_ready, terminal_width, *final(self), r),
    {
        let ghost a = *self;
        match key {
            Key::Char('q') => KeyOutcome::Quit,
            Key::Tab => {
                self.focus = if self.focus == Focus::Library {
                    Focus::Search
                } else {
                    Focus::Library
                };
                KeyOutcome::Continue
            },
            Key::Left | Key::Char('h') => {
                self.move_left();
                KeyOutcome::Continue
            },
            Key::Right | Key::Char('l') => {
                self.move_right();
                KeyOutcome::Continue
            },
            Key::Up | Key::Char('k') => {
                self.move_up(card_columns(terminal_width));
                KeyOutcome::Continue
            },
            Key::Down | Key::Char('j') => {
                self.move_down(card_columns(terminal_width));
                KeyOutcome::Continue
            },
            Key::Enter => {
                if self.focus == Focus::Library {
                    self.play_outcome()
                } else {
                    let o = self.search();
                    proof {
                        assert(search_post(a, *self, o));
                    }
                    match o {
                        Some(w) => KeyOutcome::Request(w),
                        None => KeyOutcome::Continue,
                    }
                }
            },
            Key::Char('d') => {
                let o = self.download_selected(helper_ready);
                proof {
                    assert(download_post(a, helper_ready, *self, o));
                }
                match o {
                    Some(w) => KeyOutcome::Request(w),
                    None => KeyOutcome::Continue,
                }
            },
            Key::Char('a') => {
                self.toggle_search_mode();
                KeyOutcome::Continue
            },
            Key::Char('p') => self.play_outcome(),
            Key::Char('s') => {
                self.status = owned("已停止播放");
                KeyOutcome::StopPlayback
            },
            Key::Char('r') => {
                let w = self.refresh_library();
                proof {
                    assert(refresh_post(a, *self, w));
                }
                KeyOutcome::Request(w)
            },
            Key::Backspace => {
                if self.focus == Focus::Search {
                    pop_char(&mut self.query);
                }
                KeyOutcome::Continue
            },
            Key::Char(c) => {
                if self.focus == Focus::Search {
                    push_char(&mut self.query, c);
                }
                KeyOutcome::Continue
            },
            Key::Other => KeyOutcome::Continue,
        }
    }

    /// Chooses the selected local track and says whether to play it.
    fn play_outcome(&mut self) -> (r: KeyOutcome)
        ensures
            play_key_post(*old(self), *final(self), r),
    {
        let ghost a = *self;
        let t = self.play_selected_local();
        proof {
            assert(play_select_post(a, *self, t));
        }
        match t {
            Some(track) => KeyOutcome::Play(track),
            None => KeyOutcome::Continue,
        }

    }
}

// ---------------------------------------------------------------------------
// Laws
// ---------------------------------------------------------------------------

/// Law: switching the search mode twice gives the mode back.
pub proof fn lemma_toggle_twice(m: SearchMode)
    ensures
        m.toggled().toggled() == m,
{
}

/// The selections point into their lists, or are absent.
pub open spec fn selections_valid(a: App) -> bool {
    &&& (a.library_selected matches Some(i) ==> i < a.library@.len())
    &&& (a.search_selected matches Some(i) ==> i < a.search_results@.len())
}

/// A moved selection is absent exactly in an empty list and otherwise inside it.
pub proof fn lemma_moved_in_range(selected: Option<usize>, len: nat, delta: int)
    ensures
        moved(selected, len, delta) is None <==> len == 0,
        moved(selected, len, delta) matches Some(i) ==> i < len,
{
}

/// Law: no key press leaves a selection pointing outside its list.
pub proof fn lemma_keys_keep_selections_valid(
    a: App,
    key: Key,
    helper_ready: bool,
    width: u16,
    b: App,
    r: KeyOutcome,
)
    requires
        selections_valid(a),
        key_post(a, key, helper_ready, width, b, r),
    ensures
        selections_valid(b),
{
    let d = row_step(columns_for_width(width));
    lemma_moved_in_range(a.library_selected, a.library@.len(), 1);
    lemma_moved_in_range(a.library_selected, a.library@.len(), -1);
    lemma_moved_in_range(a.library_selected, a.library@.len(), d);
    lemma_moved_in_range(a.library_selected, a.library@.len(), -d);
    lemma_moved_in_range(a.search_selected, a.search_results@.len(), 1);
    lemma_moved_in_range(a.search_selected, a.search_results@.len(), -1);
    lemma_moved_in_range(a.search_selected, a.search_results@.len(), d);
    lemma_moved_in_range(a.search_selected, a.search_results@.len(), -d);
    match key {
        Key::Enter => {
            if a.focus == Focus::Library {
                let t = choose|t: Option<LocalTrack>| #[trigger]
                    play_select_post(a, b, t) && match t {
                        Some(track) => r == KeyOutcome::Play(track),
                        None => r is Continue,
                    };
            } else {
                let o = choose|o: Option<WorkerRequest>| #[trigger]
                    search_post(a, b, o) && request_outcome(o, r);
            }
        },
        Key::Char('d') => {
            let o = choose|o: Option<WorkerRequest>| #[trigger]
                download_post(a, helper_ready, b, o) && request_outcome(o, r);
        },
        Key::Char('p') => {
            let t = choose|t: Option<LocalTrack>| #[trigger]
                play_select_post(a, b, t) && match t {
                    Some(track) => r == KeyOutcome::Play(track),
                    None => r is Continue,
                };
        },
        Key::Char('r') => {
            let w = choose|w: WorkerRequest| refresh_post(a, b, w) && r == KeyOutcome::Request(w);
        },
        _ => {},
    }
}

/// Law: no finished job leaves a selection pointing outside its list, and none leaves
/// the player busy.
pub proof fn lemma_events_keep_selections_valid(
    a: App,
    e: WorkerEvent,
    b: App,
    r: Option<WorkerRequest>,
)
    requires
        selections_valid(a),
        event_post(a, e, b, r),
    ensures
        selections_valid(b),
        (e is SearchFinished || e is DownloadFinished) ==> !b.busy,
{
}

/// Law: however many reports come in, and in whatever order, no state on the way leaves
/// a selection pointing outside its list.
pub proof fn lemma_event_run_keeps_selections_valid(
    states: Seq<App>,
    es: Seq<WorkerEvent>,
    rs: Seq<Option<WorkerRequest>>,
)
    requires
        events_run(states, es, rs),
        selections_valid(states[0]),
    ensures
        forall|i: int| 0 <= i < states.len() ==> #[trigger] selections_valid(states[i]),
    decreases es.len(),
{
    if es.len() > 0 {
        let n = es.len() - 1;
        assert(events_run(states.drop_last(), es.drop_last(), rs.drop_last())) by {
            assert forall|i: int| 0 <= i < es.drop_last().len() implies event_post(
                states.drop_last()[i],
                #[trigger] es.drop_last()[i],
                states.drop_last()[i + 1],
                rs.drop_last()[i],
            ) by {
                assert(es[i] == es.drop_last()[i]);
            }
        }
        lemma_event_run_keeps_selections_valid(states.drop_last(), es.drop_last(), rs.drop_last());
        assert(selections_valid(states.drop_last()[n]));
        lemma_events_keep_selections_valid(states[n], es[n], states[n + 1], rs[n]);
        assert forall|i: int| 0 <= i < states.len() implies #[trigger] selections_valid(states[i]) by {
            if i < states.len() - 1 {
                assert(selections_valid(states.drop_last()[i]));
            }
        }
    }
}

/// Law: no search and no download starts while a job runs; the state stays as it was.
pub proof fn lemma_one_job_at_a_time(
    a: App,
    helper_ready: bool,
    b: App,
    r: Option<WorkerRequest>,
)
    requires
        a.busy,
        search_post(a, b, r) || download_post(a, helper_ready, b, r),
    ensures
        b == a,
        r is None,
{
}

/// Law: a started job marks the player busy.
pub proof fn lemma_started_job_is_busy(
    a: App,
    helper_ready: bool,
    b: App,
    r: Option<WorkerRequest>,
)
    requires
        search_post(a, b, r) || download_post(a, helper_ready, b, r),
        r is Some,
    ensures
        b.busy,
{
}

/// Law: during playback the current lyric line is the last one whose time has come
/// (the first line before any has), and the next line's time has not come yet.
pub proof fn lemma_active_line(lines: Seq<(u32, Seq<char>)>, elapsed_ms: u128)
    requires
        0 < lines.len() <= usize::MAX,
        forall|i: int, j: int| 0 <= i < j < lines.len() ==> (#[trigger] lines[i]).0 <= (
        #[trigger] lines[j]).0,
    ensures
        active_index(lines, elapsed_ms) matches Some(k) && {
            &&& k < lines.len()
            &&& lines[0].0 <= clamp_ms(elapsed_ms) ==> lines[k as int].0 <= clamp_ms(elapsed_ms)
            &&& k + 1 < lines.len() ==> lines[k + 1].0 > clamp_ms(elapsed_ms)
        },
{
    let t = clamp_ms(elapsed_ms);
    lemma_first_later(lines, t);
    let n = first_later(lines, t);
    if n == 0 && 1 < lines.len() {
        assert(lines[0].0 <= lines[1].0);
    }
}

/// Law: the current lyric line after `elapsed_ms` of playback is the first line while
/// none has come yet, and otherwise the last line of the leading run of lines whose time
/// has come; there is none exactly when there are no lyrics.
pub proof fn lemma_current_lyric_line(lines: Seq<(u32, Seq<char>)>, elapsed_ms: u128)
    requires
        lines.len() <= usize::MAX,
    ensures
        active_index(lines, elapsed_ms) is None <==> lines.len() == 0,
        lines.len() > 0 && elapsed_ms < lines[0].0 ==> active_index(lines, elapsed_ms) == Some(
            0usize,
        ),
        lines.len() > 0 && lines[0].0 <= elapsed_ms ==> (active_index(lines, elapsed_ms) matches Some(
            k,
        ) && {
            &&& k < lines.len()
            &&& forall|j: int| 0 <= j <= k ==> (#[trigger] lines[j]).0 <= elapsed_ms
            &&& k + 1 < lines.len() ==> lines[k + 1].0 > elapsed_ms
        }),
{
    let t = clamp_ms(elapsed_ms);
    lemma_first_later(lines, t);
    assert forall|j: int| 0 <= j < lines.len() implies ((#[trigger] lines[j]).0 <= t <==> lines[j].0
        <= elapsed_ms) by {}
}

/// Law: the mode of a search is artist mode when the trimmed query starts with `@`,
/// `artist:` or `作者:`, and the player's current mode otherwise, with the trimmed query
/// as the keyword; so in artist mode every search is an artist search, and the keyword
/// does not depend on the mode.
pub proof fn lemma_search_mode(mode: SearchMode, query: Seq<char>)
    ensures
        !starts_with(trim(query), "@"@) && !starts_with(trim(query), "artist:"@) && !starts_with(
            trim(query),
            "作者:"@,
        ) ==> normalized(mode, query) == (mode, trim(query)),
        starts_with(trim(query), "@"@) || starts_with(trim(query), "artist:"@) || starts_with(
            trim(query),
            "作者:"@,
        ) ==> normalized(mode, query).0 == SearchMode::Artist,
        normalized(SearchMode::Artist, query).0 == SearchMode::Artist,
        normalized(mode, query).1 == normalized(mode.toggled(), query).1,
{
}

} // verus!
