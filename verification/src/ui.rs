//! What the screen shows, as numbers and texts: the layout arithmetic of the panels,
//! the card grid, the lyrics window, and the texts of cards and panels.  Drawing them
//! is left to the terminal front end.
use vstd::prelude::*;

use crate::app::{App, Focus};
use crate::models::{duration_text, format_duration};
use crate::text::{owned, push_char, push_decimal, push_str, str_chars, decimal};

verus! {

/// Width of a card, in terminal columns.
pub const CARD_MIN_WIDTH: u16 = 34;

/// Height of a card, in terminal rows.
pub const CARD_HEIGHT: u16 = 9;

/// A rectangle of the terminal.
#[derive(Debug, Clone, Copy, PartialEq, Eq, Structural)]
pub struct Area {
    pub x: u16,
    pub y: u16,
    pub width: u16,
    pub height: u16,
}

pub open spec fn sat_sub(a: int, b: int) -> int {
    if a > b {
        a - b
    } else {
        0
    }
}

pub open spec fn clamp_int(v: int, lo: int, hi: int) -> int {
    if v < lo {
        lo
    } else if v > hi {
        hi
    } else {
        v
    }
}

/// Number of card columns for a terminal of `width` columns: the cards take 72% of what
/// the side bar leaves, one column per 34, between one and three.
pub open spec fn columns_for_width(width: u16) -> usize {
    let main = sat_sub(width as int, 24);
    let cards = (if main * 72 > u16::MAX {
        u16::MAX as int
    } else {
        main * 72
    }) / 100;
    clamp_int(sat_sub(cards, 4) / 34, 1, 3) as usize
}

/// Number of card columns for a terminal of `width` columns (see [`columns_for_width`]).
pub fn card_columns(width: u16) -> (r: usize)
    ensures
        r == columns_for_width(width),
        1 <= r <= 3,
{
    let main: u32 = if width > 24 {
        (width - 24) as u32
    } else {
        0
    };
    let scaled: u32 = if main * 72 > 0xffff {
        0xffff
    } else {
        main * 72
    };
    let cards = scaled / 100;
    let c = if cards > 4 {
        (cards - 4) / 34
    } else {
        0
    };
    let k: u32 = if c < 1 {
        1
    } else if c > 3 {
        3
    } else {
        c
    };
    k as usize
}

/// `area` shrunk by `x` columns and `y` rows on each side (none left when it is too small).
pub open spec fn shrunk(area: Area, x: u16, y: u16) -> Area {
    Area {
        x: (if area.x + x > u16::MAX {
            u16::MAX as int
        } else {
            area.x + x
        }) as u16,
        y: (if area.y + y > u16::MAX {
            u16::MAX as int
        } else {
            area.y + y
        }) as u16,
        width: sat_sub(area.width as int, 2 * x) as u16,
        height: sat_sub(area.height as int, 2 * y) as u16,
    }
}

/// `area` shrunk by `x` columns and `y` rows on each side.
pub fn shrink(area: Area, x: u16, y: u16) -> (r: Area)
    requires
        x <= 0x7fff,
        y <= 0x7fff,
    ensures
        r == shrunk(area, x, y),
{
    Area {
        x: area.x.saturating_add(x),
        y: area.y.saturating_add(y),
        width: area.width.saturating_sub(x * 2),
        height: area.height.saturating_sub(y * 2),
    }
}

/// A `width` by `height` rectangle centred in `area` (cut to `area`'s size).
pub open spec fn centered(width: u16, height: u16, area: Area) -> Area {
    Area {
        x: (area.x + sat_sub(area.width as int, width as int) / 2) as u16,
        y: (area.y + sat_sub(area.height as int, height as int) / 2) as u16,
        width: if width < area.width {
            width
        } else {
            area.width
        },
        height: if height < area.height {
            height
        } else {
            area.height
        },
    }
}

/// A `width` by `height` rectangle centred in `area`.
pub fn centered_rect(width: u16, height: u16, area: Area) -> (r: Area)
    requires
        area.x + sat_sub(area.width as int, width as int) / 2 <= u16::MAX,
        area.y + sat_sub(area.height as int, height as int) / 2 <= u16::MAX,
    ensures
        r == centered(width, height, area),
{
    Area {
        x: area.x + area.width.saturating_sub(width) / 2,
        y: area.y + area.height.saturating_sub(height) / 2,
        width: if width < area.width {
            width
        } else {
            area.width
        },
        height: if height < area.height {
            height
        } else {
            area.height
        },
    }
}

/// The card grid of an inner area: its columns (one to three), its rows (at least one)
/// and the first index shown, chosen so that the selected card is the last one visible
/// when it would not otherwise fit.
pub struct CardGrid {
    pub columns: u16,
    pub rows: u16,
    pub start: usize,
}

pub open spec fn grid_columns(inner: Area) -> int {
    clamp_int((inner.width / CARD_MIN_WIDTH) as int, 1, 3)
}

pub open spec fn grid_rows(inner: Area) -> int {
    if (inner.height / CARD_HEIGHT) as int > 1 {
        (inner.height / CARD_HEIGHT) as int
    } else {
        1
    }
}

/// The card grid of `inner` when `selected` is the selected index.
pub fn card_grid(inner: Area, selected: usize) -> (g: CardGrid)
    ensures
        g.columns == grid_columns(inner),
        g.rows == grid_rows(inner),
        g.start == sat_sub(selected as int, grid_columns(inner) * grid_rows(inner) - 1),
{
    let c = inner.width / CARD_MIN_WIDTH;
    let columns: u16 = if c < 1 {
        1
    } else if c > 3 {
        3
    } else {
        c
    };
    let r = inner.height / CARD_HEIGHT;
    let rows: u16 = if r > 1 {
        r
    } else {
        1
    };
    assert(1 <= columns as usize * rows as usize <= 3 * 65535) by (nonlinear_arith)
        requires
            1 <= columns <= 3,
            1 <= rows,
    ;
    let visible: usize = columns as usize * rows as usize;
    let start = selected.saturating_sub(visible - 1);
    CardGrid { columns, rows, start }
}

/// The area of the `row`-th row of cards in `inner`.
pub open spec fn card_row(inner: Area, row: u16) -> Area {
    Area {
        x: inner.x,
        y: (inner.y + row * CARD_HEIGHT) as u16,
        width: inner.width,
        height: (if CARD_HEIGHT < sat_sub(inner.height as int, row * CARD_HEIGHT) {
            CARD_HEIGHT as int
        } else {
            sat_sub(inner.height as int, row * CARD_HEIGHT)
        }) as u16,
    }
}

/// The card drawn in cell (`row`, `column`) of the grid: cards fill the grid row by row
/// from `grid.start`, up to the last of the `count` items.
pub open spec fn grid_card(grid: CardGrid, row: u16, column: u16, count: usize) -> Option<usize> {
    let i = grid.start + row * grid.columns + column;
    if i < count {
        Some(i as usize)
    } else {
        None
    }
}

/// The index of the card in a cell of the grid, if a card is drawn there.
pub fn card_at(grid: &CardGrid, row: u16, column: u16, count: usize) -> (r: Option<usize>)
    ensures
        r == grid_card(*grid, row, column, count),
{
    assert(row * grid.columns + column <= 0xffff_ffff) by (nonlinear_arith)
        requires
            row <= 0xffff,
            grid.columns <= 0xffff,
            column <= 0xffff,
    ;
    let offset: u64 = row as u64 * grid.columns as u64 + column as u64;
    if grid.start < count && offset < (count - grid.start) as u64 {
        Some(grid.start + offset as usize)
    } else {
        None
    }
}

/// The area of the `row`-th row of cards in `inner`.
pub fn card_row_area(inner: Area, row: u16) -> (r: Area)
    requires
        inner.y + row * CARD_HEIGHT <= u16::MAX,
    ensures
        r == card_row(inner, row),
{
    let offset = row * CARD_HEIGHT;
    let left = inner.height.saturating_sub(offset);
    Area {
        x: inner.x,
        y: inner.y + offset,
        width: inner.width,
        height: if CARD_HEIGHT < left {
            CARD_HEIGHT
        } else {
            left
        },
    }
}

/// The lyrics shown around the current line: from half a panel above it, a panel long,
/// within the lyrics.
pub open spec fn lyric_window_of(active: usize, height: u16, len: usize) -> (usize, usize) {
    let visible = if sat_sub(height as int, 2) > 1 {
        sat_sub(height as int, 2)
    } else {
        1
    };
    let start = sat_sub(active as int, visible / 2);
    let end = if start + visible < len {
        start + visible
    } else {
        len as int
    };
    (start as usize, end as usize)
}

/// The lines `start..end` of the lyrics shown in a panel of `height` rows.
pub fn lyric_window(active: usize, height: u16, len: usize) -> (r: (usize, usize))
    ensures
        r == lyric_window_of(active, height, len),
{
    let h = height.saturating_sub(2);
    let visible: usize = if h > 1 {
        h as usize
    } else {
        1
    };
    let start = active.saturating_sub(visible / 2);
    let end = if start < len && len - start > visible {
        start + visible
    } else {
        len
    };
    (start, end)
}

/// How a lyric line is shown relative to the current one.
#[derive(Debug, Clone, Copy, PartialEq, Eq, Structural)]
pub enum LyricRole {
    Past,
    Current,
    Coming,
}

/// How the line at `index` is shown when `active` is the current line.
pub fn lyric_role(index: usize, active: usize) -> (r: LyricRole)
    ensures
        r == (if index == active {
            LyricRole::Current
        } else if index < active {
            LyricRole::Past
        } else {
            LyricRole::Coming
        }),
{
    if index == active {
        LyricRole::Current
    } else if index < active {
        LyricRole::Past
    } else {
        LyricRole::Coming
    }
}

/// Number of empty lines above the wallpaper art (five lines of art).
pub fn wallpaper_padding(height: u16) -> (r: u16)
    ensures
        r == sat_sub(height as int, 7) / 2,
{
    height.saturating_sub(7) / 2
}

/// `value` cut to at most `max_chars` characters, the last one an ellipsis when cut.
pub open spec fn truncated(value: Seq<char>, max_chars: usize) -> Seq<char> {
    if max_chars == 0 {
        Seq::empty()
    } else if value.len() < max_chars {
        value
    } else {
        value.take(max_chars - 1).push('…')
    }
}

/// `value` cut to at most `max_chars` characters (see [`truncated`]).
pub fn truncate(value: &str, max_chars: usize) -> (r: String)
    ensures
        r@ == truncated(value@, max_chars),
{
    if max_chars == 0 {
        return String::new();
    }
    let v = str_chars(value);
    let mut out = String::new();
    let mut idx: usize = 0;
    while idx < v.len()
        invariant
            idx <= v.len(),
            idx < max_chars,
            v@ == value@,
            out@ == v@.take(idx as int),
        decreases v.len() - idx,
    {
        if idx + 1 >= max_chars {
            push_char(&mut out, '…');
            proof {
                assert(idx == max_chars - 1);
                assert(out@ =~= value@.take(max_chars - 1).push('…'));
            }
            return out;
        }
        push_char(&mut out, v[idx]);
        idx += 1;
        proof {
            assert(v@.take(idx as int) =~= v@.take(idx - 1).push(v@[idx - 1]));
        }
    }
    proof {
        assert(v@.take(v.len() as int) =~= v@);
    }
    out
}

/// The banner on a card of the given source.
pub open spec fn cover_text(source: Seq<char>) -> Seq<char> {
    if source == "netease"@ {
        "  Netease  "@
    } else if source == "qq"@ {
        "  QQ Music "@
    } else if source == "kugou"@ {
        "  Kugou   "@
    } else if source == "kuwo"@ {
        "  Kuwo    "@
    } else if source == "migu"@ {
        "  Migu    "@
    } else if source == "soda"@ {
        "  Soda    "@
    } else if source == "local"@ {
        "  Local   "@
    } else {
        "  Music   "@
    }
}

/// The banner on a card of the given source.
pub fn cover_art(source: &str) -> (r: &'static str)
    ensures
        r@ == cover_text(source@),
{
    if crate::text::str_eq(source, "netease") {
        "  Netease  "
    } else if crate::text::str_eq(source, "qq") {
        "  QQ Music "
    } else if crate::text::str_eq(source, "kugou") {
        "  Kugou   "
    } else if crate::text::str_eq(source, "kuwo") {
        "  Kuwo    "
    } else if crate::text::str_eq(source, "migu") {
        "  Migu    "
    } else if crate::text::str_eq(source, "soda") {
        "  Soda    "
    } else if crate::text::str_eq(source, "local") {
        "  Local   "
    } else {
        "  Music   "
    }
}

/// The selected index of the focused list (the first one without a selection).
pub open spec fn selected_index_of(app: App) -> usize {
    match app.focus {
        Focus::Library => match app.library_selected {
            Some(i) => i,
            None => 0,
        },
        Focus::Search => match app.search_selected {
            Some(i) => i,
            None => 0,
        },
    }
}

pub fn selected_index(app: &App) -> (r: usize)
    ensures
        r == selected_index_of(*app),
{
    match app.focus {
        Focus::Library => match app.library_selected {
            Some(i) => i,
            None => 0,
        },
        Focus::Search => match app.search_selected {
            Some(i) => i,
            None => 0,
        },
    }
}

/// Number of entries of the focused list.
pub open spec fn item_count_of(app: App) -> usize {
    match app.focus {
        Focus::Library => app.library@.len() as usize,
        Focus::Search => app.search_results@.len() as usize,
    }
}

pub fn item_count(app: &App) -> (r: usize)
    ensures
        r == item_count_of(*app),
{
    match app.focus {
        Focus::Library => app.library.len(),
        Focus::Search => app.search_results.len(),
    }
}

/// The texts of one card.
pub struct CardText {
    pub title: String,
    pub subtitle: String,
    pub album: String,
    pub source: String,
    pub duration: String,
    pub cover: &'static str,
}

/// Album line of a card: the album, or `Unknown Album`.
pub open spec fn album_line(album: Seq<char>) -> Seq<char> {
    if album.len() == 0 {
        "Unknown Album"@
    } else {
        album
    }
}

/// The texts of the card of entry `index` of the focused list, for a card `width` wide.
pub fn card_text(app: &App, index: usize, width: u16) -> (c: CardText)
    requires
        index < item_count_of(*app),
    ensures
        match app.focus {
            Focus::Library => {
                let t = app.library@[index as int];
                &&& c.title@ == truncated(t.title@, sat_sub(width as int, 4) as usize)
                &&& c.subtitle@ == truncated(t.artist@, sat_sub(width as int, 4) as usize)
                &&& c.album@ == album_line(truncated(t.album@, sat_sub(width as int, 4) as usize))
                &&& c.source@ == "local"@
                &&& c.duration@ == duration_text(t.duration)
                &&& c.cover@ == cover_text("local"@)
            },
            Focus::Search => {
                let s = app.search_results@[index as int];
                &&& c.title@ == truncated(s.name@, sat_sub(width as int, 4) as usize)
                &&& c.subtitle@ == truncated(s.artist@, sat_sub(width as int, 4) as usize)
                &&& c.album@ == album_line(truncated(s.album@, sat_sub(width as int, 4) as usize))
                &&& c.source@ == s.source@
                &&& c.duration@ == duration_text(s.duration)
                &&& c.cover@ == cover_text(s.source@)
            },
        },
{
    let w = width.saturating_sub(4) as usize;
    let (title, subtitle, album, source, duration) = match app.focus {
        Focus::Library => {
            let track = &app.library[index];
            (
                truncate(track.title.as_str(), w),
                truncate(track.artist.as_str(), w),
                truncate(track.album.as_str(), w),
                owned("local"),
                format_duration(track.duration),
            )
        },
        Focus::Search => {
            let song = &app.search_results[index];
            (
                truncate(song.name.as_str(), w),
                truncate(song.artist.as_str(), w),
                truncate(song.album.as_str(), w),
                song.source.clone(),
                format_duration(song.duration),
            )
        },
    };
    let cover = cover_art(source.as_str());
    let album = if album.as_str().is_empty() {
        owned("Unknown Album")
    } else {
        album
    };
    CardText { title, subtitle, album, source, duration, cover }
}

/// Title of the card panel.
pub open spec fn cards_title_text(focus: Focus, count: nat) -> Seq<char> {
    match focus {
        Focus::Library => " ACTIVE 本地曲库 · "@ + decimal(count) + " 首 "@,
        Focus::Search => " ACTIVE 搜索结果 · "@ + decimal(count) + " 条 "@,
    }
}

pub fn cards_title(app: &App) -> (r: String)
    ensures
        r@ == cards_title_text(app.focus, item_count_of(*app) as nat),
{
    match app.focus {
        Focus::Library => {
            let mut s = owned(" ACTIVE 本地曲库 · ");
            push_decimal(&mut s, app.library.len() as u64);
            push_str(&mut s, " 首 ");
            s
        },
        Focus::Search => {
            let mut s = owned(" ACTIVE 搜索结果 · ");
            push_decimal(&mut s, app.search_results.len() as u64);
            push_str(&mut s, " 条 ");
            s
        },
    }
}

/// Title of the top bar.
pub fn topbar_title(focus: Focus) -> (r: &'static str)
    ensures
        r@ == (if focus == Focus::Library {
            "本地曲库"@
        } else {
            "在线搜索"@
        }),
{
    match focus {
        Focus::Library => "本地曲库",
        Focus::Search => "在线搜索",
    }
}

/// The query line of the top bar: the query, or a hint when it is empty.
pub fn query_line(query: &str) -> (r: String)
    ensures
        r@ == (if query@.len() == 0 {
            "输入关键词，Enter 搜索"@
        } else {
            query@
        }),
{
    let v = str_chars(query);
    if v.len() == 0 {
        owned("输入关键词，Enter 搜索")
    } else {
        owned(query)
    }
}

/// Is the side bar entry `idx` the focused one (entry 1 is the library, 2 the search)?
pub fn sidebar_selected(idx: usize, focus: Focus) -> (r: bool)
    ensures
        r == ((idx == 1 && focus == Focus::Library) || (idx == 2 && focus == Focus::Search)),
{
    if idx == 1 {
        focus == Focus::Library
    } else if idx == 2 {
        focus == Focus::Search
    } else {
        false
    }
}

/// The counts line of the status panel.
pub fn counts_line(app: &App) -> (r: String)
    ensures
        r@ == "曲库: "@ + decimal(app.library@.len()) + "  搜索: "@ + decimal(
            app.search_results@.len(),
        ),
{
    let mut s = owned("曲库: ");
    push_decimal(&mut s, app.library.len() as u64);
    push_str(&mut s, "  搜索: ");
    push_decimal(&mut s, app.search_results.len() as u64);
    s
}

/// Title of the lyrics panel.
pub fn lyrics_title(app: &App) -> (r: String)
    ensures
        r@ == " 歌词 | "@ + truncated(app.lyric_source@, 24) + " "@,
{
    let mut s = owned(" 歌词 | ");
    let t = truncate(app.lyric_source.as_str(), 24);
    push_str(&mut s, t.as_str());
    push_str(&mut s, " ");
    s
}

/// The status line of the footer, cut to a footer `width` wide.
pub fn footer_status(app: &App, width: u16) -> (r: String)
    ensures
        r@ == truncated(app.status@, sat_sub(width as int, 2) as usize),
{
    truncate(app.status.as_str(), width.saturating_sub(2) as usize)
}

/// Law: a cut text fits: at most `max_chars` characters, and unchanged when shorter.
pub proof fn lemma_truncated_fits(value: Seq<char>, max_chars: usize)
    ensures
        truncated(value, max_chars).len() <= max_chars,
        value.len() < max_chars ==> truncated(value, max_chars) == value,
{
}

} // verus!
