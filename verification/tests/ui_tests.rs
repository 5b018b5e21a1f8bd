use music_tui::ui::{
    card_at, card_columns, card_grid, card_row_area, centered_rect, cover_art, lyric_role, lyric_window,
    shrink, truncate, wallpaper_padding, Area, LyricRole,
};

#[test]
fn text_is_cut_with_an_ellipsis() {
    assert_eq!(truncate("hello", 0), "");
    assert_eq!(truncate("hello", 6), "hello");
    assert_eq!(truncate("hello", 5), "hell…");
    assert_eq!(truncate("hello", 1), "…");
    assert_eq!(truncate("周杰伦歌曲", 3), "周杰…");
    assert_eq!(truncate("", 3), "");
}

#[test]
fn card_columns_follow_the_terminal_width() {
    assert_eq!(card_columns(0), 1);
    assert_eq!(card_columns(80), 1);
    assert_eq!(card_columns(120), 1);
    assert_eq!(card_columns(130), 2);
    assert_eq!(card_columns(200), 3);
    assert_eq!(card_columns(u16::MAX), 3);
}

#[test]
fn areas() {
    let a = Area { x: 2, y: 3, width: 10, height: 1 };
    assert_eq!(shrink(a, 1, 1), Area { x: 3, y: 4, width: 8, height: 0 });
    let full = Area { x: 0, y: 0, width: 100, height: 40 };
    assert_eq!(centered_rect(42, 5, full), Area { x: 29, y: 17, width: 42, height: 5 });
    assert_eq!(centered_rect(42, 5, Area { x: 0, y: 0, width: 10, height: 2 }), Area { x: 0, y: 0, width: 10, height: 2 });
    let g = card_grid(Area { x: 0, y: 0, width: 70, height: 20 }, 7);
    assert_eq!((g.columns, g.rows, g.start), (2, 2, 4));
    let g = card_grid(Area { x: 0, y: 0, width: 10, height: 3 }, 0);
    assert_eq!((g.columns, g.rows, g.start), (1, 1, 0));
    assert_eq!(card_row_area(Area { x: 1, y: 1, width: 70, height: 20 }, 2), Area { x: 1, y: 19, width: 70, height: 2 });
    assert_eq!(wallpaper_padding(40), 16);
    assert_eq!(wallpaper_padding(3), 0);
}

#[test]
fn lyric_panels() {
    assert_eq!(lyric_window(10, 12, 100), (5, 15));
    assert_eq!(lyric_window(1, 12, 100), (0, 10));
    assert_eq!(lyric_window(98, 12, 100), (93, 100));
    assert_eq!(lyric_window(0, 0, 5), (0, 1));
    assert_eq!(lyric_role(3, 3), LyricRole::Current);
    assert_eq!(lyric_role(2, 3), LyricRole::Past);
    assert_eq!(lyric_role(4, 3), LyricRole::Coming);
    assert_eq!(cover_art("qq"), "  QQ Music ");
    assert_eq!(cover_art("local"), "  Local   ");
    assert_eq!(cover_art("other"), "  Music   ");
}

#[test]
fn cards_fill_the_grid_row_by_row() {
    let g = card_grid(Area { x: 0, y: 0, width: 70, height: 20 }, 7);
    // Two columns, two rows, starting at item 4; items 4..=8 of 9.
    assert_eq!(card_at(&g, 0, 0, 9), Some(4));
    assert_eq!(card_at(&g, 0, 1, 9), Some(5));
    assert_eq!(card_at(&g, 1, 0, 9), Some(6));
    assert_eq!(card_at(&g, 1, 1, 9), Some(7));
    assert_eq!(card_at(&g, 1, 1, 7), None);
    assert_eq!(card_at(&g, 0, 0, 3), None);
}
