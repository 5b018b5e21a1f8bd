use music_tui::lyrics::{
    extract_embedded_lyrics, load_embedded_lyrics, load_external_lyrics, load_lyrics,
    lyrics_complete, parse_lyrics, parse_plain_lyrics, parse_timestamp, strip_inline_timestamps,
};
use music_tui::models::LyricLine;
use music_tui::probe::{ProbeOutput, ProbeTag};

fn pairs(lines: &[LyricLine]) -> Vec<(u32, String)> {
    lines.iter().map(|l| (l.timestamp_ms, l.text.clone())).collect()
}

fn chars(s: &str) -> Vec<char> {
    s.chars().collect()
}

fn tag(key: &str, value: Option<&str>) -> ProbeTag {
    ProbeTag { key: key.to_string(), value: value.map(|v| v.to_string()) }
}

#[test]
fn timestamps_of_common_forms() {
    assert_eq!(parse_timestamp(&chars("00:01.00")), Some(1000));
    assert_eq!(parse_timestamp(&chars("01:02")), Some(62_000));
    assert_eq!(parse_timestamp(&chars("1:02.5")), Some(62_500));
    assert_eq!(parse_timestamp(&chars("00:00.05")), Some(50));
    assert_eq!(parse_timestamp(&chars("00:00.123456")), Some(123));
    assert_eq!(parse_timestamp(&chars("01:02:03.4")), Some(3_723_400));
    assert_eq!(parse_timestamp(&chars("+1:02")), Some(62_000));
    assert_eq!(parse_timestamp(&chars("00:01.x")), Some(1000));
}

#[test]
fn tags_that_are_not_times() {
    assert_eq!(parse_timestamp(&chars("ar:Someone")), None);
    assert_eq!(parse_timestamp(&chars("12")), None);
    assert_eq!(parse_timestamp(&chars("1:2:3:4")), None);
    assert_eq!(parse_timestamp(&chars(":30")), None);
    assert_eq!(parse_timestamp(&chars("00: 01")), None);
    assert_eq!(parse_timestamp(&chars("-1:00")), None);
    assert_eq!(parse_timestamp(&chars("00:99999999999")), None);
}

#[test]
fn large_times_wrap_to_32_bits() {
    // 4294967295 hours: the product is taken modulo 2^32.
    let expected = ((4_294_967_295u64 * 3_600_000) % (1u64 << 32)) as u32;
    assert_eq!(parse_timestamp(&chars("4294967295:00:00")), Some(expected));
}

#[test]
fn lrc_lines_are_sorted_by_time_then_text() {
    let content = "[00:01.00]a\n[00:00.50][00:03]b\n[00:01]Z\n";
    let lines = parse_lyrics(content);
    assert_eq!(
        pairs(&lines),
        vec![
            (500, "b".to_string()),
            (1000, "Z".to_string()),
            (1000, "a".to_string()),
            (3000, "b".to_string()),
        ]
    );
}

#[test]
fn metadata_tags_and_empty_texts_are_skipped() {
    let content = "\u{feff}[ar:Someone]\n[ti:Title]\n[00:02]  \n  [00:04] hello  \r\n";
    assert_eq!(pairs(&parse_lyrics(content)), vec![(4000, "hello".to_string())]);
}

#[test]
fn byte_order_marks_are_removed() {
    assert_eq!(pairs(&parse_lyrics("\u{feff}\u{feff}[00:01]x")), vec![(1000, "x".to_string())]);
}

#[test]
fn inline_word_times_are_removed() {
    assert_eq!(strip_inline_timestamps(&chars("he[00:01.50]llo [x] [y")), chars("hello [x] [y"));
    assert_eq!(pairs(&parse_lyrics("[00:01]he[00:02]llo")), vec![(1000, "hello".to_string())]);
}

#[test]
fn untimed_text_becomes_plain_lines() {
    let lines = parse_lyrics("first\n\n  second  \nthird");
    assert_eq!(
        pairs(&lines),
        vec![(0, "first".to_string()), (5000, "second".to_string()), (10_000, "third".to_string())]
    );
    assert_eq!(pairs(&parse_plain_lyrics("[00:01]a\nb")), vec![
        (0, "[00:01]a".to_string()),
        (5000, "b".to_string()),
    ]);
    assert!(parse_lyrics("").is_empty());
    assert!(parse_lyrics(" \n \t ").is_empty());
}

#[test]
fn lyrics_in_time_order_scenario() {
    let content = "[00:30]c\n[00:10]a\n[00:20]b\n";
    let lines = parse_lyrics(content);
    for w in lines.windows(2) {
        assert!(w[0].timestamp_ms <= w[1].timestamp_ms);
    }
    assert_eq!(lines.len(), 3);
}

#[test]
fn embedded_lyrics_prefer_format_tags_then_streams() {
    let probe = ProbeOutput {
        format_tags: Some(vec![tag("title", Some("t")), tag("LYRIC", Some("[00:01]x"))]),
        stream_tags: vec![Some(vec![tag("lyrics", Some("[00:02]y"))])],
        duration_text: Some("10.5".to_string()),
    };
    assert_eq!(extract_embedded_lyrics(&probe), Some("[00:01]x".to_string()));

    let probe = ProbeOutput {
        format_tags: Some(vec![tag("lyrics", None)]),
        stream_tags: vec![None, Some(vec![tag("description", Some("text"))])],
        duration_text: None,
    };
    assert_eq!(extract_embedded_lyrics(&probe), Some("text".to_string()));

    let probe = ProbeOutput { format_tags: None, stream_tags: vec![], duration_text: None };
    assert_eq!(extract_embedded_lyrics(&probe), None);
    assert!(load_embedded_lyrics(&probe).is_empty());
}

#[test]
fn complete_external_lyrics_are_kept() {
    let external = load_external_lyrics(Some("[00:01]a\n[00:02]b\n[00:03]c"));
    assert!(lyrics_complete(&external));
    let probe = ProbeOutput {
        format_tags: Some(vec![tag("lyrics", Some("[00:01]1\n[00:02]2\n[00:03]3\n[00:04]4"))]),
        stream_tags: vec![],
        duration_text: None,
    };
    let chosen = load_lyrics(external, Some(&probe));
    assert_eq!(chosen.len(), 3);
    assert_eq!(chosen[0].text, "a");
}

#[test]
fn longer_embedded_lyrics_win_over_short_external_ones() {
    let external = load_external_lyrics(Some("[00:01]a"));
    assert!(!lyrics_complete(&external));
    let probe = ProbeOutput {
        format_tags: Some(vec![tag("lyrics", Some("[00:01]1\n[00:02]2"))]),
        stream_tags: vec![],
        duration_text: None,
    };
    let chosen = load_lyrics(external, Some(&probe));
    assert_eq!(pairs(&chosen), vec![(1000, "1".to_string()), (2000, "2".to_string())]);

    let external = load_external_lyrics(Some("[00:01]a\n[00:02]b"));
    let probe = ProbeOutput {
        format_tags: Some(vec![tag("lyrics", Some("[00:01]1\n[00:02]2"))]),
        stream_tags: vec![],
        duration_text: None,
    };
    let chosen = load_lyrics(external, Some(&probe));
    assert_eq!(chosen[0].text, "a");

    let none = load_lyrics(load_external_lyrics(None), None);
    assert!(none.is_empty());
}
