use music_tui::probe::{probe_from_stdout, ProbeTag};

fn tag(key: &str, value: Option<&str>) -> (String, Option<String>) {
    (key.to_string(), value.map(|v| v.to_string()))
}

fn pairs(tags: &[ProbeTag]) -> Vec<(String, Option<String>)> {
    tags.iter().map(|t| (t.key.clone(), t.value.clone())).collect()
}

#[test]
fn an_ffprobe_report_is_read() {
    let report = br#"{
        "streams": [
            {"index": 0, "codec_type": "audio", "tags": {"lyrics": "[00:01]a", "language": "eng"}},
            {"index": 1, "codec_type": "video"}
        ],
        "format": {
            "filename": "x.mp3",
            "duration": "201.500000",
            "tags": {"title": "Hello", "artist": "A", "track": 3}
        }
    }"#;
    let p = probe_from_stdout(report).expect("a report");
    // The members come in the order in which serde_json's map keeps them: by key.
    assert_eq!(
        pairs(p.format_tags.as_ref().unwrap()),
        vec![tag("artist", Some("A")), tag("title", Some("Hello")), tag("track", None)]
    );
    assert_eq!(p.stream_tags.len(), 2);
    assert_eq!(
        pairs(p.stream_tags[0].as_ref().unwrap()),
        vec![tag("language", Some("eng")), tag("lyrics", Some("[00:01]a"))]
    );
    assert!(p.stream_tags[1].is_none());
    assert_eq!(p.duration_text.as_deref(), Some("201.500000"));
}

#[test]
fn what_is_missing_or_of_another_kind_is_left_out() {
    let p = probe_from_stdout(br#"{"streams": 5, "format": {"duration": 12.5, "tags": []}}"#).unwrap();
    assert!(p.format_tags.is_none());
    assert!(p.stream_tags.is_empty());
    assert!(p.duration_text.is_none());

    let p = probe_from_stdout(b"[]").unwrap();
    assert!(p.format_tags.is_none() && p.stream_tags.is_empty() && p.duration_text.is_none());
}

#[test]
fn output_that_is_no_json_gives_nothing() {
    assert!(probe_from_stdout(b"").is_none());
    assert!(probe_from_stdout(b"{\"format\":").is_none());
    assert!(probe_from_stdout(b"ffprobe: not found").is_none());
}
