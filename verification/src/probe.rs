//! What the library reads of an `ffprobe -print_format json` report: the tags of
//! the container, the tags of each stream and the text of the duration.
use vstd::prelude::*;

use crate::json::{get_member, json_members_view, json_view, lemma_items_view, lemma_members_view, member, parse_json, parsed_json, JsonValue, JsonView};
use crate::text::{ascii_upper, ascii_upper_chars, str_chars, str_eq, string_from, trim, trim_chars};

verus! {

/// One entry of a tag object: its key and, when the value is a JSON string, that string.
#[derive(Debug, Clone)]
pub struct ProbeTag {
    pub key: String,
    pub value: Option<String>,
}

/// The parts of an `ffprobe` report that the library reads.
///
/// A tag list is `None` when the report holds no JSON object at that place.
/// The keys of one tag list are distinct, as in a JSON object.
#[derive(Debug, Clone)]
pub struct ProbeOutput {
    pub format_tags: Option<Vec<ProbeTag>>,
    pub stream_tags: Vec<Option<Vec<ProbeTag>>>,
    pub duration_text: Option<String>,
}

/// The view of a tag entry: its key and its string value, if any.
pub type TagView = (Seq<char>, Option<Seq<char>>);

impl View for ProbeTag {
    type V = TagView;

    open spec fn view(&self) -> TagView {
        (
            self.key@,
            match self.value {
                Some(v) => Some(v@),
                None => None,
            },
        )
    }
}

pub open spec fn tags_view(v: Seq<ProbeTag>) -> Seq<TagView> {
    v.map_values(|t: ProbeTag| t@)
}

pub open spec fn opt_tags_view(v: Option<Vec<ProbeTag>>) -> Option<Seq<TagView>> {
    match v {
        Some(t) => Some(tags_view(t@)),
        None => None,
    }
}

pub open spec fn streams_view(v: Seq<Option<Vec<ProbeTag>>>) -> Seq<Option<Seq<TagView>>> {
    v.map_values(|t: Option<Vec<ProbeTag>>| opt_tags_view(t))
}

pub open spec fn opt_text(v: Option<String>) -> Option<Seq<char>> {
    match v {
        Some(s) => Some(s@),
        None => None,
    }
}

/// The view of a report: container tags, the tags of each stream, the duration text.
pub type ProbeView = (Option<Seq<TagView>>, Seq<Option<Seq<TagView>>>, Option<Seq<char>>);

impl View for ProbeOutput {
    type V = ProbeView;

    open spec fn view(&self) -> ProbeView {
        (opt_tags_view(self.format_tags), streams_view(self.stream_tags@), opt_text(self.duration_text))
    }
}

// ---------------------------------------------------------------------------
// From the JSON report
// ---------------------------------------------------------------------------

/// The string held by a JSON value, if it is one.
pub open spec fn str_of(v: JsonView) -> Option<Seq<char>> {
    match v {
        JsonView::Str(s) => Some(s),
        _ => None,
    }
}

/// The member `key` of a value that may be absent.
pub open spec fn member_of(v: Option<JsonView>, key: Seq<char>) -> Option<JsonView> {
    match v {
        Some(x) => member(x, key),
        None => None,
    }
}

/// A tag object read as a tag list: each member's key with its value where that is a
/// string; `None` where there is no object.
pub open spec fn json_tags(v: Option<JsonView>) -> Option<Seq<TagView>> {
    match v {
        Some(JsonView::Object(members)) => Some(
            members.map_values(|m: (Seq<char>, JsonView)| (m.0, str_of(m.1))),
        ),
        _ => None,
    }
}

/// The tags of each entry of the report's `streams` array (none where it is no array).
pub open spec fn json_stream_tags(report: JsonView) -> Seq<Option<Seq<TagView>>> {
    match member(report, "streams"@) {
        Some(JsonView::Array(items)) => items.map_values(
            |s: JsonView| json_tags(member(s, "tags"@)),
        ),
        _ => Seq::empty(),
    }
}

/// What the library reads of a report: `format.tags`, `streams[*].tags` and
/// `format.duration` when it is a string.
pub open spec fn probe_spec(report: JsonView) -> ProbeView {
    let format = member(report, "format"@);
    (
        json_tags(member_of(format, "tags"@)),
        json_stream_tags(report),
        match member_of(format, "duration"@) {
            Some(d) => str_of(d),
            None => None,
        },
    )
}

pub open spec fn opt_json(v: Option<&JsonValue>) -> Option<JsonView> {
    match v {
        Some(x) => Some(x@),
        None => None,
    }
}

/// Reads a tag object.
fn tags_from(v: Option<&JsonValue>) -> (r: Option<Vec<ProbeTag>>)
    ensures
        opt_tags_view(r) == json_tags(opt_json(v)),
{
    match v {
        Some(JsonValue::Object(members)) => {
            let ghost mv = json_members_view(members@);
            proof {
                lemma_members_view(members@);
            }
            let mut out: Vec<ProbeTag> = Vec::new();
            let mut i: usize = 0;
            while i < members.len()
                invariant
                    i <= members.len(),
                    mv == json_members_view(members@),
                    mv.len() == members.len(),
                    forall|k: int| 0 <= k < members.len() ==> #[trigger] mv[k] == (
                        members@[k].0@,
                        json_view(members@[k].1),
                    ),
                    out@.len() == i,
                    forall|k: int| 0 <= k < i ==> #[trigger] out@[k]@ == (mv[k].0, str_of(mv[k].1)),
                decreases members.len() - i,
            {
                let value = match &members[i].1 {
                    JsonValue::Str(s) => Some(s.clone()),
                    _ => None,
                };
                out.push(ProbeTag { key: members[i].0.clone(), value });
                i += 1;
            }
            proof {
                assert(tags_view(out@) =~= mv.map_values(
                    |m: (Seq<char>, JsonView)| (m.0, str_of(m.1)),
                ));
            }
            Some(out)
        },
        _ => None,
    }
}

/// Reads the tags of each stream of a report.
fn stream_tags_from(report: &JsonValue) -> (r: Vec<Option<Vec<ProbeTag>>>)
    ensures
        streams_view(r@) == json_stream_tags(report@),
{
    let mut out: Vec<Option<Vec<ProbeTag>>> = Vec::new();
    match get_member(report, "streams") {
        Some(JsonValue::Array(items)) => {
            let ghost iv = crate::json::json_items_view(items@);
            proof {
                lemma_items_view(items@);
            }
            let mut i: usize = 0;
            while i < items.len()
                invariant
                    i <= items.len(),
                    iv.len() == items.len(),
                    forall|k: int| 0 <= k < items.len() ==> #[trigger] iv[k] == json_view(items@[k]),
                    out@.len() == i,
                    forall|k: int| 0 <= k < i ==> #[trigger] opt_tags_view(out@[k]) == json_tags(
                        member(iv[k], "tags"@),
                    ),
                decreases items.len() - i,
            {
                let tags = tags_from(get_member(&items[i], "tags"));
                out.push(tags);
                i += 1;
            }
            proof {
                assert(streams_view(out@) =~= iv.map_values(
                    |s: JsonView| json_tags(member(s, "tags"@)),
                ));
            }
            out
        },
        _ => out,
    }
}

/// Reads what the library needs of a parsed `ffprobe` report.
pub fn probe_output_of(report: &JsonValue) -> (r: ProbeOutput)
    ensures
        r@ == probe_spec(report@),
{
    let format = get_member(report, "format");
    let (format_tags, duration_text) = match format {
        Some(f) => {
            let tags = tags_from(get_member(f, "tags"));
            let duration = match get_member(f, "duration") {
                Some(JsonValue::Str(s)) => Some(s.clone()),
                _ => None,
            };
            (tags, duration)
        },
        None => (None, None),
    };
    let stream_tags = stream_tags_from(report);
    ProbeOutput { format_tags, stream_tags, duration_text }
}

/// Parses the standard output of `ffprobe -print_format json` and reads the report;
/// `None` where the output is no JSON.
pub fn probe_from_stdout(stdout: &[u8]) -> (r: Option<ProbeOutput>)
    ensures
        match parsed_json(stdout@) {
            Some(report) => r matches Some(p) && p@ == probe_spec(report),
            None => r is None,
        },
{
    match parse_json(stdout) {
        Some(report) => Some(probe_output_of(&report)),
        None => None,
    }
}

/// The value stored under `key` (the first entry with that key), if the key is present.
pub open spec fn tag_lookup(tags: Seq<TagView>, key: Seq<char>) -> Option<Option<Seq<char>>>
    decreases tags.len(),
{
    if tags.len() == 0 {
        None
    } else if tags[0].0 == key {
        Some(tags[0].1)
    } else {
        tag_lookup(tags.drop_first(), key)
    }
}

/// The trimmed, non-empty string stored under `key`, or else under its upper-case form
/// when `key` itself is absent.
pub open spec fn tag_text(tags: Option<Seq<TagView>>, key: Seq<char>) -> Option<Seq<char>> {
    match tags {
        None => None,
        Some(t) => {
            let found = match tag_lookup(t, key) {
                Some(v) => Some(v),
                None => tag_lookup(t, ascii_upper(key)),
            };
            match found {
                Some(Some(s)) => if trim(s).len() > 0 {
                    Some(trim(s))
                } else {
                    None
                },
                _ => None,
            }
        },
    }
}

/// Looks `key` up in a tag list.
pub fn lookup_tag<'a>(tags: &'a Vec<ProbeTag>, key: &str) -> (r: Option<&'a Option<String>>)
    ensures
        match tag_lookup(tags_view(tags@), key@) {
            None => r.is_none(),
            Some(v) => r.is_some() && match (r.unwrap(), v) {
                (Some(a), Some(b)) => a@ == b,
                (None, None) => true,
                _ => false,
            },
        },
{
    let mut i: usize = 0;
    proof {
        assert(tags_view(tags@).skip(0) =~= tags_view(tags@));
    }
    while i < tags.len()
        invariant
            i <= tags.len(),
            tag_lookup(tags_view(tags@), key@) == tag_lookup(tags_view(tags@).skip(i as int), key@),
        decreases tags.len() - i,
    {
        let ghost rest = tags_view(tags@).skip(i as int);
        proof {
            assert(rest[0] == tags@[i as int]@);
            assert(rest.drop_first() =~= tags_view(tags@).skip(i + 1));
        }
        if str_eq(tags[i].key.as_str(), key) {
            return Some(&tags[i].value);
        }
        i += 1;
    }
    None
}

/// The trimmed, non-empty text of a tag (see [`tag_text`]).
pub fn tag(tags: &Option<Vec<ProbeTag>>, key: &str) -> (r: Option<String>)
    ensures
        match r {
            Some(s) => tag_text(opt_tags_view(*tags), key@) == Some(s@),
            None => tag_text(opt_tags_view(*tags), key@) is None,
        },
{
    match tags {
        None => None,
        Some(t) => {
            let found = match lookup_tag(t, key) {
                Some(v) => Some(v),
                None => {
                    let upper = string_from(&ascii_upper_chars(&str_chars(key)));
                    lookup_tag(t, upper.as_str())
                },
            };
            match found {
                Some(Some(s)) => {
                    let trimmed = trim_chars(&str_chars(s.as_str()));
                    if trimmed.len() > 0 {
                        Some(string_from(&trimmed))
                    } else {
                        None
                    }
                },
                _ => None,
            }
        },
    }
}

} // verus!
