//! Lyrics: LRC parsing (`[mm:ss.xx]text`, several tags per line, inline word
//! timestamps), plain-text fallback, and the choice between a lyrics file beside the
//! audio file and the lyrics embedded in its tags.
use vstd::prelude::*;

use crate::sorting::{
    insert_by, lemma_insert_by_at, lemma_sort_by_permutation, lemma_sort_by_sorted, sort_by,
    total_preorder,
};
use crate::models::{lines_view, LyricLine};
use crate::probe::{lookup_tag, opt_tags_view, streams_view, tag_lookup, tags_view, ProbeOutput, ProbeTag, TagView};
use crate::text::{
    chars_less, chars_lt, digits_value, lemma_chars_lt_asym, lemma_chars_lt_total,
    lemma_chars_lt_trans, find_char, find_char_from, is_digit, lemma_find_char,
    parse_u32,
    parse_u32_chars, slice_chars, split_lines, split_lines_chars, str_chars, string_from, trim,
    trim_chars,
};

verus! {

/// Lyrics with at least this many lines count as complete.
pub const MIN_COMPLETE_LYRIC_LINES: usize = 3;

/// Time stamp of a plain-text line, five seconds apart.
pub const PLAIN_LINE_STEP_MS: u64 = 5000;

// ---------------------------------------------------------------------------
// Time tags
// ---------------------------------------------------------------------------

/// The leading ASCII digits of `f`.
pub open spec fn leading_digits(f: Seq<char>) -> Seq<char>
    decreases f.len(),
{
    if f.len() > 0 && is_digit(f[0]) {
        seq![f[0]] + leading_digits(f.drop_first())
    } else {
        Seq::<char>::empty()
    }
}

/// Milliseconds of a fraction of a second: its first (at most three) leading digits,
/// scaled as tenths, hundredths or thousandths.
pub open spec fn fraction_ms(f: Seq<char>) -> u32 {
    let d = leading_digits(f);
    let d3 = if d.len() > 3 {
        d.take(3)
    } else {
        d
    };
    if d3.len() == 0 {
        0
    } else if d3.len() == 1 {
        (digits_value(d3) * 100) as u32
    } else if d3.len() == 2 {
        (digits_value(d3) * 10) as u32
    } else {
        digits_value(d3) as u32
    }
}

/// Hours, minutes, seconds and milliseconds in milliseconds, wrapped to 32 bits.
pub open spec fn total_ms(h: u32, m: u32, s: u32, ms: u32) -> u32 {
    (((h * 60 + m) * 60 + s) * 1000 + ms) as u32
}

/// The value of a seconds field `ss` or `ss.fff` after the given hours and minutes.
pub open spec fn clock_value(h: u32, m: u32, sec: Seq<char>) -> Option<u32> {
    let k = find_char(sec, '.');
    if k >= sec.len() {
        match parse_u32(sec) {
            Some(s) => Some(total_ms(h, m, s, 0)),
            None => None,
        }
    } else {
        match parse_u32(sec.take(k)) {
            Some(s) => Some(total_ms(h, m, s, fraction_ms(sec.skip(k + 1)))),
            None => None,
        }
    }
}

/// The time of a tag `mm:ss[.f]` or `hh:mm:ss[.f]`, or `None` when the tag is not a time.
pub open spec fn timestamp_value(tag: Seq<char>) -> Option<u32> {
    let i = find_char(tag, ':');
    if i >= tag.len() {
        None
    } else {
        let first = tag.take(i);
        let rest = tag.skip(i + 1);
        let j = find_char(rest, ':');
        if j >= rest.len() {
            match parse_u32(first) {
                Some(m) => clock_value(0, m, rest),
                None => None,
            }
        } else {
            let second = rest.take(j);
            let third = rest.skip(j + 1);
            if find_char(third, ':') < third.len() {
                None
            } else {
                match (parse_u32(first), parse_u32(second)) {
                    (Some(h), Some(m)) => clock_value(h, m, third),
                    _ => None,
                }
            }
        }
    }
}

/// The time tags at the start of a line, and what follows them.
pub open spec fn leading_stamps(rest: Seq<char>) -> (Seq<u32>, Seq<char>)
    decreases rest.len(),
{
    if rest.len() > 0 && rest[0] == '[' {
        let tagged = rest.drop_first();
        let end = find_char(tagged, ']');
        proof {
            lemma_find_char(tagged, ']');
        }
        if end >= tagged.len() {
            (Seq::<u32>::empty(), rest)
        } else {
            match timestamp_value(tagged.take(end)) {
                None => (Seq::<u32>::empty(), rest),
                Some(t) => {
                    let inner = leading_stamps(tagged.skip(end + 1));
                    (seq![t] + inner.0, inner.1)
                },
            }
        }
    } else {
        (Seq::<u32>::empty(), rest)
    }
}

/// `s` without the time tags that stand inside it; other bracketed text stays.
pub open spec fn strip_inline(s: Seq<char>) -> Seq<char>
    decreases s.len(),
{
    let start = find_char(s, '[');
    proof {
        lemma_find_char(s, '[');
    }
    if start >= s.len() {
        s
    } else {
        let tagged = s.skip(start + 1);
        let end = find_char(tagged, ']');
        proof {
            lemma_find_char(tagged, ']');
        }
        if end >= tagged.len() {
            s
        } else if timestamp_value(tagged.take(end)) is Some {
            s.take(start) + strip_inline(tagged.skip(end + 1))
        } else {
            s.take(start) + seq!['['] + strip_inline(tagged)
        }
    }
}

/// `s` without leading byte-order marks.
pub open spec fn strip_bom(s: Seq<char>) -> Seq<char>
    decreases s.len(),
{
    if s.len() > 0 && s[0] == '\u{feff}' {
        strip_bom(s.drop_first())
    } else {
        s
    }
}

/// The timed lines that one raw line contributes: one per leading time tag, all with
/// the line's text, or none when the line has no leading tag or no text.
pub open spec fn line_entries(raw: Seq<char>) -> Seq<(u32, Seq<char>)> {
    let line = strip_bom(trim(raw));
    if line.len() == 0 {
        Seq::empty()
    } else {
        let stamps = leading_stamps(line);
        let text = trim(strip_inline(stamps.1));
        if text.len() == 0 || stamps.0.len() == 0 {
            Seq::empty()
        } else {
            Seq::new(stamps.0.len(), |i: int| (stamps.0[i], text))
        }
    }
}

/// The timed lines of all raw lines, in order.
pub open spec fn timed_entries(lines: Seq<Seq<char>>) -> Seq<(u32, Seq<char>)>
    decreases lines.len(),
{
    if lines.len() == 0 {
        Seq::empty()
    } else {
        timed_entries(lines.drop_last()) + line_entries(lines.last())
    }
}

// ---------------------------------------------------------------------------
// Ordering
// ---------------------------------------------------------------------------

/// Order of lyric lines: by time, then by text.
pub open spec fn entry_le(a: (u32, Seq<char>), b: (u32, Seq<char>)) -> bool {
    a.0 < b.0 || (a.0 == b.0 && !chars_lt(b.1, a.1))
}

/// [`entry_le`] as a function value.
pub open spec fn entry_order() -> spec_fn((u32, Seq<char>), (u32, Seq<char>)) -> bool {
    |a: (u32, Seq<char>), b: (u32, Seq<char>)| entry_le(a, b)
}

/// Stable sort of lyric lines by [`entry_le`].
pub open spec fn sort_entries(s: Seq<(u32, Seq<char>)>) -> Seq<(u32, Seq<char>)> {
    sort_by(s, entry_order())
}

// ---------------------------------------------------------------------------
// Plain text
// ---------------------------------------------------------------------------

/// The non-empty trimmed lines.
pub open spec fn plain_texts(lines: Seq<Seq<char>>) -> Seq<Seq<char>>
    decreases lines.len(),
{
    if lines.len() == 0 {
        Seq::empty()
    } else {
        let r = plain_texts(lines.drop_last());
        let t = trim(lines.last());
        if t.len() > 0 {
            r.push(t)
        } else {
            r
        }
    }
}

/// Time of the `i`-th plain line: `i * 5000` ms, saturating at `u32::MAX`.
pub open spec fn plain_stamp(i: int) -> u32 {
    let k = (i as u32) as int;
    if k * 5000 > u32::MAX {
        u32::MAX
    } else {
        (k * 5000) as u32
    }
}

/// Untimed lyrics: every non-empty line, five seconds apart.
pub open spec fn plain_lyrics(content: Seq<char>) -> Seq<(u32, Seq<char>)> {
    let t = plain_texts(split_lines(content));
    Seq::new(t.len(), |i: int| (plain_stamp(i), t[i]))
}

/// The lyrics of a lyrics file: its timed lines sorted, or, when it has none, its plain lines.
pub open spec fn lyrics_of(content: Seq<char>) -> Seq<(u32, Seq<char>)> {
    let e = timed_entries(split_lines(content));
    if e.len() == 0 {
        plain_lyrics(content)
    } else {
        sort_entries(e)
    }
}

// ---------------------------------------------------------------------------
// Lemmas
// ---------------------------------------------------------------------------

proof fn lemma_leading_digits(f: Seq<char>, i: int)
    requires
        0 <= i <= f.len(),
        forall|j: int| 0 <= j < i ==> is_digit(#[trigger] f[j]),
    ensures
        leading_digits(f).len() >= i,
        leading_digits(f).take(i) == f.take(i),
        (i == f.len() || !is_digit(f[i])) ==> leading_digits(f) == f.take(i),
    decreases i,
{
    if i > 0 {
        let t = f.drop_first();
        assert forall|j: int| 0 <= j < i - 1 implies is_digit(#[trigger] t[j]) by {
            assert(t[j] == f[j + 1]);
        }
        lemma_leading_digits(t, i - 1);
        assert(f.take(i) =~= seq![f[0]] + t.take(i - 1));
        assert(leading_digits(f).take(i) =~= seq![f[0]] + leading_digits(t).take(i - 1));
        if i == f.len() || !is_digit(f[i]) {
            assert(i - 1 == t.len() || !is_digit(t[i - 1]));
        }
    } else {
        assert(f.take(0) =~= Seq::<char>::empty());
        assert(leading_digits(f).take(0) =~= Seq::<char>::empty());
    }
}

proof fn lemma_strip_bom_step(s: Seq<char>, i: int)
    requires
        0 <= i < s.len(),
        s[i] == '\u{feff}',
    ensures
        strip_bom(s.skip(i)) == strip_bom(s.skip(i + 1)),
{
    assert(s.skip(i).drop_first() =~= s.skip(i + 1));
}

// ---------------------------------------------------------------------------
// Executable parsing
// ---------------------------------------------------------------------------

/// Milliseconds of a fraction of a second (see [`fraction_ms`]).
fn normalize_fraction_ms(f: &Vec<char>) -> (r: u32)
    ensures
        r == fraction_ms(f@),
{
    let mut i: usize = 0;
    let mut acc: u32 = 0;
    while i < f.len() && i < 3 && is_digit_char(f[i])
        invariant
            i <= f.len(),
            i <= 3,
            forall|j: int| 0 <= j < i ==> is_digit(#[trigger] f@[j]),
            acc == digits_value(f@.take(i as int)),
            acc < (if i == 0 {
                1int
            } else if i == 1 {
                10
            } else if i == 2 {
                100
            } else {
                1000
            }),
        decreases 3 - i,
    {
        proof {
            assert(f@.take(i + 1).drop_last() =~= f@.take(i as int));
        }
        acc = acc * 10 + (f[i] as u32 - 48);
        i += 1;
    }
    proof {
        lemma_leading_digits(f@, i as int);
        let d = leading_digits(f@);
        if i == 3 {
            if d.len() > 3 {
                assert(d.take(3) =~= f@.take(3));
            } else {
                assert(d =~= d.take(3));
            }
        } else {
            assert(d == f@.take(i as int));
        }
    }
    if i == 0 {
        0
    } else if i == 1 {
        acc * 100
    } else if i == 2 {
        acc * 10
    } else {
        acc
    }
}

/// ASCII digit test.
fn is_digit_char(c: char) -> (b: bool)
    ensures
        b == is_digit(c),
{
    let u = c as u32;
    48 <= u && u <= 57
}

/// Hours, minutes, seconds and milliseconds in milliseconds, wrapped to 32 bits.
fn total_ms_exec(h: u32, m: u32, s: u32, ms: u32) -> (r: u32)
    ensures
        r == total_ms(h, m, s, ms),
{
    let x: u64 = ((h as u64 * 60 + m as u64) * 60 + s as u64) * 1000 + ms as u64;
    x as u32
}

/// The value of a seconds field (see [`clock_value`]).
fn clock_value_exec(h: u32, m: u32, sec: &Vec<char>) -> (r: Option<u32>)
    ensures
        r == clock_value(h, m, sec@),
{
    let k = find_char_from(sec, 0, '.');
    proof {
        assert(sec@.skip(0) =~= sec@);
    }
    if k >= sec.len() {
        match parse_u32_chars(sec) {
            Some(s) => Some(total_ms_exec(h, m, s, 0)),
            None => None,
        }
    } else {
        let fraction = slice_chars(sec, k + 1, sec.len());
        let millis = normalize_fraction_ms(&fraction);
        let whole = slice_chars(sec, 0, k);
        proof {
            assert(fraction@ =~= sec@.skip(k + 1));
            assert(whole@ =~= sec@.take(k as int));
        }
        match parse_u32_chars(&whole) {
            Some(s) => Some(total_ms_exec(h, m, s, millis)),
            None => None,
        }
    }
}

/// The time of a tag (see [`timestamp_value`]).
pub fn parse_timestamp(tag: &Vec<char>) -> (r: Option<u32>)
    ensures
        r == timestamp_value(tag@),
{
    let i = find_char_from(tag, 0, ':');
    proof {
        assert(tag@.skip(0) =~= tag@);
    }
    if i >= tag.len() {
        return None;
    }
    let first = slice_chars(tag, 0, i);
    let j = find_char_from(tag, i + 1, ':');
    let ghost rest = tag@.skip(i + 1);
    proof {
        assert(first@ =~= tag@.take(i as int));
        lemma_find_char(rest, ':');
    }
    if j >= tag.len() {
        let seconds = slice_chars(tag, i + 1, tag.len());
        proof {
            assert(seconds@ =~= rest);
        }
        match parse_u32_chars(&first) {
            Some(m) => clock_value_exec(0, m, &seconds),
            None => None,
        }
    } else {
        let second = slice_chars(tag, i + 1, j);
        let third = slice_chars(tag, j + 1, tag.len());
        let k = find_char_from(&third, 0, ':');
        proof {
            let jj = j - (i + 1);
            assert(second@ =~= rest.take(jj));
            assert(third@ =~= rest.skip(jj + 1));
            assert(third@.skip(0) =~= third@);
        }
        if k < third.len() {
            return None;
        }
        match (parse_u32_chars(&first), parse_u32_chars(&second)) {
            (Some(h), Some(m)) => clock_value_exec(h, m, &third),
            _ => None,
        }
    }
}

/// Removes the time tags that stand inside a line of text (see [`strip_inline`]).
pub fn strip_inline_timestamps(s: &Vec<char>) -> (r: Vec<char>)
    ensures
        r@ == strip_inline(s@),
{
    let mut out: Vec<char> = Vec::new();
    let mut pos: usize = 0;
    proof {
        assert(s@.skip(0) =~= s@);
    }
    while pos < s.len()
        invariant
            pos <= s.len(),
            strip_inline(s@) == out@ + strip_inline(s@.skip(pos as int)),
        decreases s.len() - pos,
    {
        let ghost r = s@.skip(pos as int);
        let start = find_char_from(s, pos, '[');
        if start >= s.len() {
            let tail = slice_chars(s, pos, s.len());
            proof {
                assert(tail@ =~= r);
            }
            let mut o2 = out;
            append_chars(&mut o2, &tail);
            return o2;
        }
        let end = find_char_from(s, start + 1, ']');
        let ghost tagged = r.skip(start - pos + 1);
        proof {
            assert(tagged =~= s@.skip(start + 1));
        }
        if end >= s.len() {
            let tail = slice_chars(s, pos, s.len());
            proof {
                assert(tail@ =~= r);
            }
            let mut o2 = out;
            append_chars(&mut o2, &tail);
            return o2;
        }
        let tag = slice_chars(s, start + 1, end);
        let head = slice_chars(s, pos, start);
        proof {
            assert(tag@ =~= tagged.take(end - (start + 1)));
            assert(head@ =~= r.take(start - pos));
        }
        append_chars(&mut out, &head);
        if parse_timestamp(&tag).is_some() {
            proof {
                assert(tagged.skip(end - (start + 1) + 1) =~= s@.skip(end + 1));
            }
            pos = end + 1;
        } else {
            out.push('[');
            proof {
                assert(out@.drop_last() + seq!['['] + strip_inline(tagged) =~= out@ + strip_inline(
                    tagged,
                ));
            }
            pos = start + 1;
        }
    }
    proof {
        assert(s@.skip(pos as int) =~= Seq::<char>::empty());
        assert(out@ + Seq::<char>::empty() =~= out@);
    }
    out
}

/// Appends the characters of `t` to `v`.
fn append_chars(v: &mut Vec<char>, t: &Vec<char>)
    ensures
        final(v)@ == old(v)@ + t@,
{
    let mut i: usize = 0;
    let ghost start = v@;
    while i < t.len()
        invariant
            i <= t.len(),
            v@ == start + t@.take(i as int),
        decreases t.len() - i,
    {
        v.push(t[i]);
        i += 1;
        proof {
            assert(t@.take(i as int) =~= t@.take(i - 1).push(t@[i - 1]));
        }
    }
    proof {
        assert(t@.take(t.len() as int) =~= t@);
    }
}

/// Removes leading byte-order marks.
fn strip_bom_chars(v: &Vec<char>) -> (r: Vec<char>)
    ensures
        r@ == strip_bom(v@),
{
    let mut i: usize = 0;
    proof {
        assert(v@.skip(0) =~= v@);
    }
    while i < v.len() && v[i] == '\u{feff}'
        invariant
            i <= v.len(),
            strip_bom(v@) == strip_bom(v@.skip(i as int)),
        decreases v.len() - i,
    {
        proof {
            lemma_strip_bom_step(v@, i as int);
        }
        i += 1;
    }
    let r = slice_chars(v, i, v.len());
    proof {
        assert(r@ =~= v@.skip(i as int));
    }
    r
}

/// The time tags at the start of a line and the position after them (see [`leading_stamps`]).
fn leading_stamps_exec(line: &Vec<char>) -> (r: (Vec<u32>, usize))
    ensures
        r.1 <= line.len(),
        leading_stamps(line@) == (r.0@, line@.skip(r.1 as int)),
{
    let mut stamps: Vec<u32> = Vec::new();
    let mut pos: usize = 0;
    proof {
        assert(line@.skip(0) =~= line@);
        assert(stamps@ + leading_stamps(line@).0 =~= leading_stamps(line@).0);
    }
    while pos < line.len() && line[pos] == '['
        invariant
            pos <= line.len(),
            leading_stamps(line@).0 == stamps@ + leading_stamps(line@.skip(pos as int)).0,
            leading_stamps(line@).1 == leading_stamps(line@.skip(pos as int)).1,
        decreases line.len() - pos,
    {
        let ghost rest = line@.skip(pos as int);
        let ghost tagged = rest.drop_first();
        proof {
            assert(tagged =~= line@.skip(pos + 1));
        }
        let end = find_char_from(line, pos + 1, ']');
        if end >= line.len() {
            proof {
                assert(leading_stamps(rest) == (Seq::<u32>::empty(), rest));
                assert(stamps@ + Seq::<u32>::empty() =~= stamps@);
            }
            return (stamps, pos);
        }
        let tag = slice_chars(line, pos + 1, end);
        proof {
            assert(tag@ =~= tagged.take(end - (pos + 1)));
        }
        match parse_timestamp(&tag) {
            None => {
                proof {
                    assert(leading_stamps(rest) == (Seq::<u32>::empty(), rest));
                    assert(stamps@ + Seq::<u32>::empty() =~= stamps@);
                }
                return (stamps, pos);
            },
            Some(t) => {
                proof {
                    assert(tagged.skip(end - (pos + 1) + 1) =~= line@.skip(end + 1));
                    let inner = leading_stamps(line@.skip(end + 1));
                    assert(leading_stamps(rest) == (seq![t] + inner.0, inner.1));
                    assert(stamps@.push(t) + inner.0 =~= stamps@ + (seq![t] + inner.0));
                }
                stamps.push(t);
                pos = end + 1;
            },
        }
    }
    proof {
        assert(leading_stamps(line@.skip(pos as int)) == (
            Seq::<u32>::empty(),
            line@.skip(pos as int),
        ));
        assert(stamps@ + Seq::<u32>::empty() =~= stamps@);
    }
    (stamps, pos)
}

/// The timed lines of one raw line (see [`line_entries`]).
fn line_entries_exec(raw: &Vec<char>) -> (r: Vec<LyricLine>)
    ensures
        lines_view(r@) == line_entries(raw@),
{
    let line = strip_bom_chars(&trim_chars(raw));
    if line.len() == 0 {
        proof {
            assert(lines_view(Seq::<LyricLine>::empty()) =~= Seq::<(u32, Seq<char>)>::empty());
        }
        return Vec::new();
    }
    let (stamps, pos) = leading_stamps_exec(&line);
    let rest = slice_chars(&line, pos, line.len());
    proof {
        assert(rest@ =~= line@.skip(pos as int));
    }
    let text = trim_chars(&strip_inline_timestamps(&rest));
    let mut out: Vec<LyricLine> = Vec::new();
    if text.len() == 0 || stamps.len() == 0 {
        proof {
            assert(lines_view(out@) =~= Seq::<(u32, Seq<char>)>::empty());
        }
        return out;
    }
    let ghost expected = line_entries(raw@);
    proof {
        assert(expected =~= Seq::new(stamps@.len(), |i: int| (stamps@[i], text@)));
        assert(lines_view(out@) =~= expected.take(0));
    }
    let mut k: usize = 0;
    while k < stamps.len()
        invariant
            k <= stamps.len(),
            expected.len() == stamps@.len(),
            forall|i: int| 0 <= i < expected.len() ==> #[trigger] expected[i] == (stamps@[i], text@),
            lines_view(out@) =~= expected.take(k as int),
        decreases stamps.len() - k,
    {
        let t = string_from(&text);
        let ghost before = out@;
        let line = LyricLine { timestamp_ms: stamps[k], text: t };
        out.push(line);
        k += 1;
        proof {
            assert(out@ =~= before.push(line));
            assert(lines_view(out@) =~= lines_view(before).push(line@));
            assert(expected.take(k as int) =~= expected.take(k - 1).push(expected[k - 1]));
            assert(lines_view(out@) =~= expected.take(k as int));
        }
    }
    proof {
        assert(expected.take(stamps.len() as int) =~= expected);
    }
    out
}

/// Inserts `x` into sorted position: after every line that is not greater than it.
fn insert_line(out: &mut Vec<LyricLine>, x: LyricLine)
    ensures
        lines_view(final(out)@) == insert_by(lines_view(old(out)@), x@, entry_order()),
{
    let ghost s = lines_view(out@);
    let mut j = out.len();
    while j > 0 && !line_le(&out[j - 1], &x)
        invariant
            j <= out.len(),
            s == lines_view(out@),
            forall|k: int| j <= k < s.len() ==> !entry_le(#[trigger] s[k], x@),
        decreases j,
    {
        j -= 1;
    }
    proof {
        assert forall|k: int| j <= k < s.len() implies !(entry_order())(#[trigger] s[k], x@) by {}
        lemma_insert_by_at(s, x@, entry_order(), j as int);
    }
    out.insert(j, x);
    proof {
        assert(lines_view(out@) =~= s.take(j as int).push(x@) + s.skip(j as int));
    }
}

/// Is `a` ordered before or together with `b` (see [`entry_le`])?
fn line_le(a: &LyricLine, b: &LyricLine) -> (r: bool)
    ensures
        r == entry_le(a@, b@),
{
    if a.timestamp_ms < b.timestamp_ms {
        return true;
    }
    if a.timestamp_ms > b.timestamp_ms {
        return false;
    }
    let x = str_chars(a.text.as_str());
    let y = str_chars(b.text.as_str());
    !chars_less(&y, &x)
}

/// Stable sort by time, then text (see [`sort_entries`]).
fn sort_lines(v: &Vec<LyricLine>) -> (r: Vec<LyricLine>)
    ensures
        lines_view(r@) == sort_entries(lines_view(v@)),
{
    let mut out: Vec<LyricLine> = Vec::new();
    let mut i: usize = 0;
    proof {
        assert(lines_view(v@).take(0) =~= Seq::<(u32, Seq<char>)>::empty());
        assert(lines_view(out@) =~= Seq::<(u32, Seq<char>)>::empty());
    }
    while i < v.len()
        invariant
            i <= v.len(),
            lines_view(out@) == sort_entries(lines_view(v@).take(i as int)),
        decreases v.len() - i,
    {
        let x = v[i].duplicate();
        insert_line(&mut out, x);
        i += 1;
        proof {
            let t = lines_view(v@).take(i as int);
            assert(t.drop_last() =~= lines_view(v@).take(i - 1));
            assert(t.last() == v@[i - 1]@);
        }
    }
    proof {
        assert(lines_view(v@).take(v.len() as int) =~= lines_view(v@));
    }
    out
}

/// Untimed lyrics from raw lines (see [`plain_lyrics`]).
fn plain_from_lines(lines: &Vec<Vec<char>>, Ghost(raw): Ghost<Seq<Seq<char>>>) -> (r: Vec<LyricLine>)
    requires
        lines@.len() == raw.len(),
        forall|k: int| 0 <= k < raw.len() ==> #[trigger] lines@[k]@ == raw[k],
    ensures
        lines_view(r@) == Seq::new(
            plain_texts(raw).len(),
            |i: int| (plain_stamp(i), plain_texts(raw)[i]),
        ),
{
    let mut out: Vec<LyricLine> = Vec::new();
    let mut k: usize = 0;
    proof {
        assert(raw.take(0) =~= Seq::<Seq<char>>::empty());
    }
    while k < lines.len()
        invariant
            k <= lines.len(),
            lines@.len() == raw.len(),
            forall|q: int| 0 <= q < raw.len() ==> #[trigger] lines@[q]@ == raw[q],
            out@.len() == plain_texts(raw.take(k as int)).len(),
            forall|i: int|
                0 <= i < out@.len() ==> #[trigger] out@[i]@ == (
                    plain_stamp(i),
                    plain_texts(raw.take(k as int))[i],
                ),
        decreases lines.len() - k,
    {
        let t = trim_chars(&lines[k]);
        proof {
            assert(raw.take(k + 1).drop_last() =~= raw.take(k as int));
            assert(raw.take(k + 1).last() == raw[k as int]);
        }
        if t.len() > 0 {
            let index = out.len();
            let stamp = plain_stamp_exec(index);
            out.push(LyricLine { timestamp_ms: stamp, text: string_from(&t) });
        }
        k += 1;
    }
    proof {
        assert(raw.take(raw.len() as int) =~= raw);
        assert(lines_view(out@) =~= Seq::new(
            plain_texts(raw).len(),
            |i: int| (plain_stamp(i), plain_texts(raw)[i]),
        ));
    }
    out
}

/// Time of the `index`-th plain line (see [`plain_stamp`]).
fn plain_stamp_exec(index: usize) -> (r: u32)
    ensures
        r == plain_stamp(index as int),
{
    let k = index as u32;
    let x: u64 = k as u64 * PLAIN_LINE_STEP_MS;
    if x > 0xffff_ffffu64 {
        0xffff_ffffu32
    } else {
        x as u32
    }
}

/// Untimed lyrics: every non-empty line, five seconds apart (see [`plain_lyrics`]).
pub fn parse_plain_lyrics(content: &str) -> (r: Vec<LyricLine>)
    ensures
        lines_view(r@) == plain_lyrics(content@),
{
    let chars = str_chars(content);
    let lines = split_lines_chars(&chars);
    plain_from_lines(&lines, Ghost(split_lines(content@)))
}

/// Parses the content of a lyrics file (see [`lyrics_of`]).
pub fn parse_lyrics(content: &str) -> (r: Vec<LyricLine>)
    ensures
        lines_view(r@) == lyrics_of(content@),
{
    let chars = str_chars(content);
    let lines = split_lines_chars(&chars);
    let ghost raw = split_lines(content@);
    let mut entries: Vec<LyricLine> = Vec::new();
    let mut k: usize = 0;
    proof {
        assert(raw.take(0) =~= Seq::<Seq<char>>::empty());
        assert(lines_view(entries@) =~= Seq::<(u32, Seq<char>)>::empty());
    }
    while k < lines.len()
        invariant
            k <= lines.len(),
            lines@.len() == raw.len(),
            forall|q: int| 0 <= q < raw.len() ==> #[trigger] lines@[q]@ == raw[q],
            lines_view(entries@) == timed_entries(raw.take(k as int)),
        decreases lines.len() - k,
    {
        let mut found = line_entries_exec(&lines[k]);
        let ghost before = entries@;
        entries.append(&mut found);
        proof {
            assert(raw.take(k + 1).drop_last() =~= raw.take(k as int));
            assert(raw.take(k + 1).last() == raw[k as int]);
            assert(lines_view(entries@) =~= lines_view(before) + line_entries(raw[k as int]));
        }
        k += 1;
    }
    proof {
        assert(raw.take(raw.len() as int) =~= raw);
    }
    if entries.len() == 0 {
        return plain_from_lines(&lines, Ghost(raw));
    }
    sort_lines(&entries)
}

// ---------------------------------------------------------------------------
// Embedded lyrics and the choice of source
// ---------------------------------------------------------------------------

/// Number of tag keys under which embedded lyrics are looked for.
pub const LYRIC_KEY_COUNT: usize = 10;

/// The tag keys under which embedded lyrics are looked for, in order of preference.
pub open spec fn lyric_key(i: int) -> Seq<char> {
    if i == 0 {
        "lyrics"@
    } else if i == 1 {
        "LYRICS"@
    } else if i == 2 {
        "lyric"@
    } else if i == 3 {
        "LYRIC"@
    } else if i == 4 {
        "syncedlyrics"@
    } else if i == 5 {
        "SYNCEDLYRICS"@
    } else if i == 6 {
        "unsyncedlyrics"@
    } else if i == 7 {
        "UNSYNCEDLYRICS"@
    } else if i == 8 {
        "description"@
    } else {
        "DESCRIPTION"@
    }
}

fn lyric_key_exec(i: usize) -> (k: &'static str)
    requires
        i < LYRIC_KEY_COUNT,
    ensures
        k@ == lyric_key(i as int),
{
    if i == 0 {
        "lyrics"
    } else if i == 1 {
        "LYRICS"
    } else if i == 2 {
        "lyric"
    } else if i == 3 {
        "LYRIC"
    } else if i == 4 {
        "syncedlyrics"
    } else if i == 5 {
        "SYNCEDLYRICS"
    } else if i == 6 {
        "unsyncedlyrics"
    } else if i == 7 {
        "UNSYNCEDLYRICS"
    } else if i == 8 {
        "description"
    } else {
        "DESCRIPTION"
    }
}

/// The string under the first lyric key (from the `i`-th on) whose value is a string.
pub open spec fn lyrics_in_tags_from(tags: Seq<TagView>, i: int) -> Option<Seq<char>>
    decreases 10 - i,
{
    if i < 0 || i >= 10 {
        None
    } else {
        match tag_lookup(tags, lyric_key(i)) {
            Some(Some(s)) => Some(s),
            _ => lyrics_in_tags_from(tags, i + 1),
        }
    }
}

/// The lyrics text of a tag list, if any.
pub open spec fn lyrics_in_tags(tags: Option<Seq<TagView>>) -> Option<Seq<char>> {
    match tags {
        None => None,
        Some(t) => lyrics_in_tags_from(t, 0),
    }
}

/// The lyrics text of the first stream that has one.
pub open spec fn lyrics_in_streams(streams: Seq<Option<Seq<TagView>>>) -> Option<Seq<char>>
    decreases streams.len(),
{
    if streams.len() == 0 {
        None
    } else {
        match lyrics_in_tags(streams[0]) {
            Some(s) => Some(s),
            None => lyrics_in_streams(streams.drop_first()),
        }
    }
}

/// Embedded lyrics: those in the container's tags, or else in the first stream that has some.
pub open spec fn embedded_text(probe: ProbeOutput) -> Option<Seq<char>> {
    match lyrics_in_tags(opt_tags_view(probe.format_tags)) {
        Some(s) => Some(s),
        None => lyrics_in_streams(streams_view(probe.stream_tags@)),
    }
}

fn find_in_tags(tags: &Option<Vec<ProbeTag>>) -> (r: Option<String>)
    ensures
        match lyrics_in_tags(opt_tags_view(*tags)) {
            Some(s) => r is Some && r.unwrap()@ == s,
            None => r is None,
        },
{
    match tags {
        None => None,
        Some(t) => {
            let mut i: usize = 0;
            while i < LYRIC_KEY_COUNT
                invariant
                    i <= LYRIC_KEY_COUNT,
                    opt_tags_view(*tags) == Some(tags_view(t@)),
                    lyrics_in_tags_from(tags_view(t@), 0) == lyrics_in_tags_from(
                        tags_view(t@),
                        i as int,
                    ),
                decreases LYRIC_KEY_COUNT - i,
            {
                let key = lyric_key_exec(i);
                proof {
                    assert(lyrics_in_tags_from(tags_view(t@), i as int) == match tag_lookup(
                        tags_view(t@),
                        lyric_key(i as int),
                    ) {
                        Some(Some(s)) => Some(s),
                        _ => lyrics_in_tags_from(tags_view(t@), i + 1),
                    });
                }
                match lookup_tag(t, key) {
                    Some(Some(s)) => {
                        let c = s.clone();
                        return Some(c);
                    },
                    _ => {},
                }
                i += 1;
            }
            None
        },
    }
}

/// Finds embedded lyrics in a probe report (see [`embedded_text`]).
pub fn extract_embedded_lyrics(probe: &ProbeOutput) -> (r: Option<String>)
    ensures
        match embedded_text(*probe) {
            Some(s) => r is Some && r.unwrap()@ == s,
            None => r is None,
        },
{
    let first = find_in_tags(&probe.format_tags);
    if first.is_some() {
        return first;
    }
    let ghost sv = streams_view(probe.stream_tags@);
    let mut i: usize = 0;
    proof {
        assert(sv.skip(0) =~= sv);
    }
    while i < probe.stream_tags.len()
        invariant
            i <= probe.stream_tags.len(),
            sv == streams_view(probe.stream_tags@),
            embedded_text(*probe) == lyrics_in_streams(sv.skip(i as int)),
        decreases probe.stream_tags.len() - i,
    {
        proof {
            assert(sv.skip(i as int)[0] == opt_tags_view(probe.stream_tags@[i as int]));
            assert(sv.skip(i as int).drop_first() =~= sv.skip(i + 1));
        }
        let found = find_in_tags(&probe.stream_tags[i]);
        if found.is_some() {
            return found;
        }
        i += 1;
    }
    None
}

/// Lyrics embedded in a probe report, parsed; empty when there are none.
pub open spec fn embedded_lyrics(probe: ProbeOutput) -> Seq<(u32, Seq<char>)> {
    match embedded_text(probe) {
        Some(s) => lyrics_of(s),
        None => Seq::empty(),
    }
}

/// Lyrics of a lyrics file's content; empty when no file could be read.
pub open spec fn external_lyrics_of(content: Option<Seq<char>>) -> Seq<(u32, Seq<char>)> {
    match content {
        Some(c) => lyrics_of(c),
        None => Seq::empty(),
    }
}

/// The lyrics chosen for a track: the external ones when complete, else the longer of
/// the external and the embedded ones (the external ones on a tie or without a report).
pub open spec fn chosen_lyrics(
    external: Seq<(u32, Seq<char>)>,
    probe: Option<ProbeOutput>,
) -> Seq<(u32, Seq<char>)> {
    if external.len() >= MIN_COMPLETE_LYRIC_LINES {
        external
    } else {
        match probe {
            None => external,
            Some(p) => if embedded_lyrics(p).len() > external.len() {
                embedded_lyrics(p)
            } else {
                external
            },
        }
    }
}

/// Parses the content of the lyrics file found beside a track, if any.
pub fn load_external_lyrics(content: Option<&str>) -> (r: Vec<LyricLine>)
    ensures
        lines_view(r@) == external_lyrics_of(
            match content {
                Some(c) => Some(c@),
                None => None,
            },
        ),
{
    match content {
        Some(c) => parse_lyrics(c),
        None => {
            proof {
                assert(lines_view(Seq::<LyricLine>::empty()) =~= Seq::<(u32, Seq<char>)>::empty());
            }
            Vec::new()
        },
    }
}

/// Do these lyrics need no embedded ones?
pub fn lyrics_complete(lines: &Vec<LyricLine>) -> (r: bool)
    ensures
        r == (lines@.len() >= MIN_COMPLETE_LYRIC_LINES),
{
    lines.len() >= MIN_COMPLETE_LYRIC_LINES
}

/// Parses the lyrics embedded in a probe report.
pub fn load_embedded_lyrics(probe: &ProbeOutput) -> (r: Vec<LyricLine>)
    ensures
        lines_view(r@) == embedded_lyrics(*probe),
{
    match extract_embedded_lyrics(probe) {
        Some(s) => parse_lyrics(s.as_str()),
        None => {
            proof {
                assert(lines_view(Seq::<LyricLine>::empty()) =~= Seq::<(u32, Seq<char>)>::empty());
            }
            Vec::new()
        },
    }
}

/// Chooses the lyrics of a track from those of its lyrics file and, when these are not
/// complete, those embedded in its probe report (`None` when no report could be had).
pub fn load_lyrics(external: Vec<LyricLine>, probe: Option<&ProbeOutput>) -> (r: Vec<LyricLine>)
    ensures
        lines_view(r@) == chosen_lyrics(
            lines_view(external@),
            match probe {
                Some(p) => Some(*p),
                None => None,
            },
        ),
{
    if lyrics_complete(&external) {
        return external;
    }
    match probe {
        None => external,
        Some(p) => {
            let embedded = load_embedded_lyrics(p);
            if embedded.len() > external.len() {
                embedded
            } else {
                external
            }
        },
    }
}

// ---------------------------------------------------------------------------
// Laws
// ---------------------------------------------------------------------------

/// The order of lyric lines is a total preorder.
pub proof fn lemma_entry_order_total()
    ensures
        total_preorder(entry_order()),
{
    assert forall|a: (u32, Seq<char>), b: (u32, Seq<char>)|
        #[trigger] (entry_order())(a, b) || #[trigger] (entry_order())(b, a) by {
        lemma_chars_lt_asym(a.1, b.1);
    }
    assert forall|a: (u32, Seq<char>), b: (u32, Seq<char>), c: (u32, Seq<char>)|
        #[trigger] (entry_order())(a, b) && #[trigger] (entry_order())(b, c) implies (
        entry_order())(a, c) by {
        if a.0 == b.0 && b.0 == c.0 {
            lemma_chars_lt_total(a.1, b.1);
            lemma_chars_lt_trans(c.1, a.1, b.1);
        }
    }
}

/// Time of the `i`-th plain line never decreases (for fewer than 2^32 lines).
proof fn lemma_plain_stamp_monotone(i: int, j: int)
    requires
        0 <= i <= j <= u32::MAX,
    ensures
        plain_stamp(i) <= plain_stamp(j),
{
    assert((i as u32) as int == i);
    assert((j as u32) as int == j);
}

/// Law: lyrics come out in time order: every line's time is at most the next one's.
/// (Holds of every lyrics file with fewer than 2^32 non-empty lines.)
pub proof fn lemma_lyrics_in_time_order(content: Seq<char>)
    requires
        plain_texts(split_lines(content)).len() <= 0x1_0000_0000,
    ensures
        forall|i: int, j: int|
            0 <= i < j < lyrics_of(content).len() ==> (#[trigger] lyrics_of(content)[i]).0
                <= (#[trigger] lyrics_of(content)[j]).0,
{
    let e = timed_entries(split_lines(content));
    if e.len() == 0 {
        assert forall|i: int, j: int|
            0 <= i < j < lyrics_of(content).len() implies (#[trigger] lyrics_of(content)[i]).0
            <= (#[trigger] lyrics_of(content)[j]).0 by {
            lemma_plain_stamp_monotone(i, j);
        }
    } else {
        lemma_entry_order_total();
        lemma_sort_by_sorted(e, entry_order());
        assert forall|i: int, j: int|
            0 <= i < j < lyrics_of(content).len() implies (#[trigger] lyrics_of(content)[i]).0
            <= (#[trigger] lyrics_of(content)[j]).0 by {
            assert((entry_order())(sort_entries(e)[i], sort_entries(e)[j]));
        }
    }
}

/// Law: a lyrics file with time tags gives exactly its timed lines (one per leading tag,
/// each as often as it occurs), reordered.
pub proof fn lemma_lyrics_keep_timed_lines(content: Seq<char>)
    requires
        timed_entries(split_lines(content)).len() > 0,
    ensures
        lyrics_of(content).to_multiset() == timed_entries(split_lines(content)).to_multiset(),
{
    lemma_sort_by_permutation(timed_entries(split_lines(content)), entry_order());
}

/// Law: the lyrics chosen for a track are its lyrics file's or its embedded ones; the
/// file's are kept when complete, and the choice never has fewer lines than the file.
pub proof fn lemma_chosen_lyrics(external: Seq<(u32, Seq<char>)>, probe: Option<ProbeOutput>)
    ensures
        chosen_lyrics(external, probe) == external || (probe matches Some(p)
            && chosen_lyrics(external, probe) == embedded_lyrics(p)),
        external.len() >= MIN_COMPLETE_LYRIC_LINES ==> chosen_lyrics(external, probe) == external,
        chosen_lyrics(external, probe).len() >= external.len(),
{
}

/// Law: lyrics of fewer than three lines give way to longer embedded lyrics; in
/// particular a track without a lyrics file shows its embedded lyrics, whatever they are.
/// Otherwise the lyrics file's lines are kept.
pub proof fn lemma_short_lyrics_give_way(external: Seq<(u32, Seq<char>)>, probe: ProbeOutput)
    ensures
        external.len() < 3 && embedded_lyrics(probe).len() > external.len() ==> chosen_lyrics(
            external,
            Some(probe),
        ) == embedded_lyrics(probe),
        external.len() == 0 ==> chosen_lyrics(external, Some(probe)) == embedded_lyrics(probe),
        embedded_lyrics(probe).len() <= external.len() ==> chosen_lyrics(external, Some(probe))
            == external,
        external.len() >= 3 ==> chosen_lyrics(external, Some(probe)) == external,
        chosen_lyrics(external, None) == external,
{
    if external.len() == 0 && embedded_lyrics(probe).len() == 0 {
        assert(embedded_lyrics(probe) =~= external);
    }
}

/// Law: a string under the container's `lyrics` tag is the embedded lyrics text, before
/// any other tag and any stream.
pub proof fn lemma_format_lyrics_tag_first(probe: ProbeOutput, text: Seq<char>)
    requires
        opt_tags_view(probe.format_tags) matches Some(t) && tag_lookup(t, "lyrics"@) == Some(
            Some(text),
        ),
    ensures
        embedded_text(probe) == Some(text),
        embedded_lyrics(probe) == lyrics_of(text),
{
}

} // verus!
