//! The local library: which files are audio files, the track that a file and its
//! probe report describe, and the order of the library.
use vstd::prelude::*;

use crate::models::{tracks_view, LocalTrack, TrackView};
use crate::paths::{extension, file_name_chars, file_stem, split_name};
use crate::probe::{opt_tags_view, tag, tag_text, ProbeOutput};
use crate::sorting::{
    insert_by, lemma_insert_by_at, lemma_sort_by_permutation, lemma_sort_by_sorted, sort_by,
    sorted_by, total_preorder,
};
use crate::text::{
    ascii_lower, chars_less, chars_lt, lemma_chars_lt_asym, lemma_chars_lt_total,
    lemma_chars_lt_trans, owned, str_chars,
    str_eq, string_from, strings_view,
};

verus! {

/// What `str::to_lowercase` returns for a string: its Unicode lower-case mapping.
pub uninterp spec fn lowercase(s: Seq<char>) -> Seq<char>;

/// Calls `str::to_lowercase`, whose result is named [`lowercase`].
#[verifier::external_body]
fn to_lowercase(s: &str) -> (r: String)
    ensures
        r@ == lowercase(s@),
{
    s.to_lowercase()
}

/// File extensions of audio files, compared without regard to ASCII case.
pub open spec fn is_audio_extension(e: Seq<char>) -> bool {
    let l = ascii_lower(e);
    ||| l == "mp3"@
    ||| l == "flac"@
    ||| l == "m4a"@
    ||| l == "ogg"@
    ||| l == "wav"@
    ||| l == "wma"@
    ||| l == "aac"@
    ||| l == "dsf"@
    ||| l == "dff"@
}

/// A path names an audio file when its extension is an audio extension.
pub open spec fn is_audio_path(p: Seq<char>) -> bool {
    match extension(p) {
        Some(e) => is_audio_extension(e),
        None => false,
    }
}

/// The stem of a path's file name, or `Unknown`.
pub open spec fn stem_text(p: Seq<char>) -> Seq<char> {
    match file_stem(p) {
        Some(s) => s,
        None => "Unknown"@,
    }
}

/// The track of a file that could not be probed.
pub open spec fn fallback_view(p: Seq<char>) -> TrackView {
    (p, stem_text(p), "Unknown Artist"@, Seq::empty(), 0)
}

/// The track of a probed file: its tags where present, else its stem and placeholders;
/// `secs` is the report's duration in whole seconds.
pub open spec fn probed_view(p: Seq<char>, probe: ProbeOutput, secs: u32) -> TrackView {
    let tags = opt_tags_view(probe.format_tags);
    (
        p,
        match tag_text(tags, "title"@) {
            Some(t) => t,
            None => stem_text(p),
        },
        match tag_text(tags, "artist"@) {
            Some(a) => a,
            None => "Unknown Artist"@,
        },
        match tag_text(tags, "album"@) {
            Some(a) => a,
            None => Seq::empty(),
        },
        secs,
    )
}

/// The track of a file, probed or not.
pub open spec fn track_view_of(p: Seq<char>, probe: Option<ProbeOutput>, secs: u32) -> TrackView {
    match probe {
        Some(pr) => probed_view(p, pr, secs),
        None => fallback_view(p),
    }
}

/// `a` comes strictly before `b`: by lower-cased title, then lower-cased artist.
pub open spec fn track_before(a: TrackView, b: TrackView) -> bool {
    let ta = lowercase(a.1);
    let tb = lowercase(b.1);
    chars_lt(ta, tb) || (ta == tb && chars_lt(lowercase(a.2), lowercase(b.2)))
}

/// The library order as a function value: `a` may stand before `b`.
pub open spec fn track_order() -> spec_fn(TrackView, TrackView) -> bool {
    |a: TrackView, b: TrackView| !track_before(b, a)
}

/// The audio paths among `paths`, in order.
pub open spec fn audio_paths(paths: Seq<Seq<char>>) -> Seq<Seq<char>>
    decreases paths.len(),
{
    if paths.len() == 0 {
        Seq::empty()
    } else {
        let r = audio_paths(paths.drop_last());
        if is_audio_path(paths.last()) {
            r.push(paths.last())
        } else {
            r
        }
    }
}

/// A file of the music directory and, when `ffprobe` could read it, its report with
/// the report's duration in whole seconds (0 where it has none).
pub struct ScannedFile {
    pub path: String,
    pub probe: Option<ProbeOutput>,
    pub duration_secs: u32,
}

pub open spec fn scanned_tracks(files: Seq<ScannedFile>) -> Seq<TrackView> {
    files.map_values(|f: ScannedFile| track_view_of(f.path@, f.probe, f.duration_secs))
}

/// Is `path` an audio file, judged by its extension?
pub fn is_audio_file(path: &str) -> (r: bool)
    ensures
        r == is_audio_path(path@),
{
    let p = str_chars(path);
    match file_name_chars(&p) {
        None => false,
        Some(name) => {
            let (_stem, ext) = split_name(&name);
            match ext {
                None => false,
                Some(e) => {
                    let mut lower: Vec<char> = Vec::new();
                    let mut i: usize = 0;
                    while i < e.len()
                        invariant
                            i <= e.len(),
                            lower@ == ascii_lower(e@.take(i as int)),
                        decreases e.len() - i,
                    {
                        let c = e[i];
                        let u = c as u32;
                        let d = if 65 <= u && u <= 90 {
                            ((u + 32) as u8) as char
                        } else {
                            c
                        };
                        proof {
                            assert(e@.take(i + 1) =~= e@.take(i as int).push(c));
                        }
                        lower.push(d);
                        i += 1;
                    }
                    proof {
                        assert(e@.take(e.len() as int) =~= e@);
                    }
                    let l = string_from(&lower);
                    let s = l.as_str();
                    str_eq(s, "mp3") || str_eq(s, "flac") || str_eq(s, "m4a") || str_eq(s, "ogg")
                        || str_eq(s, "wav") || str_eq(s, "wma") || str_eq(s, "aac") || str_eq(
                        s,
                        "dsf",
                    ) || str_eq(s, "dff")
                },
            }
        },
    }
}

/// The audio files among the files of the music directory, in order.
pub fn collect_audio_files(paths: &Vec<String>) -> (r: Vec<String>)
    ensures
        strings_view(r@) == audio_paths(strings_view(paths@)),
{
    let ghost pv = strings_view(paths@);
    let mut r: Vec<String> = Vec::new();
    let mut k: usize = 0;
    proof {
        assert(pv.take(0) =~= Seq::<Seq<char>>::empty());
        assert(strings_view(r@) =~= Seq::<Seq<char>>::empty());
    }
    while k < paths.len()
        invariant
            k <= paths.len(),
            pv == strings_view(paths@),
            strings_view(r@) == audio_paths(pv.take(k as int)),
        decreases paths.len() - k,
    {
        proof {
            assert(pv.take(k + 1).drop_last() =~= pv.take(k as int));
            assert(pv.take(k + 1).last() == paths@[k as int]@);
        }
        if is_audio_file(paths[k].as_str()) {
            let ghost before = r@;
            r.push(paths[k].clone());
            proof {
                assert(strings_view(r@) =~= strings_view(before).push(paths@[k as int]@));
            }
        }
        k += 1;
    }
    proof {
        assert(pv.take(paths.len() as int) =~= pv);
    }
    r
}

/// The stem of a path's file name, or `Unknown`.
pub fn file_stem_text(path: &str) -> (r: String)
    ensures
        r@ == stem_text(path@),
{
    let p = str_chars(path);
    match file_name_chars(&p) {
        None => owned("Unknown"),
        Some(name) => {
            let (stem, _ext) = split_name(&name);
            string_from(&stem)
        },
    }
}

/// The track of a file that could not be probed.
pub fn fallback_track(path: String) -> (t: LocalTrack)
    ensures
        t@ == fallback_view(path@),
{
    let title = file_stem_text(path.as_str());
    LocalTrack {
        title,
        artist: owned("Unknown Artist"),
        album: String::new(),
        duration: 0,
        path,
    }
}

/// The track of a probed file.
pub fn track_from_probe(path: String, probe: &ProbeOutput, duration_secs: u32) -> (t: LocalTrack)
    ensures
        t@ == probed_view(path@, *probe, duration_secs),
{
    let title = match tag(&probe.format_tags, "title") {
        Some(t) => t,
        None => file_stem_text(path.as_str()),
    };
    let artist = match tag(&probe.format_tags, "artist") {
        Some(a) => a,
        None => owned("Unknown Artist"),
    };
    let album = match tag(&probe.format_tags, "album") {
        Some(a) => a,
        None => String::new(),
    };
    LocalTrack { path, title, artist, album, duration: duration_secs }
}

/// The track of a file, from its probe report when there is one.
pub fn probe_track(path: String, probe: &Option<ProbeOutput>, duration_secs: u32) -> (t: LocalTrack)
    ensures
        t@ == track_view_of(path@, *probe, duration_secs),
{
    match probe {
        Some(p) => track_from_probe(path, p, duration_secs),
        None => fallback_track(path),
    }
}

/// Does `a` come strictly before `b` (see [`track_before`])?
fn track_less(a: &LocalTrack, b: &LocalTrack) -> (r: bool)
    ensures
        r == track_before(a@, b@),
{
    let ta = str_chars(to_lowercase(a.title.as_str()).as_str());
    let tb = str_chars(to_lowercase(b.title.as_str()).as_str());
    if chars_less(&ta, &tb) {
        return true;
    }
    if chars_less(&tb, &ta) {
        proof {
            lemma_chars_lt_asym(tb@, ta@);
        }
        return false;
    }
    proof {
        lemma_chars_lt_total(ta@, tb@);
    }
    let aa = str_chars(to_lowercase(a.artist.as_str()).as_str());
    let ab = str_chars(to_lowercase(b.artist.as_str()).as_str());
    chars_less(&aa, &ab)
}

/// Inserts `x` after every track that does not come after it.
fn insert_track(out: &mut Vec<LocalTrack>, x: LocalTrack)
    ensures
        tracks_view(final(out)@) == insert_by(tracks_view(old(out)@), x@, track_order()),
{
    let ghost s = tracks_view(out@);
    let mut j = out.len();
    while j > 0 && track_less(&x, &out[j - 1])
        invariant
            j <= out.len(),
            s == tracks_view(out@),
            forall|k: int| j <= k < s.len() ==> track_before(x@, #[trigger] s[k]),
        decreases j,
    {
        j -= 1;
    }
    proof {
        assert forall|k: int| j <= k < s.len() implies !(track_order())(#[trigger] s[k], x@) by {}
        lemma_insert_by_at(s, x@, track_order(), j as int);
    }
    out.insert(j, x);
    proof {
        assert(tracks_view(out@) =~= s.take(j as int).push(x@) + s.skip(j as int));
    }
}

/// The tracks of the music directory's audio files, in library order.
pub fn scan_music_dir(files: &Vec<ScannedFile>) -> (r: Vec<LocalTrack>)
    ensures
        tracks_view(r@) == sort_by(scanned_tracks(files@), track_order()),
{
    let ghost all = scanned_tracks(files@);
    let mut out: Vec<LocalTrack> = Vec::new();
    let mut i: usize = 0;
    proof {
        assert(all.take(0) =~= Seq::<TrackView>::empty());
        assert(tracks_view(out@) =~= Seq::<TrackView>::empty());
    }
    while i < files.len()
        invariant
            i <= files.len(),
            all == scanned_tracks(files@),
            tracks_view(out@) == sort_by(all.take(i as int), track_order()),
        decreases files.len() - i,
    {
        let t = probe_track(files[i].path.clone(), &files[i].probe, files[i].duration_secs);
        insert_track(&mut out, t);
        i += 1;
        proof {
            let s = all.take(i as int);
            assert(s.drop_last() =~= all.take(i - 1));
        }
    }
    proof {
        assert(all.take(files.len() as int) =~= all);
    }
    out
}

// ---------------------------------------------------------------------------
// Laws
// ---------------------------------------------------------------------------

/// The library order is a total preorder.
pub proof fn lemma_track_order_total()
    ensures
        total_preorder(track_order()),
{
    assert forall|a: TrackView, b: TrackView|
        #[trigger] (track_order())(a, b) || #[trigger] (track_order())(b, a) by {
        lemma_chars_lt_asym(lowercase(a.1), lowercase(b.1));
        lemma_chars_lt_asym(lowercase(a.2), lowercase(b.2));
    }
    assert forall|a: TrackView, b: TrackView, c: TrackView|
        #[trigger] (track_order())(a, b) && #[trigger] (track_order())(b, c) implies (
        track_order())(a, c) by {
        let (ta, tb, tc) = (lowercase(a.1), lowercase(b.1), lowercase(c.1));
        let (aa, ab, ac) = (lowercase(a.2), lowercase(b.2), lowercase(c.2));
        lemma_chars_lt_total(ta, tb);
        lemma_chars_lt_total(tb, tc);
        lemma_chars_lt_total(ta, tc);
        lemma_chars_lt_trans(tc, ta, tb);
        lemma_chars_lt_trans(tb, tc, ta);
        lemma_chars_lt_trans(tc, tb, ta);
        lemma_chars_lt_asym(ta, tc);
        lemma_chars_lt_total(aa, ab);
        lemma_chars_lt_trans(ac, aa, ab);
    }
}

/// Law: the library lists every scanned file's track once, ordered by lower-cased
/// title, then lower-cased artist; files of equal order keep their scan order.
pub proof fn lemma_library_order(files: Seq<ScannedFile>)
    ensures
        sorted_by(sort_by(scanned_tracks(files), track_order()), track_order()),
        sort_by(scanned_tracks(files), track_order()).to_multiset() == scanned_tracks(
            files,
        ).to_multiset(),
{
    lemma_track_order_total();
    lemma_sort_by_sorted(scanned_tracks(files), track_order());
    lemma_sort_by_permutation(scanned_tracks(files), track_order());
}

/// Law: the collected files are exactly the audio files among the given ones, in order:
/// each is an audio file and one of the given ones.
pub proof fn lemma_audio_paths(paths: Seq<Seq<char>>)
    ensures
        forall|k: int|
            0 <= k < audio_paths(paths).len() ==> is_audio_path(#[trigger] audio_paths(paths)[k])
                && paths.contains(audio_paths(paths)[k]),
        audio_paths(paths).len() <= paths.len(),
    decreases paths.len(),
{
    if paths.len() > 0 {
        let t = paths.drop_last();
        lemma_audio_paths(t);
        assert forall|k: int| 0 <= k < audio_paths(paths).len() implies is_audio_path(
            #[trigger] audio_paths(paths)[k],
        ) && paths.contains(audio_paths(paths)[k]) by {
            if k < audio_paths(t).len() {
                assert(audio_paths(paths)[k] == audio_paths(t)[k]);
                let m = choose|m: int| 0 <= m < t.len() && t[m] == audio_paths(t)[k];
                assert(paths[m] == t[m]);
            } else {
                assert(paths[paths.len() - 1] == audio_paths(paths)[k]);
            }
        }
    }
}

/// Law: a path is an audio file exactly when its extension, ASCII-lower-cased, is one of
/// mp3, flac, m4a, ogg, wav, wma, aac, dsf, dff.
pub proof fn lemma_audio_file_extensions(p: Seq<char>)
    ensures
        is_audio_path(p) <==> (extension(p) matches Some(e) && seq![
            "mp3"@,
            "flac"@,
            "m4a"@,
            "ogg"@,
            "wav"@,
            "wma"@,
            "aac"@,
            "dsf"@,
            "dff"@,
        ].contains(ascii_lower(e))),
{
    let exts = seq!["mp3"@, "flac"@, "m4a"@, "ogg"@, "wav"@, "wma"@, "aac"@, "dsf"@, "dff"@];
    if let Some(e) = extension(p) {
        let l = ascii_lower(e);
        if is_audio_extension(e) {
            if l == "mp3"@ {
                assert(exts[0] == l);
            } else if l == "flac"@ {
                assert(exts[1] == l);
            } else if l == "m4a"@ {
                assert(exts[2] == l);
            } else if l == "ogg"@ {
                assert(exts[3] == l);
            } else if l == "wav"@ {
                assert(exts[4] == l);
            } else if l == "wma"@ {
                assert(exts[5] == l);
            } else if l == "aac"@ {
                assert(exts[6] == l);
            } else if l == "dsf"@ {
                assert(exts[7] == l);
            } else {
                assert(exts[8] == l);
            }
        }
        if exts.contains(l) {
            let i = choose|i: int| 0 <= i < exts.len() && exts[i] == l;
            assert(exts.len() == 9);
            if i == 0 {
                assert(l == "mp3"@);
            } else if i == 1 {
                assert(l == "flac"@);
            } else if i == 2 {
                assert(l == "m4a"@);
            } else if i == 3 {
                assert(l == "ogg"@);
            } else if i == 4 {
                assert(l == "wav"@);
            } else if i == 5 {
                assert(l == "wma"@);
            } else if i == 6 {
                assert(l == "aac"@);
            } else if i == 7 {
                assert(l == "dsf"@);
            } else {
                assert(l == "dff"@);
            }
        }
    }
}

/// Law: collecting the audio files keeps every given path whose extension,
/// ASCII-lower-cased, is one of mp3, flac, m4a, ogg, wav, wma, aac, dsf, dff.
pub proof fn lemma_collect_keeps_audio_files(paths: Seq<Seq<char>>, p: Seq<char>)
    requires
        paths.contains(p),
        extension(p) matches Some(e) && seq![
            "mp3"@,
            "flac"@,
            "m4a"@,
            "ogg"@,
            "wav"@,
            "wma"@,
            "aac"@,
            "dsf"@,
            "dff"@,
        ].contains(ascii_lower(e)),
    ensures
        audio_paths(paths).contains(p),
    decreases paths.len(),
{
    lemma_audio_file_extensions(p);
    let t = paths.drop_last();
    if paths.last() == p {
        assert(audio_paths(paths) == audio_paths(t).push(p));
        assert(audio_paths(paths)[audio_paths(t).len() as int] == p);
    } else {
        let i = choose|i: int| 0 <= i < paths.len() && paths[i] == p;
        assert(t[i] == p);
        lemma_collect_keeps_audio_files(t, p);
        let k = choose|k: int| 0 <= k < audio_paths(t).len() && audio_paths(t)[k] == p;
        if is_audio_path(paths.last()) {
            assert(audio_paths(paths)[k] == p);
        }
    }
}

} // verus!
