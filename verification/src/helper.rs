//! The download helper: the command lines that ask it to search or download, and how
//! its answer is judged.
use vstd::prelude::*;

use crate::config::AppConfig;
use crate::json::{is_json_of, map_to_json};
use crate::models::{RemoteSong, SearchResponse};
use crate::text::{
    join, owned, push_str, str_chars, string_from, strings_view, trim, trim_chars,
};

verus! {

/// The outcome of a search: the songs found and the warnings of sources that failed.
#[derive(Debug, Clone)]
pub struct SearchResult {
    pub songs: Vec<RemoteSong>,
    pub warnings: Vec<String>,
}

/// The download helper and the cookies handed to it.
#[derive(Debug, Clone)]
pub struct MusicDl {
    helper_path: String,
    source_cookies_json: String,
}

/// One run of the helper: the program, its arguments and the value of its cookie variable.
#[derive(Debug, Clone)]
pub struct HelperCall {
    pub program: String,
    pub args: Vec<String>,
    pub cookies_json: String,
}

impl HelperCall {
    /// The message for a helper that could not be started.
    pub fn run_failure_message(&self, error: &str) -> (r: String)
        ensures
            r@ == "failed to run "@ + self.program@ + ": "@ + error@,
    {
        let mut r = owned("failed to run ");
        push_str(&mut r, self.program.as_str());
        push_str(&mut r, ": ");
        push_str(&mut r, error);
        r
    }
}

#[verifier::external_type_specification]
#[verifier::external_body]
pub struct ExJsonError(serde_json::Error);

/// Calls `ToString::to_string` on a `serde_json::Error` (its `Display` text).
#[verifier::external_body]
fn json_error_text(e: &serde_json::Error) -> String {
    e.to_string()
}

/// What `String::from_utf8_lossy` gives for a byte string: the text it encodes, with
/// each invalid sequence replaced by U+FFFD.
pub uninterp spec fn utf8_lossy(bytes: Seq<u8>) -> Seq<char>;

/// Calls `String::from_utf8_lossy`, whose result is named [`utf8_lossy`].
#[verifier::external_body]
fn lossy_text(bytes: &[u8]) -> (r: String)
    ensures
        r@ == utf8_lossy(bytes@),
{
    String::from_utf8_lossy(bytes).to_string()
}

/// The maximum number of results asked of the helper.
pub open spec fn search_limit() -> Seq<char> {
    "120"@
}

/// The arguments of a search.
pub open spec fn search_args(keyword: Seq<char>, mode: Seq<char>, sources: Seq<Seq<char>>) -> Seq<
    Seq<char>,
> {
    let base = seq![
        "search"@,
        "--keyword"@,
        keyword,
        "--mode"@,
        mode,
        "--limit"@,
        search_limit(),
    ];
    if sources.len() == 0 {
        base
    } else {
        base + seq!["--sources"@, join(sources, ","@)]
    }
}

/// `true` or `false`, as `bool` displays.
pub open spec fn bool_text(b: bool) -> Seq<char> {
    if b {
        "true"@
    } else {
        "false"@
    }
}

/// The arguments of a download, but for the last one (the song's extra fields as JSON).
pub open spec fn download_args(
    song: RemoteSong,
    out_dir: Seq<char>,
    cover: bool,
    lyrics: bool,
) -> Seq<Seq<char>> {
    seq![
        "download"@,
        "--id"@,
        song.id@,
        "--source"@,
        song.source@,
        "--name"@,
        song.name@,
        "--artist"@,
        song.artist@,
        "--album"@,
        song.album@,
        "--cover-url"@,
        song.cover@,
        "--url"@,
        song.url@,
        "--cover="@ + bool_text(cover),
        "--lyrics="@ + bool_text(lyrics),
        "--outdir"@,
        out_dir,
        "--extra"@,
    ]
}

/// The message for a helper that exited with failure: its trimmed error output, else its
/// trimmed standard output, else its exit status.
pub open spec fn failure_text(stdout: Seq<u8>, stderr: Seq<u8>, status: Seq<char>) -> Seq<char> {
    let e = trim(utf8_lossy(stderr));
    let o = trim(utf8_lossy(stdout));
    let detail = if e.len() > 0 {
        e
    } else {
        o
    };
    if detail.len() == 0 {
        "helper exited with status "@ + status
    } else {
        detail
    }
}

/// Joins strings with a separator.
pub fn join_strings(parts: &Vec<String>, count: usize, sep: &str) -> (r: String)
    requires
        count <= parts.len(),
    ensures
        r@ == join(strings_view(parts@).take(count as int), sep@),
{
    let ghost pv = strings_view(parts@);
    let mut r = String::new();
    let mut i: usize = 0;
    proof {
        assert(pv.take(0) =~= Seq::<Seq<char>>::empty());
    }
    while i < count
        invariant
            i <= count <= parts.len(),
            pv == strings_view(parts@),
            r@ == join(pv.take(i as int), sep@),
        decreases count - i,
    {
        proof {
            assert(pv.take(i + 1).drop_last() =~= pv.take(i as int));
            assert(pv.take(i + 1).last() == parts@[i as int]@);
            if i == 0 {
                assert(pv.take(1) =~= seq![parts@[0]@]);
            }
        }
        if i > 0 {
            push_str(&mut r, sep);
        }
        push_str(&mut r, parts[i].as_str());
        proof {
            if i == 0 {
                assert(r@ =~= Seq::<char>::empty() + parts@[0]@);
            }
        }
        i += 1;
    }
    r
}

impl MusicDl {
    /// The helper's path.
    pub closed spec fn path_view(&self) -> Seq<char> {
        self.helper_path@
    }

    /// The cookies handed to the helper, as JSON.
    pub closed spec fn cookies_view(&self) -> Seq<char> {
        self.source_cookies_json@
    }

    /// The helper at `helper_path` (already resolved), with the configured cookies
    /// written as a JSON object of source names and cookies.
    pub fn new(config: &AppConfig, helper_path: String) -> (r: MusicDl)
        ensures
            r.path_view() == helper_path@,
            is_json_of(r.cookies_view(), config.source_cookies@),
    {
        let json = match map_to_json(&config.source_cookies) {
            Ok(s) => s,
            Err(_) => owned("{}"),
        };
        MusicDl { helper_path, source_cookies_json: json }
    }

    /// The helper's path.
    pub fn helper_path(&self) -> (r: &str)
        ensures
            r@ == self.path_view(),
    {
        self.helper_path.as_str()
    }

    /// The run of the helper that searches for `keyword` in the given mode, in the
    /// given sources (in all of them when the list is empty).
    pub fn search(&self, keyword: &str, mode: &str, sources: &Vec<String>) -> (c: HelperCall)
        ensures
            c.program@ == self.path_view(),
            c.cookies_json@ == self.cookies_view(),
            strings_view(c.args@) == search_args(keyword@, mode@, strings_view(sources@)),
    {
        let mut args: Vec<String> = Vec::new();
        args.push(owned("search"));
        args.push(owned("--keyword"));
        args.push(owned(keyword));
        args.push(owned("--mode"));
        args.push(owned(mode));
        args.push(owned("--limit"));
        args.push(owned("120"));
        if sources.len() > 0 {
            args.push(owned("--sources"));
            args.push(join_strings(sources, sources.len(), ","));
            proof {
                assert(strings_view(sources@).take(sources@.len() as int) =~= strings_view(
                    sources@,
                ));
            }
        }
        proof {
            assert(strings_view(args@) =~= search_args(keyword@, mode@, strings_view(sources@)));
        }
        HelperCall {
            program: self.helper_path.clone(),
            args,
            cookies_json: self.source_cookies_json.clone(),
        }
    }

    /// The run of the helper that downloads `song` into `out_dir`, embedding the cover
    /// and lyrics as asked.  The last argument is the song's extra fields as a JSON object.
    pub fn download(&self, song: &RemoteSong, out_dir: &str, cover: bool, lyrics: bool) -> (r:
        Result<HelperCall, String>)
        ensures
            r is Ok,
            r matches Ok(c) ==> {
                &&& c.program@ == self.path_view()
                &&& c.cookies_json@ == self.cookies_view()
                &&& c.args@.len() == 21
                &&& strings_view(c.args@).take(20) == download_args(*song, out_dir@, cover, lyrics)
                &&& is_json_of(c.args@[20]@, song.extra@)
            },
    {
        let extra_json = match map_to_json(&song.extra) {
            Ok(s) => s,
            Err(e) => {
                return Err(json_error_text(&e));
            },
        };
        let mut args: Vec<String> = Vec::new();
        args.push(owned("download"));
        args.push(owned("--id"));
        args.push(song.id.clone());
        args.push(owned("--source"));
        args.push(song.source.clone());
        args.push(owned("--name"));
        args.push(song.name.clone());
        args.push(owned("--artist"));
        args.push(song.artist.clone());
        args.push(owned("--album"));
        args.push(song.album.clone());
        args.push(owned("--cover-url"));
        args.push(song.cover.clone());
        args.push(owned("--url"));
        args.push(song.url.clone());
        let mut c = owned("--cover=");
        push_str(&mut c, if cover {
            "true"
        } else {
            "false"
        });
        args.push(c);
        let mut l = owned("--lyrics=");
        push_str(&mut l, if lyrics {
            "true"
        } else {
            "false"
        });
        args.push(l);
        args.push(owned("--outdir"));
        args.push(owned(out_dir));
        args.push(owned("--extra"));
        args.push(extra_json);
        proof {
            assert(strings_view(args@).take(20) =~= download_args(*song, out_dir@, cover, lyrics));
        }
        Ok(
            HelperCall {
                program: self.helper_path.clone(),
                args,
                cookies_json: self.source_cookies_json.clone(),
            },
        )
    }

    /// The message for a helper that exited with failure (see [`failure_text`]).
    pub fn failure_message(stdout: &[u8], stderr: &[u8], status: &str) -> (r: String)
        ensures
            r@ == failure_text(stdout@, stderr@, status@),
    {
        let e = trim_chars(&str_chars(lossy_text(stderr).as_str()));
        let o = trim_chars(&str_chars(lossy_text(stdout).as_str()));
        let detail = if e.len() > 0 {
            e
        } else {
            o
        };
        if detail.len() == 0 {
            let mut r = owned("helper exited with status ");
            push_str(&mut r, status);
            r
        } else {
            string_from(&detail)
        }
    }

    /// The message for a helper answer that is not the expected JSON.
    pub fn invalid_json_message(error: &str, stdout: &[u8]) -> (r: String)
        ensures
            r@ == "invalid helper JSON: "@ + error@ + "; body="@ + utf8_lossy(stdout@),
    {
        let mut r = owned("invalid helper JSON: ");
        push_str(&mut r, error);
        push_str(&mut r, "; body=");
        let body = lossy_text(stdout);
        push_str(&mut r, body.as_str());
        r
    }

    /// The outcome of a search from the helper's answer.
    pub fn search_result(response: SearchResponse) -> (r: SearchResult)
        ensures
            r.songs == response.songs,
            r.warnings == response.warnings,
    {
        SearchResult { songs: response.songs, warnings: response.warnings }
    }
}

/// Law: the download's 16th and 17th arguments are `--cover=true` or `--cover=false`
/// after the cover flag alone, and `--lyrics=true` or `--lyrics=false` after the lyrics
/// flag alone; the other arguments depend on neither flag.
pub proof fn lemma_download_flags(song: RemoteSong, out_dir: Seq<char>, cover: bool, lyrics: bool)
    ensures
        download_args(song, out_dir, cover, lyrics).len() == 20,
        download_args(song, out_dir, cover, lyrics)[15] == (if cover {
            "--cover=true"@
        } else {
            "--cover=false"@
        }),
        download_args(song, out_dir, cover, lyrics)[16] == (if lyrics {
            "--lyrics=true"@
        } else {
            "--lyrics=false"@
        }),
        forall|i: int|
            0 <= i < 20 && i != 15 && i != 16 ==> #[trigger] download_args(
                song,
                out_dir,
                cover,
                lyrics,
            )[i] == download_args(song, out_dir, false, false)[i],
{
    reveal_strlit("--cover=");
    reveal_strlit("--lyrics=");
    reveal_strlit("true");
    reveal_strlit("false");
    reveal_strlit("--cover=true");
    reveal_strlit("--cover=false");
    reveal_strlit("--lyrics=true");
    reveal_strlit("--lyrics=false");
    assert(("--cover="@ + "true"@) =~= "--cover=true"@);
    assert(("--cover="@ + "false"@) =~= "--cover=false"@);
    assert(("--lyrics="@ + "true"@) =~= "--lyrics=true"@);
    assert(("--lyrics="@ + "false"@) =~= "--lyrics=false"@);
}

} // verus!
