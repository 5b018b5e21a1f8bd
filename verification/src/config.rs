//! Settings: where music is kept, where the download helper is, which sources to
//! search, and where the settings file lives.
use std::collections::HashMap;

use vstd::prelude::*;

use crate::paths::{is_absolute, join_path, path_join};
use crate::text::{owned, str_chars};

verus! {

/// The settings of the player.
#[derive(Debug, Clone)]
pub struct AppConfig {
    pub music_dir: String,
    pub helper_path: String,
    pub default_sources: Vec<String>,
    pub embed_cover: bool,
    pub embed_lyrics: bool,
    pub source_cookies: HashMap<String, String>,
}

/// Number of music sources searched by default.
pub const DEFAULT_SOURCE_COUNT: usize = 7;

/// The music sources searched by default, in order.
pub open spec fn default_source(i: int) -> Seq<char> {
    if i == 0 {
        "netease"@
    } else if i == 1 {
        "qq"@
    } else if i == 2 {
        "kugou"@
    } else if i == 3 {
        "kuwo"@
    } else if i == 4 {
        "migu"@
    } else if i == 5 {
        "qianqian"@
    } else {
        "soda"@
    }
}

fn default_source_exec(i: usize) -> (s: &'static str)
    requires
        i < DEFAULT_SOURCE_COUNT,
    ensures
        s@ == default_source(i as int),
{
    if i == 0 {
        "netease"
    } else if i == 1 {
        "qq"
    } else if i == 2 {
        "kugou"
    } else if i == 3 {
        "kuwo"
    } else if i == 4 {
        "migu"
    } else if i == 5 {
        "qianqian"
    } else {
        "soda"
    }
}

/// File name of the download helper on the given kind of system.
pub open spec fn helper_binary(windows: bool) -> Seq<char> {
    if windows {
        "music-dl-helper.exe"@
    } else {
        "music-dl-helper"@
    }
}

/// File name of the download helper on the given kind of system.
pub fn helper_binary_name(windows: bool) -> (s: &'static str)
    ensures
        s@ == helper_binary(windows),
{
    if windows {
        "music-dl-helper.exe"
    } else {
        "music-dl-helper"
    }
}

/// The home directory: the value of `HOME`, or the current directory without one.
pub fn home_dir(home_var: Option<String>) -> (r: String)
    ensures
        r@ == match home_var {
            Some(h) => h@,
            None => "."@,
        },
{
    match home_var {
        Some(h) => h,
        None => owned("."),
    }
}

/// Where the settings file lives under the home directory.
pub open spec fn config_path_of(home: Seq<char>) -> Seq<char> {
    path_join(path_join(path_join(home, ".config"@), "music-tui"@), "config.toml"@)
}

/// Where the settings file lives under the home directory `home`.
pub fn config_path(home: &str) -> (r: String)
    ensures
        r@ == config_path_of(home@),
{
    let a = join_path(home, ".config");
    let b = join_path(a.as_str(), "music-tui");
    join_path(b.as_str(), "config.toml")
}

impl AppConfig {
    /// The settings used when no settings file exists: music under `~/Music`, the helper
    /// under `helper/`, all sources, covers and lyrics embedded, no cookies.
    pub fn default_with_home(home: &str, windows: bool) -> (c: AppConfig)
        ensures
            c.music_dir@ == path_join(home@, "Music"@),
            c.helper_path@ == path_join("helper"@, helper_binary(windows)),
            c.default_sources@.len() == DEFAULT_SOURCE_COUNT,
            forall|i: int|
                0 <= i < DEFAULT_SOURCE_COUNT ==> #[trigger] c.default_sources@[i]@
                    == default_source(i),
            c.embed_cover,
            c.embed_lyrics,
            c.source_cookies@ == Map::<String, String>::empty(),
    {
        let mut sources: Vec<String> = Vec::new();
        let mut i: usize = 0;
        while i < DEFAULT_SOURCE_COUNT
            invariant
                i <= DEFAULT_SOURCE_COUNT,
                sources@.len() == i,
                forall|k: int| 0 <= k < i ==> #[trigger] sources@[k]@ == default_source(k),
            decreases DEFAULT_SOURCE_COUNT - i,
        {
            sources.push(owned(default_source_exec(i)));
            i += 1;
        }
        AppConfig {
            music_dir: join_path(home, "Music"),
            helper_path: join_path("helper", helper_binary_name(windows)),
            default_sources: sources,
            embed_cover: true,
            embed_lyrics: true,
            source_cookies: HashMap::new(),
        }
    }
}

/// The places where a relative helper path is looked for, in order: under the current
/// directory, the build directory and the executable's directory, and two levels above
/// the executable's directory.  None for an absolute path.
pub open spec fn helper_candidate_paths(
    path: Seq<char>,
    cwd: Option<Seq<char>>,
    manifest_dir: Option<Seq<char>>,
    exe_dir: Option<Seq<char>>,
) -> Seq<Seq<char>> {
    if is_absolute(path) {
        Seq::empty()
    } else {
        let a = match cwd {
            Some(c) => seq![path_join(c, path)],
            None => Seq::empty(),
        };
        let b = match manifest_dir {
            Some(m) => seq![path_join(m, path)],
            None => Seq::empty(),
        };
        let c = match exe_dir {
            Some(e) => seq![path_join(e, path), path_join(path_join(path_join(e, ".."@), ".."@), path)],
            None => Seq::empty(),
        };
        a + b + c
    }
}

pub open spec fn opt_view(o: Option<&str>) -> Option<Seq<char>> {
    match o {
        Some(s) => Some(s@),
        None => None,
    }
}

/// The places where the helper is looked for (see [`helper_candidate_paths`]).
pub fn helper_candidates(
    path: &str,
    cwd: Option<&str>,
    manifest_dir: Option<&str>,
    exe_dir: Option<&str>,
) -> (r: Vec<String>)
    ensures
        r@.len() == helper_candidate_paths(
            path@,
            opt_view(cwd),
            opt_view(manifest_dir),
            opt_view(exe_dir),
        ).len(),
        forall|i: int|
            0 <= i < r@.len() ==> #[trigger] r@[i]@ == helper_candidate_paths(
                path@,
                opt_view(cwd),
                opt_view(manifest_dir),
                opt_view(exe_dir),
            )[i],
{
    let mut r: Vec<String> = Vec::new();
    let p = str_chars(path);
    if p.len() > 0 && p[0] == '/' {
        return r;
    }
    let ghost a = match opt_view(cwd) {
        Some(c) => seq![path_join(c, path@)],
        None => Seq::<Seq<char>>::empty(),
    };
    let ghost b = match opt_view(manifest_dir) {
        Some(m) => seq![path_join(m, path@)],
        None => Seq::<Seq<char>>::empty(),
    };
    let ghost c = match opt_view(exe_dir) {
        Some(e) => seq![
            path_join(e, path@),
            path_join(path_join(path_join(e, ".."@), ".."@), path@),
        ],
        None => Seq::<Seq<char>>::empty(),
    };
    if let Some(c0) = cwd {
        r.push(join_path(c0, path));
    }
    assert(r@.len() == a.len());
    assert(forall|i: int| 0 <= i < r@.len() ==> #[trigger] r@[i]@ == a[i]);
    if let Some(m) = manifest_dir {
        r.push(join_path(m, path));
    }
    assert(r@.len() == (a + b).len());
    assert(forall|i: int| 0 <= i < r@.len() ==> #[trigger] r@[i]@ == (a + b)[i]);
    if let Some(e) = exe_dir {
        r.push(join_path(e, path));
        let up = join_path(e, "..");
        let up2 = join_path(up.as_str(), "..");
        r.push(join_path(up2.as_str(), path));
    }
    assert(r@.len() == (a + b + c).len());
    assert(forall|i: int| 0 <= i < r@.len() ==> #[trigger] r@[i]@ == (a + b + c)[i]);
    r
}

/// The helper's path: the path itself when absolute, else the first candidate that
/// exists, else the path as given.
pub open spec fn resolved_helper(path: Seq<char>, checked: Seq<(Seq<char>, bool)>) -> Seq<char>
    decreases checked.len(),
{
    if is_absolute(path) || checked.len() == 0 {
        path
    } else if checked[0].1 {
        checked[0].0
    } else {
        resolved_helper(path, checked.drop_first())
    }
}

pub open spec fn checked_view(v: Seq<(String, bool)>) -> Seq<(Seq<char>, bool)> {
    v.map_values(|e: (String, bool)| (e.0@, e.1))
}

/// Chooses the helper's path among the candidates, each given with whether it exists.
pub fn resolve_helper_path(path: &str, checked: &Vec<(String, bool)>) -> (r: String)
    ensures
        r@ == resolved_helper(path@, checked_view(checked@)),
{
    let p = str_chars(path);
    if p.len() > 0 && p[0] == '/' {
        return owned(path);
    }
    let ghost cv = checked_view(checked@);
    let mut i: usize = 0;
    proof {
        assert(cv.skip(0) =~= cv);
    }
    while i < checked.len()
        invariant
            i <= checked.len(),
            !is_absolute(path@),
            cv == checked_view(checked@),
            resolved_helper(path@, cv) == resolved_helper(path@, cv.skip(i as int)),
        decreases checked.len() - i,
    {
        proof {
            assert(cv.skip(i as int)[0] == (checked@[i as int].0@, checked@[i as int].1));
            assert(cv.skip(i as int).drop_first() =~= cv.skip(i + 1));
        }
        if checked[i].1 {
            return checked[i].0.clone();
        }
        i += 1;
    }
    owned(path)
}

} // verus!
