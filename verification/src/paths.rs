//! Unix path strings: joining, the final component, its stem and its extension,
//! with the meaning that `std::path::Path` gives them.
use vstd::prelude::*;

use crate::text::{chars_eq, push_chars, slice_chars, split_chars, split_on, str_chars};

verus! {

/// A path is absolute when it starts at the root.
pub open spec fn is_absolute(p: Seq<char>) -> bool {
    p.len() > 0 && p[0] == '/'
}

/// `base` joined with `rel` (as `Path::join`): `rel` itself when absolute, else `rel`
/// after `base` with one separator between them.
pub open spec fn path_join(base: Seq<char>, rel: Seq<char>) -> Seq<char> {
    if is_absolute(rel) {
        rel
    } else if base.len() == 0 || base.last() == '/' {
        base + rel
    } else {
        base + seq!['/'] + rel
    }
}

pub open spec fn dot() -> Seq<char> {
    seq!['.']
}

pub open spec fn dot_dot() -> Seq<char> {
    seq!['.', '.']
}

/// The components of a path that name something: the pieces between separators,
/// without empty pieces and without `.`.
pub open spec fn path_parts(pieces: Seq<Seq<char>>) -> Seq<Seq<char>>
    decreases pieces.len(),
{
    if pieces.len() == 0 {
        Seq::empty()
    } else {
        let r = path_parts(pieces.drop_last());
        let p = pieces.last();
        if p.len() > 0 && p != dot() {
            r.push(p)
        } else {
            r
        }
    }
}

/// The final component of a path (as `Path::file_name`); none for the root, for `.`
/// and when the path ends in `..`.
pub open spec fn file_name(p: Seq<char>) -> Option<Seq<char>> {
    let parts = path_parts(split_on(p, '/'));
    if parts.len() == 0 || parts.last() == dot_dot() {
        None
    } else {
        Some(parts.last())
    }
}

/// Index of the last `c` in `s`, or -1.
pub open spec fn rfind_char(s: Seq<char>, c: char) -> int
    decreases s.len(),
{
    if s.len() == 0 {
        -1
    } else if s.last() == c {
        s.len() - 1
    } else {
        rfind_char(s.drop_last(), c)
    }
}

/// The stem of a file name: what comes before its last `.`, unless that dot is the
/// first character or there is none.
pub open spec fn name_stem(n: Seq<char>) -> Seq<char> {
    let k = rfind_char(n, '.');
    if k <= 0 {
        n
    } else {
        n.take(k)
    }
}

/// The extension of a file name: what comes after its last `.`, unless that dot is the
/// first character or there is none.
pub open spec fn name_extension(n: Seq<char>) -> Option<Seq<char>> {
    let k = rfind_char(n, '.');
    if k <= 0 {
        None
    } else {
        Some(n.skip(k + 1))
    }
}

/// `Path::file_stem`.
pub open spec fn file_stem(p: Seq<char>) -> Option<Seq<char>> {
    match file_name(p) {
        Some(n) => Some(name_stem(n)),
        None => None,
    }
}

/// `Path::extension`.
pub open spec fn extension(p: Seq<char>) -> Option<Seq<char>> {
    match file_name(p) {
        Some(n) => name_extension(n),
        None => None,
    }
}

proof fn lemma_rfind_char(s: Seq<char>, c: char)
    ensures
        -1 <= rfind_char(s, c) < s.len(),
        rfind_char(s, c) >= 0 ==> s[rfind_char(s, c)] == c,
        forall|j: int| rfind_char(s, c) < j < s.len() ==> s[j] != c,
    decreases s.len(),
{
    if s.len() > 0 && s.last() != c {
        let t = s.drop_last();
        lemma_rfind_char(t, c);
        assert forall|j: int| rfind_char(s, c) < j < s.len() implies s[j] != c by {
            if j < t.len() {
                assert(s[j] == t[j]);
            }
        }
    }
}

proof fn lemma_rfind_char_at(s: Seq<char>, c: char, k: int)
    requires
        -1 <= k < s.len(),
        k >= 0 ==> s[k] == c,
        forall|j: int| k < j < s.len() ==> s[j] != c,
    ensures
        rfind_char(s, c) == k,
    decreases s.len(),
{
    if s.len() > 0 && s.last() != c {
        lemma_rfind_char_at(s.drop_last(), c, k);
    }
}

/// One past the index of the last `c` in `v`, or 0 (see [`rfind_char`]).
fn rfind_char_end(v: &Vec<char>, c: char) -> (r: usize)
    ensures
        r == rfind_char(v@, c) + 1,
{
    let mut i = v.len();
    while i > 0 && v[i - 1] != c
        invariant
            i <= v.len(),
            forall|j: int| i <= j < v.len() ==> v@[j] != c,
        decreases i,
    {
        i -= 1;
    }
    proof {
        lemma_rfind_char_at(v@, c, i - 1);
    }
    i
}

/// `base` joined with `rel` (see [`path_join`]).
pub fn join_path(base: &str, rel: &str) -> (r: String)
    ensures
        r@ == path_join(base@, rel@),
{
    let b = str_chars(base);
    let x = str_chars(rel);
    let mut r = String::new();
    if x.len() > 0 && x[0] == '/' {
        push_chars(&mut r, &x);
        return r;
    }
    push_chars(&mut r, &b);
    if !(b.len() == 0 || b[b.len() - 1] == '/') {
        push_chars(&mut r, &vec!['/']);
    }
    push_chars(&mut r, &x);
    proof {
        if !(b@.len() == 0 || b@.last() == '/') {
            assert(b@ + seq!['/'] + x@ =~= b@ + seq!['/'] + x@);
        } else {
            assert(b@ + x@ =~= b@ + x@);
        }
    }
    r
}

/// The final component of a path (see [`file_name`]).
pub fn file_name_chars(p: &Vec<char>) -> (r: Option<Vec<char>>)
    ensures
        match file_name(p@) {
            Some(n) => r is Some && r.unwrap()@ == n,
            None => r is None,
        },
{
    let pieces = split_chars(p, '/');
    let ghost pv = split_on(p@, '/');
    let dot_v: Vec<char> = vec!['.'];
    let dot_dot_v: Vec<char> = vec!['.', '.'];
    let mut count: usize = 0;
    let mut last: Vec<char> = Vec::new();
    let mut k: usize = 0;
    proof {
        assert(pv.take(0) =~= Seq::<Seq<char>>::empty());
        assert(dot_v@ =~= dot());
        assert(dot_dot_v@ =~= dot_dot());
    }
    while k < pieces.len()
        invariant
            k <= pieces.len(),
            pieces@.len() == pv.len(),
            forall|q: int| 0 <= q < pv.len() ==> #[trigger] pieces@[q]@ == pv[q],
            dot_v@ == dot(),
            count == path_parts(pv.take(k as int)).len(),
            count > 0 ==> last@ == path_parts(pv.take(k as int)).last(),
            count <= k,
        decreases pieces.len() - k,
    {
        proof {
            assert(pv.take(k + 1).drop_last() =~= pv.take(k as int));
            assert(pv.take(k + 1).last() == pv[k as int]);
        }
        if pieces[k].len() > 0 && !chars_eq(&pieces[k], &dot_v) {
            last = slice_chars(&pieces[k], 0, pieces[k].len());
            count += 1;
            proof {
                assert(last@ =~= pv[k as int]);
            }
        }
        k += 1;
    }
    proof {
        assert(pv.take(pv.len() as int) =~= pv);
    }
    if count == 0 || chars_eq(&last, &dot_dot_v) {
        None
    } else {
        Some(last)
    }
}

/// Stem and extension of a file name (see [`name_stem`], [`name_extension`]).
pub fn split_name(n: &Vec<char>) -> (r: (Vec<char>, Option<Vec<char>>))
    ensures
        r.0@ == name_stem(n@),
        match name_extension(n@) {
            Some(e) => r.1 is Some && r.1.unwrap()@ == e,
            None => r.1 is None,
        },
{
    let e = rfind_char_end(n, '.');
    proof {
        lemma_rfind_char(n@, '.');
        assert(n@.take(n.len() as int) =~= n@);
    }
    if e <= 1 {
        (slice_chars(n, 0, n.len()), None)
    } else {
        let ku = e - 1;
        let ghost k = ku as int;
        let stem = slice_chars(n, 0, ku);
        let ext = slice_chars(n, ku + 1, n.len());
        proof {
            assert(stem@ =~= n@.take(k as int));
            assert(ext@ =~= n@.skip(k + 1));
        }
        (stem, Some(ext))
    }
}

} // verus!
