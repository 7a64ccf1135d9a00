//! The library's model of file paths.
//!
//! A path is a string of components separated by `/`. As in
//! `std::path::Path`, trailing `/`s and trailing `.` components are not
//! part of the path's last component (`a/b/` and `a/b/.` end in `b`). The
//! file name is the text after the last `/` of what is left, unless that
//! text is empty, `.` or `..`, in which case the path has no file name. Extension and stem split the file name at
//! its last `.` as `std::path::Path` does: a name with no `.`, or whose only
//! `.` is its first character, has no extension.

use vstd::prelude::*;
use crate::text::{chars_of, concat2, concat3, slice_chars, string_from_chars, to_owned_string};

verus! {

/// The index of the last occurrence of `c` in `s`, or -1.
pub open spec fn last_index_of(s: Seq<char>, c: char) -> int
    decreases s.len(),
{
    if s.len() == 0 {
        -1
    } else if s.last() == c {
        s.len() - 1
    } else {
        last_index_of(s.drop_last(), c)
    }
}

pub proof fn lemma_last_index_of_bounds(s: Seq<char>, c: char)
    ensures
        -1 <= last_index_of(s, c) < s.len(),
        last_index_of(s, c) >= 0 ==> s[last_index_of(s, c)] == c,
        forall|j: int| last_index_of(s, c) < j < s.len() ==> s[j] != c,
    decreases s.len(),
{
    if s.len() > 0 && s.last() != c {
        lemma_last_index_of_bounds(s.drop_last(), c);
        assert forall|j: int| last_index_of(s, c) < j < s.len() implies s[j] != c by {
            if j < s.len() - 1 {
                assert(s.drop_last()[j] == s[j]);
            }
        }
    }
}

/// The index of the last occurrence of `c` in `s`.
pub fn find_last(s: &[char], c: char) -> (res: Option<usize>)
    ensures
        match res {
            Some(i) => i as int == last_index_of(s@, c),
            None => last_index_of(s@, c) == -1,
        },
{
    let mut k: usize = s.len();
    proof {
        assert(s@.subrange(0, k as int) =~= s@);
    }
    while k > 0
        invariant
            k <= s@.len(),
            last_index_of(s@, c) == last_index_of(s@.subrange(0, k as int), c),
        decreases k,
    {
        if s[k - 1] == c {
            return Some(k - 1);
        }
        proof {
            assert(s@.subrange(0, k as int).drop_last() =~= s@.subrange(0, k - 1));
        }
        k = k - 1;
    }
    None
}

/// `p` without its trailing `/`s and trailing `.` components (a path of
/// one character is kept).
pub open spec fn trim_tail(p: Seq<char>) -> Seq<char>
    decreases p.len(),
{
    if p.len() >= 2 && p.last() == '/' {
        trim_tail(p.drop_last())
    } else if p.len() >= 2 && p.last() == '.' && p[p.len() - 2] == '/' {
        trim_tail(p.drop_last())
    } else {
        p
    }
}

/// `trim_tail(p)` is a prefix of `p`.
pub proof fn lemma_trim_tail_prefix(p: Seq<char>)
    ensures
        trim_tail(p).len() <= p.len(),
        trim_tail(p) == p.subrange(0, trim_tail(p).len() as int),
    decreases p.len(),
{
    if (p.len() >= 2 && p.last() == '/') || (p.len() >= 2 && p.last() == '.' && p[p.len() - 2]
        == '/') {
        lemma_trim_tail_prefix(p.drop_last());
        assert(p.drop_last().subrange(0, trim_tail(p).len() as int) =~= p.subrange(
            0,
            trim_tail(p).len() as int,
        ));
    } else {
        assert(p.subrange(0, p.len() as int) =~= p);
    }
}

/// Where the file name of `p` starts: just after the last `/` before its
/// trailing separators.
pub open spec fn name_start(p: Seq<char>) -> int {
    last_index_of(trim_tail(p), '/') + 1
}

/// The last component of `p`, which may be empty.
pub open spec fn last_component(p: Seq<char>) -> Seq<char> {
    trim_tail(p).subrange(name_start(p), trim_tail(p).len() as int)
}

/// The file name of `p` (`Path::file_name`).
pub open spec fn spec_file_name(p: Seq<char>) -> Option<Seq<char>> {
    let name = last_component(p);
    if name.len() == 0 || name == seq!['.'] || name == seq!['.', '.'] {
        None
    } else {
        Some(name)
    }
}

/// Where the extension's dot is in a file name, if it has one.
pub open spec fn dot_index(name: Seq<char>) -> int {
    last_index_of(name, '.')
}

/// The extension of a file name, if any.
pub open spec fn name_extension(name: Seq<char>) -> Option<Seq<char>> {
    if dot_index(name) <= 0 {
        None
    } else {
        Some(name.subrange(dot_index(name) + 1, name.len() as int))
    }
}

/// The stem of a file name: the name before the extension's dot.
pub open spec fn name_stem(name: Seq<char>) -> Seq<char> {
    if dot_index(name) <= 0 {
        name
    } else {
        name.subrange(0, dot_index(name))
    }
}

/// The extension of `p` (`Path::extension`).
pub open spec fn spec_extension(p: Seq<char>) -> Option<Seq<char>> {
    match spec_file_name(p) {
        Some(name) => name_extension(name),
        None => None,
    }
}

/// The stem of `p` (`Path::file_stem`).
pub open spec fn spec_file_stem(p: Seq<char>) -> Option<Seq<char>> {
    match spec_file_name(p) {
        Some(name) => Some(name_stem(name)),
        None => None,
    }
}

/// The extension of `p`, or the empty text when it has none.
pub open spec fn spec_extension_or_empty(p: Seq<char>) -> Seq<char> {
    match spec_extension(p) {
        Some(e) => e,
        None => Seq::empty(),
    }
}

/// `rel` appended to `base` (`Path::join`): an absolute `rel` replaces
/// `base`; otherwise a `/` separates them unless `base` is empty or already
/// ends with one.
pub open spec fn spec_join(base: Seq<char>, rel: Seq<char>) -> Seq<char> {
    if rel.len() > 0 && rel[0] == '/' {
        rel
    } else if base.len() == 0 || base.last() == '/' {
        base + rel
    } else {
        base + seq!['/'] + rel
    }
}

/// `p` with its extension replaced by `ext` (`Path::with_extension`): the
/// text after the file stem (trailing separators included) is dropped, and `.ext` appended unless `ext` is
/// empty. A path with no file name is returned unchanged.
pub open spec fn spec_with_extension(p: Seq<char>, ext: Seq<char>) -> Seq<char> {
    match spec_file_name(p) {
        Some(name) => {
            let kept = trim_tail(p).subrange(0, name_start(p) + name_stem(name).len());
            if ext.len() == 0 {
                kept
            } else {
                kept + seq!['.'] + ext
            }
        },
        None => p,
    }
}

/// The length of `trim_tail(p)`.
fn tail_end(p: &[char]) -> (res: usize)
    ensures
        res == trim_tail(p@).len(),
        res <= p@.len(),
{
    let mut e: usize = p.len();
    proof {
        assert(p@.subrange(0, e as int) =~= p@);
    }
    loop
        invariant
            e <= p@.len(),
            trim_tail(p@) == trim_tail(p@.subrange(0, e as int)),
        decreases e,
    {
        let ghost q = p@.subrange(0, e as int);
        if e >= 2 && (p[e - 1] == '/' || (p[e - 1] == '.' && p[e - 2] == '/')) {
            proof {
                assert(q.drop_last() =~= p@.subrange(0, e - 1));
            }
            e = e - 1;
        } else {
            proof {
                lemma_trim_tail_prefix(p@);
            }
            return e;
        }
    }
}

/// For a path with an extension and no trailing separator, putting back its
/// own extension followed by a non-empty `suffix` appends `suffix`.
pub proof fn lemma_with_own_extension(p: Seq<char>, suffix: Seq<char>)
    requires
        spec_extension(p) is Some,
        trim_tail(p) == p,
        suffix.len() > 0,
    ensures
        spec_with_extension(p, spec_extension_or_empty(p) + suffix) == p + suffix,
{
    let name = spec_file_name(p)->0;
    let s = name_start(p);
    lemma_last_index_of_bounds(p, '/');
    lemma_last_index_of_bounds(name, '.');
    let d = dot_index(name);
    let e = name.subrange(d + 1, name.len() as int);
    assert(name == p.subrange(s, p.len() as int));
    assert(spec_extension_or_empty(p) == e);
    let kept = p.subrange(0, s + name_stem(name).len());
    assert(name_stem(name) == name.subrange(0, d));
    assert(kept == p.subrange(0, s + d));
    assert(p[s + d] == name[d]);
    assert((e + suffix).len() > 0);
    assert(spec_with_extension(p, e + suffix) == kept + seq!['.'] + (e + suffix));
    assert(e =~= p.subrange(s + d + 1, p.len() as int));
    assert(p =~= kept + seq!['.'] + e);
    assert(spec_with_extension(p, e + suffix) =~= p + suffix);
}

/// The characters of `p` up to its trailing separators.
fn trimmed_chars(p: &[char]) -> (res: Vec<char>)
    ensures
        res@ == trim_tail(p@),
{
    let e = tail_end(p);
    proof {
        lemma_trim_tail_prefix(p@);
    }
    slice_chars(p, 0, e)
}

/// The characters of `p` from the start of its file name.
fn last_component_chars(p: &[char]) -> (res: Vec<char>)
    ensures
        res@ == last_component(p@),
{
    let t = trimmed_chars(p);
    proof {
        lemma_last_index_of_bounds(t@, '/');
    }
    let n = t.len();
    let start = match find_last(t.as_slice(), '/') {
        Some(i) => i + 1,
        None => 0,
    };
    slice_chars(t.as_slice(), start, n)
}

/// Whether a component is empty, `.` or `..`.
fn is_special_component(name: &[char]) -> (res: bool)
    ensures
        res == (name@.len() == 0 || name@ == seq!['.'] || name@ == seq!['.', '.']),
{
    if name.len() == 0 {
        return true;
    }
    if name.len() == 1 {
        let r = name[0] == '.';
        proof {
            if r {
                assert(name@ =~= seq!['.']);
            }
        }
        return r;
    }
    if name.len() == 2 {
        let r = name[0] == '.' && name[1] == '.';
        proof {
            if r {
                assert(name@ =~= seq!['.', '.']);
            }
        }
        return r;
    }
    false
}

/// The file name of `p`, as characters.
pub fn file_name_chars(p: &[char]) -> (res: Option<Vec<char>>)
    ensures
        match res {
            Some(v) => spec_file_name(p@) == Some(v@),
            None => spec_file_name(p@) is None,
        },
{
    let name = last_component_chars(p);
    if is_special_component(name.as_slice()) {
        None
    } else {
        Some(name)
    }
}

/// The position of the extension's dot in a file name, when it has one.
fn dot_position(name: &[char]) -> (res: Option<usize>)
    ensures
        match res {
            Some(i) => i as int == dot_index(name@) && i > 0,
            None => dot_index(name@) <= 0,
        },
{
    match find_last(name, '.') {
        Some(i) => if i == 0 {
            None
        } else {
            Some(i)
        },
        None => None,
    }
}

/// The file name of `p` (`Path::file_name`).
pub fn file_name(p: &str) -> (res: Option<String>)
    ensures
        match res {
            Some(s) => spec_file_name(p@) == Some(s@),
            None => spec_file_name(p@) is None,
        },
{
    let pc = chars_of(p);
    match file_name_chars(pc.as_slice()) {
        Some(n) => Some(string_from_chars(n.as_slice())),
        None => None,
    }
}

/// The extension of `p` (`Path::extension`).
pub fn extension(p: &str) -> (res: Option<String>)
    ensures
        match res {
            Some(s) => spec_extension(p@) == Some(s@),
            None => spec_extension(p@) is None,
        },
{
    let pc = chars_of(p);
    match file_name_chars(pc.as_slice()) {
        Some(name) => {
            proof {
                lemma_last_index_of_bounds(name@, '.');
            }
            let nl = name.len();
            match dot_position(name.as_slice()) {
                Some(i) => {
                    let e = slice_chars(name.as_slice(), i + 1, nl);
                    Some(string_from_chars(e.as_slice()))
                },
                None => None,
            }
        },
        None => None,
    }
}

/// The extension of `p`, or the empty string when it has none.
pub fn extension_or_empty(p: &str) -> (res: String)
    ensures
        res@ == spec_extension_or_empty(p@),
{
    match extension(p) {
        Some(e) => e,
        None => String::new(),
    }
}

/// The stem of a file name, as characters.
fn stem_chars(name: &[char]) -> (res: Vec<char>)
    ensures
        res@ == name_stem(name@),
{
    proof {
        lemma_last_index_of_bounds(name@, '.');
    }
    match dot_position(name) {
        Some(i) => slice_chars(name, 0, i),
        None => {
            proof {
                assert(name@.subrange(0, name@.len() as int) =~= name@);
            }
            slice_chars(name, 0, name.len())
        },
    }
}

/// The stem of `p` (`Path::file_stem`).
pub fn file_stem(p: &str) -> (res: Option<String>)
    ensures
        match res {
            Some(s) => spec_file_stem(p@) == Some(s@),
            None => spec_file_stem(p@) is None,
        },
{
    let pc = chars_of(p);
    match file_name_chars(pc.as_slice()) {
        Some(name) => {
            let st = stem_chars(name.as_slice());
            Some(string_from_chars(st.as_slice()))
        },
        None => None,
    }
}

/// `rel` appended to `base` (`Path::join`).
pub fn join(base: &str, rel: &str) -> (res: String)
    ensures
        res@ == spec_join(base@, rel@),
{
    let bc = chars_of(base);
    let rc = chars_of(rel);
    if rc.len() > 0 && rc[0] == '/' {
        return to_owned_string(rel);
    }
    proof {
        reveal_strlit("/");
    }
    if bc.len() == 0 || bc[bc.len() - 1] == '/' {
        concat2(base, rel)
    } else {
        concat3(base, "/", rel)
    }
}

/// `p` with its extension replaced by `ext` (`Path::with_extension`).
pub fn with_extension(p: &str, ext: &str) -> (res: String)
    ensures
        res@ == spec_with_extension(p@, ext@),
{
    let pc = chars_of(p);
    let tc = trimmed_chars(pc.as_slice());
    let n = tc.len();
    proof {
        lemma_last_index_of_bounds(tc@, '/');
        reveal_strlit(".");
    }
    match file_name_chars(pc.as_slice()) {
        Some(name) => {
            let start = match find_last(tc.as_slice(), '/') {
                Some(i) => i + 1,
                None => 0,
            };
            let st = stem_chars(name.as_slice());
            proof {
                lemma_last_index_of_bounds(name@, '.');
                assert(name@ == last_component(p@));
                assert(st@.len() <= name@.len());
                assert(name@.len() == n - start);
            }
            let kept = slice_chars(tc.as_slice(), 0, start + st.len());
            let kept_s = string_from_chars(kept.as_slice());
            if ext.is_empty() {
                kept_s
            } else {
                concat3(kept_s.as_str(), ".", ext)
            }
        },
        None => to_owned_string(p),
    }
}

} // verus!
