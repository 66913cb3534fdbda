//! Plain-string path manipulation: joining components, taking a filename's
//! stem, and deriving a library name from a library file path.

use vstd::prelude::*;
use crate::platform::{is_sep, main_sep, spec_is_sep, spec_main_sep, Platform};
use crate::text::{chars_to_string, str_chars, subvec};

verus! {

/// `file` appended to `dir`, with a separator between them unless `dir` is
/// empty or already ends with one.
pub open spec fn join_path_spec(dir: Seq<char>, file: Seq<char>, p: Platform) -> Seq<char> {
    if dir.len() == 0 {
        file
    } else if spec_is_sep(dir.last(), p) {
        dir + file
    } else {
        dir.push(spec_main_sep(p)) + file
    }
}

/// Joins a filename (or filename pattern) to a directory.
pub fn join_path(dir: &str, file: &str, p: Platform) -> (r: String)
    ensures
        r@ == join_path_spec(dir@, file@, p),
{
    let d = str_chars(dir);
    let f = str_chars(file);
    let mut out: Vec<char> = d;
    if out.len() > 0 && !is_sep(out[out.len() - 1], p) {
        out.push(main_sep(p));
    }
    let mut i: usize = 0;
    while i < f.len()
        invariant
            i <= f@.len(),
            out@ == join_path_spec(dir@, f@.take(i as int), p)
                || (dir@.len() == 0 && out@ == f@.take(i as int)),
        decreases f@.len() - i,
    {
        out.push(f[i]);
        proof {
            assert(f@.take(i as int).push(f@[i as int]) =~= f@.take(i + 1));
            if dir@.len() > 0 {
                if spec_is_sep(dir@.last(), p) {
                    assert((dir@ + f@.take(i as int)).push(f@[i as int]) =~= dir@ + f@.take(
                        i + 1,
                    ));
                } else {
                    assert((dir@.push(spec_main_sep(p)) + f@.take(i as int)).push(f@[i as int])
                        =~= dir@.push(spec_main_sep(p)) + f@.take(i + 1));
                }
            }
        }
        i += 1;
    }
    proof {
        assert(f@.take(f@.len() as int) =~= f@);
        if dir@.len() > 0 && spec_is_sep(dir@.last(), p) {
            assert(dir@ + f@.take(0) =~= dir@);
        } else if dir@.len() > 0 {
            assert(dir@.push(spec_main_sep(p)) + f@.take(0) =~= dir@.push(spec_main_sep(p)));
        }
    }
    chars_to_string(&out)
}

/// `s` without its trailing path separators.
pub open spec fn strip_trailing_seps(s: Seq<char>, p: Platform) -> Seq<char>
    decreases s.len(),
{
    if s.len() > 0 && spec_is_sep(s.last(), p) {
        strip_trailing_seps(s.drop_last(), p)
    } else {
        s
    }
}

/// The characters of `s` after its last path separator.
pub open spec fn after_last_sep(s: Seq<char>, p: Platform) -> Seq<char>
    decreases s.len(),
{
    if s.len() == 0 {
        s
    } else if spec_is_sep(s.last(), p) {
        Seq::<char>::empty()
    } else {
        after_last_sep(s.drop_last(), p).push(s.last())
    }
}

/// The last path component is the tail after the last separator.
proof fn lemma_after_last_sep(s: Seq<char>, lo: int, p: Platform)
    requires
        0 <= lo <= s.len(),
        forall|k: int| lo <= k < s.len() ==> !spec_is_sep(s[k], p),
        lo > 0 ==> spec_is_sep(s[lo - 1], p),
    ensures
        after_last_sep(s, p) == s.skip(lo),
    decreases s.len(),
{
    if s.len() == 0 {
        assert(s.skip(0) =~= s);
    } else if spec_is_sep(s.last(), p) {
        assert(lo == s.len());
        assert(s.skip(lo) =~= Seq::<char>::empty());
    } else if lo == s.len() {
        assert(s.skip(lo) =~= Seq::<char>::empty());
        assert(false);
    } else {
        lemma_after_last_sep(s.drop_last(), lo, p);
        assert(s.drop_last().skip(lo).push(s.last()) =~= s.skip(lo));
    }
}

/// Scanning off trailing separators reaches `strip_trailing_seps`.
proof fn lemma_strip_take(s: Seq<char>, hi: int, p: Platform)
    requires
        0 <= hi <= s.len(),
        forall|k: int| hi <= k < s.len() ==> spec_is_sep(s[k], p),
        hi > 0 ==> !spec_is_sep(s[hi - 1], p),
    ensures
        strip_trailing_seps(s, p) == s.take(hi),
    decreases s.len(),
{
    if hi == s.len() {
        if s.len() > 0 && spec_is_sep(s.last(), p) {
            assert(false);
        }
        assert(s.take(hi) =~= s);
    } else {
        lemma_strip_take(s.drop_last(), hi, p);
        assert(s.drop_last().take(hi) =~= s.take(hi));
    }
}

/// The position of the last occurrence of `c` in `s`, if any.
pub open spec fn find_last(s: Seq<char>, c: char) -> Option<int>
    decreases s.len(),
{
    if s.len() == 0 {
        None
    } else if s.last() == c {
        Some(s.len() - 1)
    } else {
        find_last(s.drop_last(), c)
    }
}

/// The last occurrence of `c` in `v` strictly before position `j`.
fn find_last_before(v: &Vec<char>, c: char, j: usize) -> (r: Option<usize>)
    requires
        j <= v@.len(),
    ensures
        match r {
            Some(i) => Some(i as int) == find_last(v@.take(j as int), c),
            None => find_last(v@.take(j as int), c) is None,
        },
    decreases j,
{
    if j == 0 {
        None
    } else if v[j - 1] == c {
        Some(j - 1)
    } else {
        proof {
            assert(v@.take(j as int).drop_last() =~= v@.take(j - 1));
        }
        find_last_before(v, c, j - 1)
    }
}

/// A found last position is in range, and holds the character.
pub proof fn lemma_find_last_bound(s: Seq<char>, c: char)
    ensures
        match find_last(s, c) {
            Some(i) => 0 <= i < s.len() && s[i] == c,
            None => true,
        },
    decreases s.len(),
{
    if s.len() == 0 {
    } else if s.last() == c {
    } else {
        lemma_find_last_bound(s.drop_last(), c);
    }
}

/// The stem of a filename: the part before the final dot, unless the only
/// dot is a leading one.
pub open spec fn stem_of(comp: Seq<char>) -> Seq<char> {
    match find_last(comp, '.') {
        Some(i) => if i >= 1 {
            comp.take(i)
        } else {
            comp
        },
        None => comp,
    }
}

/// The file stem of `path`: the stem of its last component, or nothing for
/// an empty last component or a relative `.`/`..` one.
pub open spec fn file_stem_spec(path: Seq<char>, p: Platform) -> Option<Seq<char>> {
    let comp = after_last_sep(strip_trailing_seps(path, p), p);
    if comp.len() == 0 || comp =~= seq!['.'] || comp =~= seq!['.', '.'] {
        None
    } else {
        Some(stem_of(comp))
    }
}

/// The last path component of `v` (with trailing separators stripped),
/// as a range.
fn component_bounds(v: &Vec<char>, p: Platform) -> (r: (usize, usize))
    ensures
        r.0 <= r.1 <= v@.len(),
        strip_trailing_seps(v@, p) == v@.take(r.1 as int),
        v@.subrange(r.0 as int, r.1 as int) == after_last_sep(
            strip_trailing_seps(v@, p),
            p,
        ),
{
    let n = v.len();
    let mut hi: usize = n;
    while hi > 0 && is_sep(v[hi - 1], p)
        invariant
            hi <= n,
            n == v@.len(),
            forall|k: int| hi <= k < n ==> spec_is_sep(v@[k], p),
        decreases hi,
    {
        hi -= 1;
    }
    proof {
        lemma_strip_take(v@, hi as int, p);
    }
    let mut lo: usize = hi;
    while lo > 0 && !is_sep(v[lo - 1], p)
        invariant
            lo <= hi <= n,
            n == v@.len(),
            forall|k: int| lo <= k < hi ==> !spec_is_sep(v@[k], p),
        decreases lo,
    {
        lo -= 1;
    }
    proof {
        let stripped = v@.take(hi as int);
        assert(forall|k: int| lo <= k < stripped.len() ==> !spec_is_sep(stripped[k], p));
        lemma_after_last_sep(stripped, lo as int, p);
        assert(stripped.skip(lo as int) =~= v@.subrange(lo as int, hi as int));
    }
    (lo, hi)
}

/// Returns the file stem of the supplied path, if it has one.
pub fn file_stem(path: &str, p: Platform) -> (r: Option<String>)
    ensures
        match r {
            Some(s) => Some(s@) == file_stem_spec(path@, p),
            None => file_stem_spec(path@, p) is None,
        },
{
    let v = str_chars(path);
    let (lo, hi) = component_bounds(&v, p);
    let comp = subvec(&v, lo, hi);
    let ghost spec_comp = after_last_sep(strip_trailing_seps(path@, p), p);
    if comp.len() == 0 {
        return None;
    }
    if comp.len() == 1 && comp[0] == '.' {
        proof {
            assert(spec_comp =~= seq!['.']);
        }
        return None;
    }
    if comp.len() == 2 && comp[0] == '.' && comp[1] == '.' {
        proof {
            assert(spec_comp =~= seq!['.', '.']);
        }
        return None;
    }
    proof {
        assert(!(spec_comp =~= seq!['.']) && !(spec_comp =~= seq!['.', '.']));
    }
    let clen = comp.len();
    proof {
        assert(comp@.take(clen as int) =~= comp@);
        lemma_find_last_bound(comp@, '.');
    }
    let end = match find_last_before(&comp, '.', clen) {
        Some(i) => if i >= 1 {
            i
        } else {
            clen
        },
        None => clen,
    };
    proof {
        assert(comp@.take(clen as int) =~= comp@);
        assert(comp@.take(end as int) =~= spec_comp.take(end as int));
    }
    let out = subvec(&comp, 0, end);
    proof {
        assert(out@ =~= comp@.take(end as int));
    }
    Some(chars_to_string(&out))
}

/// The path without its last component (and without the separators around
/// it).
pub open spec fn parent_spec(path: Seq<char>, p: Platform) -> Seq<char> {
    let stripped = strip_trailing_seps(path, p);
    let comp = after_last_sep(stripped, p);
    strip_trailing_seps(stripped.take(stripped.len() - comp.len()), p)
}

/// Returns the path without its last component.
pub fn parent_dir(path: &str, p: Platform) -> (r: String)
    ensures
        r@ == parent_spec(path@, p),
{
    let v = str_chars(path);
    let (lo, _hi) = component_bounds(&v, p);
    proof {
        let stripped = strip_trailing_seps(path@, p);
        let comp = after_last_sep(stripped, p);
        assert(comp.len() == stripped.len() - lo);
        assert(stripped.take(stripped.len() - comp.len()) =~= v@.take(lo as int));
    }
    let mut lo2: usize = lo;
    while lo2 > 0 && is_sep(v[lo2 - 1], p)
        invariant
            lo2 <= lo <= v@.len(),
            forall|k: int| lo2 <= k < lo ==> spec_is_sep(v@[k], p),
        decreases lo2,
    {
        lo2 -= 1;
    }
    proof {
        let prefix = v@.take(lo as int);
        assert(forall|k: int| lo2 <= k < prefix.len() ==> spec_is_sep(prefix[k], p));
        lemma_strip_take(prefix, lo2 as int, p);
        assert(prefix.take(lo2 as int) =~= v@.take(lo2 as int));
    }
    let out = subvec(&v, 0, lo2);
    proof {
        assert(out@ =~= v@.take(lo2 as int));
    }
    chars_to_string(&out)
}

/// The directories to probe for a searched directory: the directory
/// itself and, on Windows when it names a `lib` directory, the sibling
/// `bin` directory, where the loadable image usually lives.
pub open spec fn expand_directory_spec(dir: Seq<char>, p: Platform) -> Seq<Seq<char>> {
    if p is Windows && after_last_sep(strip_trailing_seps(dir, p), p) =~= seq!['l', 'i', 'b'] {
        seq![dir, join_path_spec(parent_spec(dir, p), "bin"@, p)]
    } else {
        seq![dir]
    }
}

/// Returns the directories to probe in place of `dir`.
pub fn expand_directory(dir: &str, p: Platform) -> (r: Vec<String>)
    ensures
        r@.len() == expand_directory_spec(dir@, p).len(),
        forall|k: int| 0 <= k < r@.len() ==> r@[k]@ == expand_directory_spec(dir@, p)[k],
{
    let mut r: Vec<String> = Vec::new();
    r.push(dir.to_owned());
    if matches!(p, Platform::Windows) {
        let v = str_chars(dir);
        let (lo, hi) = component_bounds(&v, p);
        let ghost comp = after_last_sep(strip_trailing_seps(dir@, p), p);
        if hi - lo == 3 && v[lo] == 'l' && v[lo + 1] == 'i' && v[lo + 2] == 'b' {
            proof {
                assert(comp =~= seq!['l', 'i', 'b']);
            }
            let parent = parent_dir(dir, p);
            r.push(join_path(parent.as_str(), "bin", p));
        } else {
            proof {
                assert(!(comp =~= seq!['l', 'i', 'b']));
            }
        }
    }
    r
}

/// The library name derived from a library file path: the file stem, with
/// a `lib` prefix removed.
pub open spec fn library_name_spec(path: Seq<char>, p: Platform) -> Option<Seq<char>> {
    match file_stem_spec(path, p) {
        None => None,
        Some(st) => Some(
            if st.len() >= 3 && st.subrange(0, 3) =~= seq!['l', 'i', 'b'] {
                st.skip(3)
            } else {
                st
            },
        ),
    }
}

/// Returns the name of a library from a path to such a library file.
pub fn get_library_name(path: &str, p: Platform) -> (r: Option<String>)
    ensures
        match r {
            Some(s) => Some(s@) == library_name_spec(path@, p),
            None => library_name_spec(path@, p) is None,
        },
{
    match file_stem(path, p) {
        None => None,
        Some(st) => {
            let v = str_chars(st.as_str());
            if v.len() >= 3 && v[0] == 'l' && v[1] == 'i' && v[2] == 'b' {
                proof {
                    assert(st@.subrange(0, 3) =~= seq!['l', 'i', 'b']);
                }
                let n = v.len();
                let out = subvec(&v, 3, n);
                proof {
                    assert(out@ =~= st@.skip(3));
                }
                Some(chars_to_string(&out))
            } else {
                proof {
                    if st@.len() >= 3 && st@.subrange(0, 3) =~= seq!['l', 'i', 'b'] {
                        assert(st@.subrange(0, 3)[0] == st@[0]);
                        assert(st@.subrange(0, 3)[1] == st@[1]);
                        assert(st@.subrange(0, 3)[2] == st@[2]);
                        assert(false);
                    }
                }
                Some(st)
            }
        },
    }
}

} // verus!
