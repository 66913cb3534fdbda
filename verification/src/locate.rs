//! Finding candidate library files: filename patterns, directory probing
//! through filesystem globs, and ranking the matches by the version tuple
//! in their filenames.

use vstd::prelude::*;
use vstd::string::StringExecFns;
use crate::paths::{join_path};
use crate::platform::{
    backup_case_insensitive, dll_prefix, dll_suffix, spec_dll_prefix, spec_dll_suffix,
    spec_uses_versioned_so, uses_versioned_so, Platform,
};
use crate::version::{
    filename_version_spec, lemma_lex_irreflexive, lemma_lex_less_trans, lemma_lex_trichotomy,
    lex_less, lex_less_vec, parse_filename_version,
};

verus! {

/// Relies on `glob::glob_with`: lists the paths on disk matching the
/// pattern, wildcards never crossing path separators.  What comes back
/// depends on the filesystem, so nothing is promised of it; a pattern that
/// does not compile gives `None`, and unreadable paths are dropped.
#[verifier::external_body]
pub(crate) fn glob_paths(pattern: &str, case_sensitive: bool) -> (r: Option<Vec<String>>) {
    let options = glob::MatchOptions {
        case_sensitive,
        require_literal_separator: true,
        require_literal_leading_dot: false,
    };
    match glob::glob_with(pattern, options) {
        Ok(paths) => Some(
            paths.filter_map(|p| p.ok()).map(|p| p.to_string_lossy().into_owned()).collect(),
        ),
        Err(_) => None,
    }
}

/// The filenames a shared `libclang` image may carry on platform `p`: the
/// platform's exact default name; on platforms whose distributions may
/// install only versioned files, a version-wildcarded name; and on
/// Windows, the name the official builds use.
pub open spec fn shared_library_files_spec(p: Platform) -> Seq<Seq<char>> {
    let base = seq![spec_dll_prefix(p) + "clang"@ + spec_dll_suffix(p)];
    let versioned = if spec_uses_versioned_so(p) {
        seq!["libclang.so.*"@]
    } else {
        Seq::<Seq<char>>::empty()
    };
    let alternate = if p is Windows {
        seq!["libclang.dll"@]
    } else {
        Seq::<Seq<char>>::empty()
    };
    base + versioned + alternate
}

/// The filename patterns to search for a shared `libclang` image.
pub fn shared_library_files(p: Platform) -> (r: Vec<String>)
    ensures
        r@.len() == shared_library_files_spec(p).len(),
        forall|k: int| 0 <= k < r@.len() ==> r@[k]@ == shared_library_files_spec(p)[k],
{
    let mut r: Vec<String> = Vec::new();
    let base = dll_prefix(p).to_owned().concat("clang").concat(dll_suffix(p));
    r.push(base);
    if uses_versioned_so(p) {
        r.push("libclang.so.*".to_owned());
    }
    if matches!(p, Platform::Windows) {
        r.push("libclang.dll".to_owned());
    }
    proof {
        assert forall|k: int| 0 <= k < r@.len() implies r@[k]@ == shared_library_files_spec(p)[k]
        by {
            assert(shared_library_files_spec(p)[k] == r@[k]@);
        }
    }
    r
}

/// The version tuples carried by a list of candidate paths.
pub open spec fn candidate_keys(ms: Seq<String>) -> Seq<Seq<u32>> {
    Seq::new(ms.len(), |k: int| filename_version_spec(ms[k]@))
}

/// The index of the best candidate: the one with the greatest version
/// tuple, ties going to the latest-listed.
pub open spec fn best_index(keys: Seq<Seq<u32>>) -> int
    decreases keys.len(),
{
    if keys.len() <= 1 {
        0int
    } else {
        let b = best_index(keys.drop_last());
        if !lex_less(keys.last(), keys[b]) {
            keys.len() - 1
        } else {
            b
        }
    }
}

/// The best candidate carries a version no smaller than any other, and is
/// the last of those carrying the greatest one.
pub proof fn lemma_best_index_props(keys: Seq<Seq<u32>>)
    requires
        keys.len() > 0,
    ensures
        0 <= best_index(keys) < keys.len(),
        forall|k: int| 0 <= k < keys.len() ==> !lex_less(keys[best_index(keys)], keys[k]),
        forall|k: int|
            best_index(keys) < k < keys.len() ==> lex_less(keys[k], keys[best_index(keys)]),
    decreases keys.len(),
{
    if keys.len() == 1 {
        lemma_lex_irreflexive(keys[0]);
    } else {
        let sub = keys.drop_last();
        lemma_best_index_props(sub);
        let b = best_index(sub);
        let last = keys.last();
        assert(sub[b] == keys[b]);
        if !lex_less(last, sub[b]) {
            assert(best_index(keys) == keys.len() - 1);
            assert forall|k: int| 0 <= k < keys.len() implies !lex_less(last, keys[k]) by {
                if k < keys.len() - 1 {
                    assert(sub[k] == keys[k]);
                    assert(!lex_less(keys[b], keys[k]));
                    if lex_less(last, keys[k]) {
                        lemma_lex_trichotomy(keys[b], keys[k]);
                        if keys[b] == keys[k] {
                        } else {
                            assert(lex_less(keys[k], keys[b]));
                            lemma_lex_less_trans(last, keys[k], keys[b]);
                        }
                        assert(false);
                    }
                } else {
                    lemma_lex_irreflexive(last);
                }
            }
        } else {
            assert(best_index(keys) == b);
            assert forall|k: int| 0 <= k < keys.len() implies !lex_less(keys[b], keys[k]) by {
                if k == keys.len() - 1 {
                    if lex_less(keys[b], last) {
                        lemma_lex_less_trans(last, keys[b], last);
                        lemma_lex_irreflexive(last);
                    }
                } else {
                    assert(sub[k] == keys[k]);
                    assert(!lex_less(keys[b], keys[k]));
                }
            }
            assert forall|k: int| b < k < keys.len() implies lex_less(keys[k], keys[b]) by {
                if k < keys.len() - 1 {
                    assert(sub[k] == keys[k]);
                }
            }
        }
    }
}

/// Picks the best of the matched candidate paths: version tuples are
/// compared lexicographically, the greatest wins, and among equals the
/// latest-enumerated wins.
pub fn best_match(ms: &Vec<String>) -> (r: Option<String>)
    ensures
        r is Some <==> ms@.len() > 0,
        r matches Some(s) ==> {
            &&& 0 <= best_index(candidate_keys(ms@)) < ms@.len()
            &&& s == ms@[best_index(candidate_keys(ms@))]
        },
{
    if ms.len() == 0 {
        return None;
    }
    let ghost keys = candidate_keys(ms@);
    proof {
        lemma_best_index_props(keys);
    }
    let mut best: usize = 0;
    let mut best_key = parse_filename_version(ms[0].as_str());
    let mut i: usize = 1;
    while i < ms.len()
        invariant
            1 <= i <= ms@.len(),
            best < i,
            keys == candidate_keys(ms@),
            best_key@ == keys[best as int],
            best as int == best_index(keys.take(i as int)),
        decreases ms@.len() - i,
    {
        let key = parse_filename_version(ms[i].as_str());
        proof {
            assert(keys.take(i + 1).drop_last() =~= keys.take(i as int));
            assert(keys.take(i + 1).last() == keys[i as int]);
        }
        if !lex_less_vec(&key, &best_key) {
            best = i;
            best_key = key;
        }
        i += 1;
    }
    proof {
        assert(keys.take(ms@.len() as int) =~= keys);
    }
    Some(ms[best].clone())
}

/// Returns the best-versioned path to one of the supplied files (or
/// filename patterns) present in the supplied directory, globbing the
/// filesystem case-sensitively, wildcards never crossing separators.
pub fn contains(directory: &str, files: &Vec<String>, p: Platform) -> (r: Option<String>) {
    let mut found: Vec<String> = Vec::new();
    let mut i: usize = 0;
    while i < files.len()
        decreases files@.len() - i,
    {
        let pattern = join_path(directory, files[i].as_str(), p);
        match glob_paths(pattern.as_str(), true) {
            Some(mut paths) => {
                found.append(&mut paths);
            },
            None => {},
        }
        i += 1;
    }
    best_match(&found)
}

/// Returns the paths on disk matching a filename pattern joined to the
/// supplied directory, in the order the filesystem glob yields them.
pub fn pattern_matches(directory: &str, pattern: &str, p: Platform) -> (r: Vec<String>) {
    let joined = join_path(directory, pattern, p);
    match glob_paths(joined.as_str(), true) {
        Some(paths) => paths,
        None => Vec::new(),
    }
}

/// Expands a backup directory glob pattern to the directories and files on
/// disk matching it, case-insensitively on Apple platforms.
pub fn expand_dirs(pattern: &str, p: Platform) -> (r: Vec<String>) {
    match glob_paths(pattern, !backup_case_insensitive(p)) {
        Some(paths) => paths,
        None => Vec::new(),
    }
}

} // verus!
