//! The companion `clang` executable: what is parsed out of its output,
//! the patterns and the order its search runs in, and the helpers that
//! read library names out of the helper tool's link-library report.
//! Running the executables, and reading `PATH`, stay outside; their
//! outputs are handed in as strings.

use vstd::prelude::*;
use crate::locate::glob_paths;
use crate::paths::{get_library_name, join_path, library_name_spec};
use crate::platform::{exe_suffix, spec_exe_suffix, Platform};
use crate::text::{
    chars_to_string, find_first, find_sub, remove_all, remove_all_sub, space_tokens, split_at_char,
    split_seq, str_chars, subvec, tokens_of, trim, trim_spec,
};
use crate::version::{parse_version_spec, CXVersion};
use vstd::string::StringExecFns;

verus! {

/// A line of clang's search-path report, without a Windows line ending.
pub open spec fn strip_cr(l: Seq<char>) -> Seq<char> {
    if l.len() > 0 && l.last() == '\r' {
        l.drop_last()
    } else {
        l
    }
}

/// The non-empty lines, each trimmed of surrounding whitespace.
pub open spec fn clean_lines(ps: Seq<Seq<char>>) -> Seq<Seq<char>>
    decreases ps.len(),
{
    if ps.len() == 0 {
        Seq::<Seq<char>>::empty()
    } else {
        let l0 = strip_cr(ps[0]);
        let rest = clean_lines(ps.skip(1));
        if l0.len() == 0 {
            rest
        } else {
            seq![trim_spec(l0)] + rest
        }
    }
}

/// The views of a list of strings.
pub open spec fn opt_list_views(o: Option<Vec<String>>) -> Option<Seq<Seq<char>>> {
    match o {
        Some(v) => Some(Seq::new(v@.len(), |i: int| v@[i]@)),
        None => None,
    }
}

/// The header search paths in the diagnostic output of a `clang` run: the
/// lines between the search-list markers, with framework annotations
/// removed, empty lines dropped and the rest trimmed.  Output without
/// both markers, in that order, has no report to parse.
pub open spec fn parse_search_paths_spec(out: Seq<char>) -> Option<Seq<Seq<char>>> {
    match find_first(out, "#include <...> search starts here:"@) {
        None => None,
        Some(i) => match find_first(out, "End of search list."@) {
            None => None,
            Some(j) => {
                let start = i + "#include <...> search starts here:"@.len();
                if j < start {
                    None
                } else {
                    let region = out.subrange(start as int, j);
                    let cleaned = remove_all(region, "(framework directory)"@);
                    Some(clean_lines(split_seq(cleaned, '\n')))
                }
            },
        },
    }
}

/// The cleaned lines, from piece `i` on.
fn clean_lines_from(pieces: &Vec<Vec<char>>, i: usize) -> (r: Vec<String>)
    requires
        i <= pieces@.len(),
    ensures
        r@.len() == clean_lines(Seq::new(pieces@.len(), |k: int| pieces@[k]@).skip(i as int)).len(),
        forall|k: int|
            0 <= k < r@.len() ==> r@[k]@ == clean_lines(
                Seq::new(pieces@.len(), |t: int| pieces@[t]@).skip(i as int),
            )[k],
    decreases pieces@.len() - i,
{
    let ghost all = Seq::new(pieces@.len(), |k: int| pieces@[k]@);
    let ghost tail = all.skip(i as int);
    if i == pieces.len() {
        Vec::new()
    } else {
        let mut rest = clean_lines_from(pieces, i + 1);
        proof {
            assert(tail.skip(1) =~= all.skip(i + 1));
            assert(tail[0] == pieces@[i as int]@);
        }
        let mut line = pieces[i].clone();
        proof {
            assert(line@ == pieces@[i as int]@);
        }
        if line.len() > 0 && line[line.len() - 1] == '\r' {
            line.pop();
            proof {
                assert(line@ =~= strip_cr(tail[0]));
            }
        } else {
            proof {
                assert(line@ =~= strip_cr(tail[0]));
            }
        }
        if line.len() > 0 {
            let trimmed = trim(&line);
            rest.insert(0, chars_to_string(&trimmed));
        }
        rest
    }
}

/// Parses the header search paths from the diagnostic output of a `clang`
/// executable if possible.
pub fn parse_search_paths(output: &str) -> (r: Option<Vec<String>>)
    ensures
        opt_list_views(r) == parse_search_paths_spec(output@),
{
    let chars = str_chars(output);
    let m1 = str_chars("#include <...> search starts here:");
    let m2 = str_chars("End of search list.");
    let i = match find_sub(&chars, &m1) {
        Some(i) => i,
        None => {
            return None;
        },
    };
    let j = match find_sub(&chars, &m2) {
        Some(j) => j,
        None => {
            return None;
        },
    };
    let total = chars.len();
    proof {
        crate::text::lemma_find_first_is_match(chars@, m1@);
        crate::text::lemma_find_first_is_match(chars@, m2@);
    }
    let start = i + m1.len();
    if j < start {
        return None;
    }
    let region = subvec(&chars, start, j);
    let framework = str_chars("(framework directory)");
    proof {
        reveal_strlit("(framework directory)");
    }
    let cleaned = remove_all_sub(&region, &framework);
    let pieces = split_at_char(&cleaned, '\n');
    let r = clean_lines_from(&pieces, 0);
    proof {
        let all = Seq::new(pieces@.len(), |k: int| pieces@[k]@);
        assert(all.skip(0) =~= all);
        assert(all =~= split_seq(remove_all(output@.subrange(start as int, j as int),
            "(framework directory)"@), '\n'));
        assert(opt_list_views(Some(r)) =~~= parse_search_paths_spec(output@));
    }
    Some(r)
}

/// A `clang` executable: its path, and what could be parsed out of its
/// output — its version, and the directories it searches for C and for
/// C++ headers.
#[derive(Clone, Debug)]
pub struct Clang {
    /// The path to this `clang` executable.
    pub path: String,
    /// The version of this `clang` executable, if it could be parsed.
    pub version: Option<CXVersion>,
    /// The directories searched by this executable for C headers, if they
    /// could be parsed.
    pub c_search_paths: Option<Vec<String>>,
    /// The directories searched by this executable for C++ headers, if
    /// they could be parsed.
    pub cpp_search_paths: Option<Vec<String>>,
}

impl Clang {
    /// Describes the executable at `path` from the outputs of three runs
    /// of it: `--version`, and one preprocessor run per language with the
    /// search paths in the diagnostic output.
    pub fn new(path: String, version_output: &str, c_output: &str, cpp_output: &str) -> (r: Clang)
        ensures
            r.path == path,
            r.version == parse_version_spec(version_output@),
            opt_list_views(r.c_search_paths) == parse_search_paths_spec(c_output@),
            opt_list_views(r.cpp_search_paths) == parse_search_paths_spec(cpp_output@),
    {
        let version = crate::version::parse_version(version_output);
        let c_search_paths = parse_search_paths(c_output);
        let cpp_search_paths = parse_search_paths(cpp_output);
        Clang { path, version, c_search_paths, cpp_search_paths }
    }
}

/// The report given when the helper tool cannot be run: the attempted
/// arguments, and the variable that overrides the tool's path.
pub fn llvm_config_failure_message(arguments: &str) -> (r: String)
    ensures
        r@ == "couldn't execute `llvm-config "@ + arguments@
            + "`, set the LLVM_CONFIG_PATH environment variable to a path to a valid `llvm-config` executable"@,
{
    let mut out: Vec<char> = str_chars("couldn't execute `llvm-config ");
    let args = str_chars(arguments);
    let mut args = args;
    out.append(&mut args);
    let mut tail = str_chars(
        "`, set the LLVM_CONFIG_PATH environment variable to a path to a valid `llvm-config` executable",
    );
    out.append(&mut tail);
    chars_to_string(&out)
}

/// The filename patterns a `clang` executable is searched under: the
/// exact name, then version-suffixed names.
pub fn clang_patterns(p: Platform) -> (r: Vec<String>)
    ensures
        r@.len() == 2,
        r@[0]@ == "clang"@ + spec_exe_suffix(p),
        r@[1]@ == "clang-[0-9]*"@ + spec_exe_suffix(p),
{
    let mut r: Vec<String> = Vec::new();
    r.push("clang".to_owned().concat(exe_suffix(p)));
    r.push("clang-[0-9]*".to_owned().concat(exe_suffix(p)));
    r
}

/// One optional directory as a (possibly empty) list.
pub open spec fn opt_dir(o: Option<Seq<char>>) -> Seq<Seq<char>> {
    match o {
        Some(d) => seq![d],
        None => Seq::<Seq<char>>::empty(),
    }
}

/// The directories a `clang` executable is searched in, in order: the
/// caller's hint, the helper tool's reported binary directory, the
/// directory the Apple build tool names, then every entry of the
/// executable search path.
pub fn clang_search_order(
    hint: Option<String>,
    helper_bindir: Option<String>,
    xcode_dir: Option<String>,
    path_dirs: Vec<String>,
) -> (r: Vec<String>)
    ensures
        Seq::new(r@.len(), |i: int| r@[i]@) == opt_dir(
            match hint {
                Some(ref s) => Some(s@),
                None => None,
            },
        ) + opt_dir(
            match helper_bindir {
                Some(ref s) => Some(s@),
                None => None,
            },
        ) + opt_dir(
            match xcode_dir {
                Some(ref s) => Some(s@),
                None => None,
            },
        ) + Seq::new(path_dirs@.len(), |i: int| path_dirs@[i]@),
{
    let ghost target = opt_dir(
        match hint {
            Some(ref s) => Some(s@),
            None => None,
        },
    ) + opt_dir(
        match helper_bindir {
            Some(ref s) => Some(s@),
            None => None,
        },
    ) + opt_dir(
        match xcode_dir {
            Some(ref s) => Some(s@),
            None => None,
        },
    ) + Seq::new(path_dirs@.len(), |i: int| path_dirs@[i]@);
    let mut r: Vec<String> = Vec::new();
    if let Some(h) = hint {
        r.push(h);
    }
    if let Some(b) = helper_bindir {
        r.push(b);
    }
    if let Some(x) = xcode_dir {
        r.push(x);
    }
    let ghost head = Seq::new(r@.len(), |k: int| r@[k]@);
    proof {
        assert(head =~= target.take(head.len() as int));
    }
    let n = path_dirs.len();
    let mut i: usize = 0;
    while i < n
        invariant
            i <= n,
            n == path_dirs@.len(),
            target.len() == head.len() + n,
            head =~= target.take(head.len() as int),
            forall|k: int| 0 <= k < n ==> target[head.len() + k] == path_dirs@[k]@,
            r@.len() == head.len() + i,
            Seq::new(r@.len(), |k: int| r@[k]@) =~= target.take(head.len() + i),
        decreases n - i,
    {
        r.push(path_dirs[i].clone());
        proof {
            assert(Seq::new(r@.len(), |k: int| r@[k]@) =~= target.take(head.len() + i + 1));
        }
        i += 1;
    }
    proof {
        assert(target.take(head.len() + n) =~= target);
    }
    r
}

/// The library names in the helper tool's link-library report: a token
/// beginning `-l` names the library directly, any other token is a path
/// to a library file.
pub open spec fn llvm_libs_of(toks: Seq<Seq<char>>, p: Platform) -> Seq<Seq<char>>
    decreases toks.len(),
{
    if toks.len() == 0 {
        Seq::<Seq<char>>::empty()
    } else {
        let rest = llvm_libs_of(toks.skip(1), p);
        let t = toks[0];
        if t.len() >= 2 && t[0] == '-' && t[1] == 'l' {
            seq![t.skip(2)] + rest
        } else {
            match library_name_spec(t, p) {
                Some(n) => seq![n] + rest,
                None => rest,
            }
        }
    }
}

/// The names, from token `i` on.
fn llvm_libs_from(toks: &Vec<Vec<char>>, p: Platform, i: usize) -> (r: Vec<String>)
    requires
        i <= toks@.len(),
    ensures
        r@.len() == llvm_libs_of(Seq::new(toks@.len(), |k: int| toks@[k]@).skip(i as int), p).len(),
        forall|k: int|
            0 <= k < r@.len() ==> r@[k]@ == llvm_libs_of(
                Seq::new(toks@.len(), |t: int| toks@[t]@).skip(i as int),
                p,
            )[k],
    decreases toks@.len() - i,
{
    let ghost all = Seq::new(toks@.len(), |k: int| toks@[k]@);
    let ghost tail = all.skip(i as int);
    if i == toks.len() {
        Vec::new()
    } else {
        let mut rest = llvm_libs_from(toks, p, i + 1);
        proof {
            assert(tail.skip(1) =~= all.skip(i + 1));
            assert(tail[0] == toks@[i as int]@);
        }
        let t = &toks[i];
        if t.len() >= 2 && t[0] == '-' && t[1] == 'l' {
            let n = t.len();
            let namepart = subvec(t, 2, n);
            proof {
                assert(namepart@ =~= tail[0].skip(2));
            }
            rest.insert(0, chars_to_string(&namepart));
        } else {
            let s = chars_to_string(t);
            match get_library_name(s.as_str(), p) {
                Some(name) => {
                    rest.insert(0, name);
                },
                None => {},
            }
        }
        rest
    }
}

/// Returns the libraries the helper tool's link-library report names —
/// what linking to `libclang` statically requires.
pub fn get_llvm_libraries(output: &str, p: Platform) -> (r: Vec<String>)
    ensures
        r@.len() == llvm_libs_of(space_tokens(output@), p).len(),
        forall|k: int|
            0 <= k < r@.len() ==> r@[k]@ == llvm_libs_of(space_tokens(output@), p)[k],
{
    let chars = str_chars(output);
    let toks = tokens_of(&chars);
    let r = llvm_libs_from(&toks, p, 0);
    proof {
        let all = Seq::new(toks@.len(), |k: int| toks@[k]@);
        assert(all.skip(0) =~= all);
        assert(all =~= space_tokens(output@));
    }
    r
}

/// The names of the library files in a list of globbed paths.
pub open spec fn names_of(paths: Seq<Seq<char>>, p: Platform) -> Seq<Seq<char>>
    decreases paths.len(),
{
    if paths.len() == 0 {
        Seq::<Seq<char>>::empty()
    } else {
        let rest = names_of(paths.skip(1), p);
        match library_name_spec(paths[0], p) {
            Some(n) => seq![n] + rest,
            None => rest,
        }
    }
}

/// The names, from path `i` on.
fn names_from(paths: &Vec<String>, p: Platform, i: usize) -> (r: Vec<String>)
    requires
        i <= paths@.len(),
    ensures
        r@.len() == names_of(Seq::new(paths@.len(), |k: int| paths@[k]@).skip(i as int), p).len(),
        forall|k: int|
            0 <= k < r@.len() ==> r@[k]@ == names_of(
                Seq::new(paths@.len(), |t: int| paths@[t]@).skip(i as int),
                p,
            )[k],
    decreases paths@.len() - i,
{
    let ghost all = Seq::new(paths@.len(), |k: int| paths@[k]@);
    let ghost tail = all.skip(i as int);
    if i == paths.len() {
        Vec::new()
    } else {
        let mut rest = names_from(paths, p, i + 1);
        proof {
            assert(tail.skip(1) =~= all.skip(i + 1));
            assert(tail[0] == paths@[i as int]@);
        }
        match get_library_name(paths[i].as_str(), p) {
            Some(name) => {
                rest.insert(0, name);
            },
            None => {},
        }
        rest
    }
}

/// The libraries that linking to `libclang` statically has required since
/// its split into component archives.
pub fn clang_libraries() -> (r: Vec<String>)
    ensures
        r@.len() == 13,
        r@[0]@ == "clang"@,
        r@[1]@ == "clangAST"@,
        r@[2]@ == "clangAnalysis"@,
        r@[3]@ == "clangBasic"@,
        r@[4]@ == "clangDriver"@,
        r@[5]@ == "clangEdit"@,
        r@[6]@ == "clangFrontend"@,
        r@[7]@ == "clangIndex"@,
        r@[8]@ == "clangLex"@,
        r@[9]@ == "clangParse"@,
        r@[10]@ == "clangRewrite"@,
        r@[11]@ == "clangSema"@,
        r@[12]@ == "clangSerialization"@,
{
    let mut r: Vec<String> = Vec::new();
    r.push("clang".to_owned());
    r.push("clangAST".to_owned());
    r.push("clangAnalysis".to_owned());
    r.push("clangBasic".to_owned());
    r.push("clangDriver".to_owned());
    r.push("clangEdit".to_owned());
    r.push("clangFrontend".to_owned());
    r.push("clangIndex".to_owned());
    r.push("clangLex".to_owned());
    r.push("clangParse".to_owned());
    r.push("clangRewrite".to_owned());
    r.push("clangSema".to_owned());
    r.push("clangSerialization".to_owned());
    r
}

/// Returns the Clang component archives found in the supplied directory,
/// by name; where the directory cannot even be globbed, the known list.
pub fn get_clang_libraries(directory: &str, p: Platform) -> (r: Vec<String>) {
    let pattern = join_path(directory, "libclang*.a", p);
    match glob_paths(pattern.as_str(), true) {
        Some(paths) => {
            let r = names_from(&paths, p, 0);
            r
        },
        None => clang_libraries(),
    }
}

} // verus!
