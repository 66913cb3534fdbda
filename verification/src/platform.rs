//! The platform-dependent facts the search depends on, made explicit as
//! values: filename affixes, path separators, whether images use the ELF
//! format, and the backup directories to search.

use vstd::prelude::*;

verus! {

/// The families of platforms the search distinguishes.
#[derive(Clone, Copy, Debug, PartialEq, Eq, Structural)]
pub enum Platform {
    /// Linux.
    Linux,
    /// FreeBSD.
    FreeBsd,
    /// OpenBSD.
    OpenBsd,
    /// macOS and other Apple platforms.
    MacOs,
    /// Windows.
    Windows,
    /// Anything else.
    Other,
}

/// Whether loadable images on this platform carry an ELF header worth
/// checking before `dlopen`.
pub open spec fn spec_uses_elf(p: Platform) -> bool {
    p is Linux || p is FreeBsd
}

/// Whether loadable images on this platform carry an ELF header.
#[verifier::when_used_as_spec(spec_uses_elf)]
pub fn uses_elf(p: Platform) -> (r: bool)
    ensures
        r == spec_uses_elf(p),
{
    matches!(p, Platform::Linux | Platform::FreeBsd)
}

/// Whether distributions on this platform may install only versioned
/// library files, with no unversioned symlink.
pub open spec fn spec_uses_versioned_so(p: Platform) -> bool {
    p is Linux || p is FreeBsd || p is OpenBsd
}

/// Whether to search for versioned library files as well.
#[verifier::when_used_as_spec(spec_uses_versioned_so)]
pub fn uses_versioned_so(p: Platform) -> (r: bool)
    ensures
        r == spec_uses_versioned_so(p),
{
    matches!(p, Platform::Linux | Platform::FreeBsd | Platform::OpenBsd)
}

/// Whether `c` separates path components on platform `p`.
pub open spec fn spec_is_sep(c: char, p: Platform) -> bool {
    c == '/' || (p is Windows && c == '\\')
}

/// Whether `c` separates path components on platform `p`.
#[verifier::when_used_as_spec(spec_is_sep)]
pub fn is_sep(c: char, p: Platform) -> (r: bool)
    ensures
        r == spec_is_sep(c, p),
{
    c == '/' || (matches!(p, Platform::Windows) && c == '\\')
}

/// The separator joined between path components.
pub open spec fn spec_main_sep(p: Platform) -> char {
    if p is Windows {
        '\\'
    } else {
        '/'
    }
}

/// The separator joined between path components.
#[verifier::when_used_as_spec(spec_main_sep)]
pub fn main_sep(p: Platform) -> (r: char)
    ensures
        r == spec_main_sep(p),
{
    if matches!(p, Platform::Windows) {
        '\\'
    } else {
        '/'
    }
}

/// The prefix of shared-library filenames.
pub open spec fn spec_dll_prefix(p: Platform) -> Seq<char> {
    if p is Windows {
        Seq::<char>::empty()
    } else {
        "lib"@
    }
}

/// The prefix of shared-library filenames.
pub fn dll_prefix(p: Platform) -> (r: &'static str)
    ensures
        r@ == spec_dll_prefix(p),
{
    if matches!(p, Platform::Windows) {
        proof {
            reveal_strlit("");
            assert(""@ =~= Seq::<char>::empty());
        }
        ""
    } else {
        "lib"
    }
}

/// The suffix of shared-library filenames.
pub open spec fn spec_dll_suffix(p: Platform) -> Seq<char> {
    if p is Windows {
        ".dll"@
    } else if p is MacOs {
        ".dylib"@
    } else {
        ".so"@
    }
}

/// The suffix of shared-library filenames.
pub fn dll_suffix(p: Platform) -> (r: &'static str)
    ensures
        r@ == spec_dll_suffix(p),
{
    match p {
        Platform::Windows => ".dll",
        Platform::MacOs => ".dylib",
        _ => ".so",
    }
}

/// The suffix of executable filenames.
pub open spec fn spec_exe_suffix(p: Platform) -> Seq<char> {
    if p is Windows {
        ".exe"@
    } else {
        Seq::<char>::empty()
    }
}

/// The suffix of executable filenames.
pub fn exe_suffix(p: Platform) -> (r: &'static str)
    ensures
        r@ == spec_exe_suffix(p),
{
    if matches!(p, Platform::Windows) {
        ".exe"
    } else {
        proof {
            reveal_strlit("");
            assert(""@ =~= Seq::<char>::empty());
        }
        ""
    }
}

/// Whether backup-directory globbing ignores case on this platform.
pub open spec fn spec_backup_case_insensitive(p: Platform) -> bool {
    p is MacOs
}

/// Whether backup-directory globbing ignores case on this platform.
#[verifier::when_used_as_spec(spec_backup_case_insensitive)]
pub fn backup_case_insensitive(p: Platform) -> (r: bool)
    ensures
        r == spec_backup_case_insensitive(p),
{
    matches!(p, Platform::MacOs)
}

/// The ordered backup directory glob patterns for platform `p`.
pub open spec fn spec_backup_patterns(p: Platform) -> Seq<Seq<char>> {
    if p is Linux || p is FreeBsd {
        seq![
            "/usr/lib*"@,
            "/usr/lib*/*"@,
            "/usr/lib*/*/*"@,
            "/usr/local/lib*"@,
            "/usr/local/lib*/*"@,
            "/usr/local/lib*/*/*"@,
            "/usr/local/llvm*/lib"@,
        ]
    } else if p is MacOs {
        seq![
            "/usr/local/opt/llvm*/lib"@,
            "/Applications/Xcode.app/Contents/Developer/Toolchains/XcodeDefault.xctoolchain/usr/lib"@,
            "/Library/Developer/CommandLineTools/usr/lib"@,
            "/usr/local/opt/llvm*/lib/llvm*/lib"@,
        ]
    } else if p is Windows {
        seq!["C:\\LLVM\\lib"@, "C:\\Program Files*\\LLVM\\lib"@, "C:\\MSYS*\\MinGW*\\lib"@]
    } else {
        Seq::<Seq<char>>::empty()
    }
}

/// The ordered backup directory glob patterns for platform `p`.
pub fn backup_patterns(p: Platform) -> (r: Vec<String>)
    ensures
        r@.len() == spec_backup_patterns(p).len(),
        forall|k: int| 0 <= k < r@.len() ==> r@[k]@ == spec_backup_patterns(p)[k],
{
    let mut r: Vec<String> = Vec::new();
    match p {
        Platform::Linux | Platform::FreeBsd => {
            r.push("/usr/lib*".to_owned());
            r.push("/usr/lib*/*".to_owned());
            r.push("/usr/lib*/*/*".to_owned());
            r.push("/usr/local/lib*".to_owned());
            r.push("/usr/local/lib*/*".to_owned());
            r.push("/usr/local/lib*/*/*".to_owned());
            r.push("/usr/local/llvm*/lib".to_owned());
        },
        Platform::MacOs => {
            r.push("/usr/local/opt/llvm*/lib".to_owned());
            r.push(
                "/Applications/Xcode.app/Contents/Developer/Toolchains/XcodeDefault.xctoolchain/usr/lib".to_owned(),
            );
            r.push("/Library/Developer/CommandLineTools/usr/lib".to_owned());
            r.push("/usr/local/opt/llvm*/lib/llvm*/lib".to_owned());
        },
        Platform::Windows => {
            r.push("C:\\LLVM\\lib".to_owned());
            r.push("C:\\Program Files*\\LLVM\\lib".to_owned());
            r.push("C:\\MSYS*\\MinGW*\\lib".to_owned());
        },
        _ => {},
    }
    r
}

} // verus!
