//! Candidate ranking and the platform-selected search data.

use clang_sys::locate::{best_match, contains, expand_dirs, pattern_matches, shared_library_files};
use clang_sys::paths::expand_directory;
use clang_sys::platform::{backup_patterns, Platform};
use clang_sys::support::clang_patterns;

#[test]
fn versioned_candidate_beats_unversioned() {
    let ms = vec!["/d/libclang.so".to_owned(), "/d/libclang.so.3.9".to_owned()];
    assert_eq!(best_match(&ms), Some("/d/libclang.so.3.9".to_owned()));
}

#[test]
fn highest_version_wins_regardless_of_order() {
    let ms = vec![
        "/d/libclang.so.3.9".to_owned(),
        "/d/libclang.so.4".to_owned(),
        "/d/libclang.so.3.8".to_owned(),
    ];
    assert_eq!(best_match(&ms), Some("/d/libclang.so.4".to_owned()));
}

#[test]
fn equal_versions_take_the_latest() {
    let ms = vec!["/d/a.so.3".to_owned(), "/d/b.so.3".to_owned()];
    assert_eq!(best_match(&ms), Some("/d/b.so.3".to_owned()));
}

#[test]
fn shorter_version_tuple_loses_to_its_extension() {
    let ms = vec!["/d/libclang.so.3".to_owned(), "/d/libclang.so.3.0".to_owned()];
    assert_eq!(best_match(&ms), Some("/d/libclang.so.3.0".to_owned()));
}

#[test]
fn no_candidates_no_choice() {
    assert_eq!(best_match(&Vec::new()), None);
}

#[test]
fn library_files_linux() {
    let fs = shared_library_files(Platform::Linux);
    assert_eq!(fs, vec!["libclang.so".to_owned(), "libclang.so.*".to_owned()]);
}

#[test]
fn library_files_macos() {
    assert_eq!(shared_library_files(Platform::MacOs), vec!["libclang.dylib".to_owned()]);
}

#[test]
fn library_files_windows() {
    assert_eq!(
        shared_library_files(Platform::Windows),
        vec!["clang.dll".to_owned(), "libclang.dll".to_owned()]
    );
}

#[test]
fn executable_patterns() {
    assert_eq!(
        clang_patterns(Platform::Linux),
        vec!["clang".to_owned(), "clang-[0-9]*".to_owned()]
    );
    assert_eq!(
        clang_patterns(Platform::Windows),
        vec!["clang.exe".to_owned(), "clang-[0-9]*.exe".to_owned()]
    );
}

#[test]
fn backup_patterns_per_platform() {
    assert_eq!(backup_patterns(Platform::Linux).len(), 7);
    assert_eq!(backup_patterns(Platform::MacOs).len(), 4);
    assert_eq!(backup_patterns(Platform::Windows).len(), 3);
    assert_eq!(backup_patterns(Platform::Other).len(), 0);
    assert_eq!(backup_patterns(Platform::Linux)[0], "/usr/lib*");
}

#[test]
fn probing_an_absent_directory_finds_nothing() {
    // Runs the real filesystem glob underneath: a directory that does not
    // exist yields no candidate, and an unexpandable pattern no
    // directories.
    let files = vec!["libclang.so".to_owned(), "libclang.so.*".to_owned()];
    assert_eq!(contains("/absent-root-for-this-test", &files, Platform::Linux), None);
    assert_eq!(
        pattern_matches("/absent-root-for-this-test", "libclang.so*", Platform::Linux),
        Vec::<String>::new()
    );
    assert_eq!(
        expand_dirs("/absent-root-for-this-test/lib*", Platform::Linux),
        Vec::<String>::new()
    );
}

#[test]
fn windows_lib_directory_gains_sibling() {
    let dirs = expand_directory("C:\\LLVM\\lib", Platform::Windows);
    assert_eq!(dirs, vec!["C:\\LLVM\\lib".to_owned(), "C:\\LLVM\\bin".to_owned()]);
}

#[test]
fn non_lib_directory_stays_alone() {
    assert_eq!(
        expand_directory("C:\\LLVM\\bin", Platform::Windows),
        vec!["C:\\LLVM\\bin".to_owned()]
    );
    assert_eq!(expand_directory("/usr/lib", Platform::Linux), vec!["/usr/lib".to_owned()]);
}
