//! The search state machine, driven with simulated surroundings.

use clang_sys::finder::{shared_library_finder, Finder, SearchEvent, SearchStep};
use clang_sys::locate::best_match;
use clang_sys::platform::Platform;
use clang_sys::validate::{LibraryKind, PointerWidth};

fn foo_finder() -> Finder {
    Finder::new(
        LibraryKind::Dynamic,
        Platform::Linux,
        PointerWidth::W64,
        vec!["libfoo.so".to_owned(), "libfoo.so.*".to_owned()],
        "LIBFOO_PATH".to_owned(),
        Vec::new(),
    )
}

fn good_header() -> Vec<u8> {
    vec![127, 69, 76, 70, 2]
}

#[test]
fn override_directory_with_only_versioned_file() {
    // The override variable names a directory holding only a versioned
    // file; the default exact name is absent, so the versioned file is
    // the directory's best candidate, and it passes validation.
    let mut f = foo_finder();
    let step = f.step(SearchEvent::Env(Some("/opt/foo".to_owned())));
    let dir = match step {
        SearchStep::NeedCandidate(d) => d,
        _ => panic!("expected a directory probe"),
    };
    assert_eq!(dir, "/opt/foo");
    // The directory's globbing yields only the versioned file.
    let globbed = vec!["/opt/foo/libfoo.so.2.1".to_owned()];
    let candidate = best_match(&globbed);
    assert_eq!(candidate, Some("/opt/foo/libfoo.so.2.1".to_owned()));
    let step = f.step(SearchEvent::Candidate(candidate));
    let file = match step {
        SearchStep::NeedHeader(p) => p,
        _ => panic!("expected a header request"),
    };
    assert_eq!(file, "/opt/foo/libfoo.so.2.1");
    let step = f.step(SearchEvent::Header(Ok(good_header())));
    match step {
        SearchStep::Found(p) => assert_eq!(p, "/opt/foo/libfoo.so.2.1"),
        _ => panic!("expected success"),
    }
    assert_eq!(f.phase(), clang_sys::finder::Phase::Finished);
}

#[test]
fn corrupted_magic_is_skipped_and_search_continues() {
    let mut f = foo_finder();
    let step = f.step(SearchEvent::Env(Some("/opt/foo".to_owned())));
    assert!(matches!(step, SearchStep::NeedCandidate(_)));
    let step = f.step(SearchEvent::Candidate(Some("/opt/foo/libfoo.so.2.1".to_owned())));
    assert!(matches!(step, SearchStep::NeedHeader(_)));
    // A corrupted header magic: the candidate is rejected, but the search
    // moves on to the helper tool rather than aborting.
    let step = f.step(SearchEvent::Header(Ok(vec![0, 0, 76, 70, 2])));
    assert!(matches!(step, SearchStep::NeedHelper));
    // With the helper unavailable and no backup patterns, the search now
    // fails, and the report names the skipped candidate and its reason.
    let step = f.step(SearchEvent::Helper(None));
    match step {
        SearchStep::Failed(msg) => {
            assert_eq!(
                msg,
                "couldn't find any of ['libfoo.so', 'libfoo.so.*'], set the LIBFOO_PATH \
                 environment variable to a path where one of these files can be found \
                 (skipped: [(/opt/foo/libfoo.so.2.1: invalid ELF header)])"
            );
        },
        _ => panic!("expected failure"),
    }
}

#[test]
fn wrong_class_is_skipped_with_its_reason() {
    let mut f = foo_finder();
    f.step(SearchEvent::Env(Some("/opt/foo".to_owned())));
    f.step(SearchEvent::Candidate(Some("/opt/foo/libfoo.so".to_owned())));
    // A 32-bit image in a 64-bit process.
    let step = f.step(SearchEvent::Header(Ok(vec![127, 69, 76, 70, 1])));
    assert!(matches!(step, SearchStep::NeedHelper));
    let step = f.step(SearchEvent::Helper(None));
    match step {
        SearchStep::Failed(msg) => {
            assert!(msg.contains("(/opt/foo/libfoo.so: invalid ELF class (32-bit))"));
        },
        _ => panic!("expected failure"),
    }
}

#[test]
fn unreadable_candidate_is_skipped_with_the_read_error() {
    let mut f = foo_finder();
    f.step(SearchEvent::Env(Some("/opt/foo".to_owned())));
    f.step(SearchEvent::Candidate(Some("/opt/foo/libfoo.so".to_owned())));
    let step = f.step(SearchEvent::Header(Err("permission denied".to_owned())));
    assert!(matches!(step, SearchStep::NeedHelper));
    let step = f.step(SearchEvent::Helper(None));
    match step {
        SearchStep::Failed(msg) => {
            assert!(msg.contains("(/opt/foo/libfoo.so: permission denied)"));
        },
        _ => panic!("expected failure"),
    }
}

#[test]
fn helper_prefix_yields_bin_then_lib() {
    let mut f = foo_finder();
    let step = f.step(SearchEvent::Env(None));
    assert!(matches!(step, SearchStep::NeedHelper));
    let step = f.step(SearchEvent::Helper(Some("/usr/llvm\n".to_owned())));
    match step {
        SearchStep::NeedCandidate(d) => assert_eq!(d, "/usr/llvm/bin"),
        _ => panic!("expected a directory probe"),
    }
    let step = f.step(SearchEvent::Candidate(None));
    match step {
        SearchStep::NeedCandidate(d) => assert_eq!(d, "/usr/llvm/lib"),
        _ => panic!("expected a directory probe"),
    }
}

#[test]
fn empty_helper_output_is_unavailable() {
    let mut f = foo_finder();
    f.step(SearchEvent::Env(None));
    let step = f.step(SearchEvent::Helper(Some("".to_owned())));
    assert!(matches!(step, SearchStep::Failed(_)));
}

#[test]
fn backup_patterns_are_expanded_in_order() {
    let mut f = Finder::new(
        LibraryKind::Dynamic,
        Platform::Linux,
        PointerWidth::W64,
        vec!["libfoo.so".to_owned()],
        "LIBFOO_PATH".to_owned(),
        vec!["/usr/lib*".to_owned(), "/usr/local/lib*".to_owned()],
    );
    f.step(SearchEvent::Env(None));
    let step = f.step(SearchEvent::Helper(None));
    match step {
        SearchStep::NeedDirs(pat, ci) => {
            assert_eq!(pat, "/usr/lib*");
            assert!(!ci);
        },
        _ => panic!("expected a pattern expansion"),
    }
    let step = f.step(SearchEvent::Dirs(vec!["/usr/lib".to_owned(), "/usr/lib64".to_owned()]));
    match step {
        SearchStep::NeedCandidate(d) => assert_eq!(d, "/usr/lib"),
        _ => panic!("expected a directory probe"),
    }
    let step = f.step(SearchEvent::Candidate(None));
    match step {
        SearchStep::NeedCandidate(d) => assert_eq!(d, "/usr/lib64"),
        _ => panic!("expected a directory probe"),
    }
    let step = f.step(SearchEvent::Candidate(None));
    match step {
        SearchStep::NeedDirs(pat, _) => assert_eq!(pat, "/usr/local/lib*"),
        _ => panic!("expected the next pattern"),
    }
}

#[test]
fn windows_lib_directory_probes_sibling_bin() {
    let mut f = Finder::new(
        LibraryKind::Dynamic,
        Platform::Windows,
        PointerWidth::W64,
        vec!["clang.dll".to_owned()],
        "LIBCLANG_PATH".to_owned(),
        Vec::new(),
    );
    let step = f.step(SearchEvent::Env(Some("C:\\LLVM\\lib".to_owned())));
    match step {
        SearchStep::NeedCandidate(d) => assert_eq!(d, "C:\\LLVM\\lib"),
        _ => panic!("expected a directory probe"),
    }
    let step = f.step(SearchEvent::Candidate(None));
    match step {
        SearchStep::NeedCandidate(d) => assert_eq!(d, "C:\\LLVM\\bin"),
        _ => panic!("expected the sibling probe"),
    }
    // On a platform without header validation, a candidate wins at once.
    let step = f.step(SearchEvent::Candidate(Some("C:\\LLVM\\bin\\clang.dll".to_owned())));
    match step {
        SearchStep::Found(p) => assert_eq!(p, "C:\\LLVM\\bin\\clang.dll"),
        _ => panic!("expected success"),
    }
}

#[test]
fn configured_search_for_the_shared_library() {
    let mut f = shared_library_finder(Platform::Linux, PointerWidth::W64);
    assert_eq!(f.env_name(), "LIBCLANG_PATH");
    assert_eq!(f.files(), &vec!["libclang.so".to_owned(), "libclang.so.*".to_owned()]);
    let step = f.step(SearchEvent::Env(Some("/opt/llvm/lib".to_owned())));
    assert!(matches!(step, SearchStep::NeedCandidate(_)));
}
