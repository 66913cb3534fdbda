//! The parsers: version output, filename version tuples, search-path
//! reports, and library names.

use clang_sys::paths::{file_stem, get_library_name, join_path, parent_dir};
use clang_sys::platform::Platform;
use clang_sys::support::{get_llvm_libraries, parse_search_paths, Clang};
use clang_sys::version::{parse_filename_version, parse_version, CXVersion};

#[test]
fn version_three_components() {
    let v = parse_version("clang version 3.9.1 (tags/RELEASE_391/final)");
    assert_eq!(v, Some(CXVersion { Major: 3, Minor: 9, Subminor: 1 }));
}

#[test]
fn version_two_components_subminor_defaults() {
    let v = parse_version("clang version 4.0 (trunk)");
    assert_eq!(v, Some(CXVersion { Major: 4, Minor: 0, Subminor: 0 }));
}

#[test]
fn version_apple_style() {
    let v = parse_version("Apple LLVM version 8.0.0 (clang-800.0.42.1)");
    assert_eq!(v, Some(CXVersion { Major: 8, Minor: 0, Subminor: 0 }));
}

#[test]
fn version_trailing_letters_truncate() {
    let v = parse_version("clang version 3.9esr.7");
    assert_eq!(v, Some(CXVersion { Major: 3, Minor: 9, Subminor: 7 }));
}

#[test]
fn version_missing_marker() {
    assert_eq!(parse_version("clang 3.9.1"), None);
}

#[test]
fn version_no_number() {
    assert_eq!(parse_version("clang version next"), None);
}

#[test]
fn version_single_component() {
    assert_eq!(parse_version("clang version 4"), None);
}

#[test]
fn version_overflow_is_rejected() {
    assert_eq!(parse_version("clang version 99999999999.1"), None);
}

#[test]
fn filename_version_two_components() {
    assert_eq!(parse_filename_version("libclang.so.3.9"), vec![3, 9]);
}

#[test]
fn filename_version_none() {
    assert_eq!(parse_filename_version("libclang.so"), Vec::<u32>::new());
}

#[test]
fn filename_version_unparsable_components_are_zero() {
    assert_eq!(parse_filename_version("/usr/lib/libclang.so.04.9x"), vec![4, 0]);
}

#[test]
fn filename_version_plus_sign_parses() {
    assert_eq!(parse_filename_version("libclang.so.+3"), vec![3]);
}

#[test]
fn filename_version_overflow_is_zero() {
    assert_eq!(parse_filename_version("libclang.so.99999999999"), vec![0]);
}

#[test]
fn library_name_strips_lib_prefix() {
    let n = get_library_name("/usr/lib/libLLVMCore.a", Platform::Linux);
    assert_eq!(n, Some("LLVMCore".to_owned()));
}

#[test]
fn library_name_without_prefix() {
    let n = get_library_name("clang.lib", Platform::Windows);
    assert_eq!(n, Some("clang".to_owned()));
}

#[test]
fn library_name_of_empty_path() {
    assert_eq!(get_library_name("", Platform::Linux), None);
}

#[test]
fn file_stem_plain() {
    assert_eq!(file_stem("dir/libclang.so", Platform::Linux), Some("libclang".to_owned()));
}

#[test]
fn file_stem_hidden_file() {
    assert_eq!(file_stem(".hidden", Platform::Linux), Some(".hidden".to_owned()));
}

#[test]
fn file_stem_dot_components() {
    assert_eq!(file_stem(".", Platform::Linux), None);
    assert_eq!(file_stem("a/..", Platform::Linux), None);
}

#[test]
fn join_path_inserts_separator() {
    assert_eq!(join_path("/usr/lib", "libclang.so", Platform::Linux), "/usr/lib/libclang.so");
}

#[test]
fn join_path_keeps_trailing_separator() {
    assert_eq!(join_path("/usr/lib/", "x", Platform::Linux), "/usr/lib/x");
}

#[test]
fn join_path_empty_directory() {
    assert_eq!(join_path("", "bin", Platform::Linux), "bin");
}

#[test]
fn join_path_windows_separator() {
    assert_eq!(join_path("C:\\LLVM", "bin", Platform::Windows), "C:\\LLVM\\bin");
}

#[test]
fn parent_of_lib_directory() {
    assert_eq!(parent_dir("C:\\LLVM\\lib", Platform::Windows), "C:\\LLVM");
    assert_eq!(parent_dir("/usr/lib", Platform::Linux), "/usr");
    assert_eq!(parent_dir("lib", Platform::Windows), "");
}

#[test]
fn search_paths_are_parsed() {
    let output = "ignoring nonexistent directory \"/x\"\n\
                  #include <...> search starts here:\n \
                  /usr/local/include\n \
                  /usr/include (framework directory)\n\
                  \n \
                  /usr/include\n\
                  End of search list.\n";
    let paths = parse_search_paths(output).unwrap();
    assert_eq!(paths, vec![
        "/usr/local/include".to_owned(),
        "/usr/include".to_owned(),
        "/usr/include".to_owned(),
    ]);
}

#[test]
fn search_paths_missing_marker() {
    assert_eq!(parse_search_paths("no markers here"), None);
    assert_eq!(parse_search_paths("#include <...> search starts here:\n/a\n"), None);
}

#[test]
fn search_paths_crlf_lines() {
    let output = "#include <...> search starts here:\r\n /a\r\n /b\r\nEnd of search list.";
    let paths = parse_search_paths(output).unwrap();
    assert_eq!(paths, vec!["/a".to_owned(), "/b".to_owned()]);
}

#[test]
fn llvm_libraries_both_forms() {
    let libs = get_llvm_libraries(
        "-lLLVMCore /usr/lib/libLLVMSupport.a -lpthread",
        Platform::Linux,
    );
    assert_eq!(libs, vec![
        "LLVMCore".to_owned(),
        "LLVMSupport".to_owned(),
        "pthread".to_owned(),
    ]);
}

#[test]
fn helper_failure_report_wording() {
    let msg = clang_sys::support::llvm_config_failure_message("--libs");
    assert_eq!(
        msg,
        "couldn't execute `llvm-config --libs`, set the LLVM_CONFIG_PATH environment \
         variable to a path to a valid `llvm-config` executable"
    );
}

#[test]
fn known_clang_archives() {
    let libs = clang_sys::support::clang_libraries();
    assert_eq!(libs.len(), 13);
    assert_eq!(libs[0], "clang");
    assert_eq!(libs[12], "clangSerialization");
}

#[test]
fn clang_archives_in_an_absent_directory() {
    let libs = clang_sys::support::get_clang_libraries("/absent-root-for-this-test", Platform::Linux);
    assert_eq!(libs, Vec::<String>::new());
}

#[test]
fn clang_description_from_outputs() {
    let c = Clang::new(
        "/usr/bin/clang".to_owned(),
        "clang version 3.9.1",
        "#include <...> search starts here:\n /c\nEnd of search list.",
        "#include <...> search starts here:\n /cpp\nEnd of search list.",
    );
    assert_eq!(c.path, "/usr/bin/clang");
    assert_eq!(c.version, Some(CXVersion { Major: 3, Minor: 9, Subminor: 1 }));
    assert_eq!(c.c_search_paths, Some(vec!["/c".to_owned()]));
    assert_eq!(c.cpp_search_paths, Some(vec!["/cpp".to_owned()]));
}
