//! The candidate validator: header checks and their wording.

use clang_sys::platform::Platform;
use clang_sys::validate::{
    check_candidate, check_header, fault_message, LibraryKind, PointerWidth, ValidationFault,
};

#[test]
fn valid_headers_pass() {
    assert!(check_header(&vec![127, 69, 76, 70, 2], PointerWidth::W64).is_ok());
    assert!(check_header(&vec![127, 69, 76, 70, 1], PointerWidth::W32).is_ok());
}

#[test]
fn corrupted_magic_is_rejected() {
    let r = check_header(&vec![0, 69, 76, 70, 2], PointerWidth::W64);
    assert_eq!(r, Err(ValidationFault::BadMagic));
}

#[test]
fn short_header_is_rejected() {
    assert_eq!(check_header(&vec![127, 69], PointerWidth::W64), Err(ValidationFault::BadMagic));
}

#[test]
fn wrong_class_is_rejected_with_the_process_width() {
    let r = check_header(&vec![127, 69, 76, 70, 1], PointerWidth::W64);
    assert_eq!(r, Err(ValidationFault::BadClass(PointerWidth::W64)));
    let r = check_header(&vec![127, 69, 76, 70, 2], PointerWidth::W32);
    assert_eq!(r, Err(ValidationFault::BadClass(PointerWidth::W32)));
}

#[test]
fn fault_wording() {
    assert_eq!(fault_message(ValidationFault::BadMagic), "invalid ELF header");
    assert_eq!(
        fault_message(ValidationFault::BadClass(PointerWidth::W32)),
        "invalid ELF class (64-bit)"
    );
    assert_eq!(
        fault_message(ValidationFault::BadClass(PointerWidth::W64)),
        "invalid ELF class (32-bit)"
    );
}

#[test]
fn static_archives_are_not_header_checked() {
    let garbage = vec![1, 2, 3, 4, 5];
    assert!(check_candidate(LibraryKind::Static, Platform::Linux, &garbage, PointerWidth::W64)
        .is_ok());
}

#[test]
fn non_elf_platforms_accept_without_looking() {
    let garbage = vec![1, 2, 3, 4, 5];
    assert!(check_candidate(LibraryKind::Dynamic, Platform::MacOs, &garbage, PointerWidth::W64)
        .is_ok());
    assert!(check_candidate(LibraryKind::Dynamic, Platform::Windows, &garbage, PointerWidth::W64)
        .is_ok());
}

#[test]
fn dynamic_elf_candidates_are_checked() {
    let garbage = vec![1, 2, 3, 4, 5];
    assert!(check_candidate(LibraryKind::Dynamic, Platform::Linux, &garbage, PointerWidth::W64)
        .is_err());
    let good = vec![127, 69, 76, 70, 2];
    assert!(check_candidate(LibraryKind::Dynamic, Platform::FreeBsd, &good, PointerWidth::W64)
        .is_ok());
}
