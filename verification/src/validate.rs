//! Candidate validation: checking the first bytes of a candidate file's
//! binary header against the process's own pointer width.  Reading those
//! bytes from disk is the caller's business; the decision is made here.

use vstd::prelude::*;
use crate::platform::{spec_uses_elf, uses_elf, Platform};

verus! {

/// Whether a dynamic image or a static archive is wanted.
#[derive(Clone, Copy, Debug, PartialEq, Eq, Structural)]
pub enum LibraryKind {
    /// A shared library, opened into the process at run time.
    Dynamic,
    /// A static archive, consumed at link time.
    Static,
}

/// The pointer width of the running process.
#[derive(Clone, Copy, Debug, PartialEq, Eq, Structural)]
pub enum PointerWidth {
    /// A 32-bit process.
    W32,
    /// A 64-bit process.
    W64,
}

/// Why a candidate file was rejected.
#[derive(Clone, Copy, Debug, PartialEq, Eq, Structural)]
pub enum ValidationFault {
    /// The four-byte ELF magic sequence is missing.
    BadMagic,
    /// The architecture class byte does not match this process's pointer
    /// width; the field holds the width that was required.
    BadClass(PointerWidth),
}

/// Whether candidates are header-checked at all: only dynamic images on
/// ELF platforms are.
pub open spec fn spec_validation_required(kind: LibraryKind, p: Platform) -> bool {
    spec_uses_elf(p) && kind is Dynamic
}

/// Whether candidates are header-checked at all.
#[verifier::when_used_as_spec(spec_validation_required)]
pub fn validation_required(kind: LibraryKind, p: Platform) -> (r: bool)
    ensures
        r == spec_validation_required(kind, p),
{
    uses_elf(p) && matches!(kind, LibraryKind::Dynamic)
}

/// The header starts with the four-byte ELF magic sequence.
pub open spec fn elf_magic_ok(h: Seq<u8>) -> bool {
    h.len() >= 4 && h[0] == 127 && h[1] == 69 && h[2] == 76 && h[3] == 70
}

/// The fifth header byte names the architecture class matching `w`:
/// class 1 is 32-bit, class 2 is 64-bit.
pub open spec fn elf_class_ok(h: Seq<u8>, w: PointerWidth) -> bool {
    h.len() >= 5 && (w is W32 ==> h[4] == 1) && (w is W64 ==> h[4] == 2)
}

/// The header passes both checks.
pub open spec fn header_ok(h: Seq<u8>, w: PointerWidth) -> bool {
    elf_magic_ok(h) && elf_class_ok(h, w)
}

/// Checks the first five bytes of a candidate's header: the ELF magic
/// sequence, then the architecture class against the process's pointer
/// width.
pub fn check_header(h: &Vec<u8>, w: PointerWidth) -> (r: Result<(), ValidationFault>)
    ensures
        r is Ok <==> header_ok(h@, w),
        r matches Err(f) ==> (f is BadMagic <==> !elf_magic_ok(h@)),
        r matches Err(f) ==> (f == ValidationFault::BadClass(w) <==> (elf_magic_ok(h@)
            && !elf_class_ok(h@, w))),
{
    if h.len() < 4 || h[0] != 127 || h[1] != 69 || h[2] != 76 || h[3] != 70 {
        return Err(ValidationFault::BadMagic);
    }
    let class_wanted: u8 = match w {
        PointerWidth::W32 => 1,
        PointerWidth::W64 => 2,
    };
    if h.len() < 5 || h[4] != class_wanted {
        return Err(ValidationFault::BadClass(w));
    }
    Ok(())
}

/// Checks whether the supplied header belongs to a valid library for the
/// architecture: static archives, and platforms not using ELF images, are
/// accepted without looking.
pub fn check_candidate(
    kind: LibraryKind,
    p: Platform,
    h: &Vec<u8>,
    w: PointerWidth,
) -> (r: Result<(), ValidationFault>)
    ensures
        r is Ok <==> (!spec_validation_required(kind, p) || header_ok(h@, w)),
{
    if !validation_required(kind, p) {
        return Ok(());
    }
    check_header(h, w)
}

/// The wording a rejection is reported with.
pub fn fault_message(f: ValidationFault) -> (r: String)
    ensures
        f is BadMagic ==> r@ == "invalid ELF header"@,
        f == ValidationFault::BadClass(PointerWidth::W32) ==> r@ == "invalid ELF class (64-bit)"@,
        f == ValidationFault::BadClass(PointerWidth::W64) ==> r@ == "invalid ELF class (32-bit)"@,
{
    match f {
        ValidationFault::BadMagic => "invalid ELF header".to_owned(),
        ValidationFault::BadClass(PointerWidth::W32) => "invalid ELF class (64-bit)".to_owned(),
        ValidationFault::BadClass(PointerWidth::W64) => "invalid ELF class (32-bit)".to_owned(),
    }
}

} // verus!
