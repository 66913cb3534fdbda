//! Discovery, validation, loading and symbol binding for a `libclang`
//! shared-library image.
//!
//! The crate locates a candidate shared library on the filesystem, checks
//! its binary header, models the opened image together with a table of
//! resolved entry points, and manages a per-thread slot holding a shared
//! reference to the bound instance.  Filesystem globbing is reached through
//! a small trusted layer; running helper tools, reading files and the
//! actual `dlopen`/`dlsym` calls are left to the unverified shell around
//! this library, which feeds their outcomes back in as plain values.

pub mod binder;
pub mod finder;
pub mod locate;
pub mod paths;
pub mod platform;
pub mod registry;
pub mod support;
pub mod text;
pub mod validate;
pub mod version;

use vstd::prelude::*;

verus! {

/// One code-completion result, as the wrapped library's ABI lays it out:
/// the kind code of the entity the completion refers to, and its
/// completion string, an opaque handle held here as an address-sized
/// value.
#[allow(non_snake_case)]
#[derive(Clone, Copy, Debug, PartialEq, Eq, Structural)]
pub struct CXCompletionResult {
    /// The cursor-kind code of the completed entity.
    pub CursorKind: i32,
    /// The opaque completion-string handle.
    pub CompletionString: usize,
}

} // verus!
