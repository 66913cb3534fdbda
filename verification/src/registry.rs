//! The bound library instance and the per-thread handle slot.
//!
//! A `SharedLibraryInstance` pairs the exclusively-owned opened image with
//! the immutable function table bound against it; dropping the instance
//! releases the image.  A `ThreadBinding` is one thread's slot, holding at
//! most one shared reference to an instance; the unverified shell keeps
//! one `ThreadBinding` per thread and never shares the slot itself.

use vstd::prelude::*;
use std::sync::Arc;
use crate::binder::FunctionTable;

verus! {

/// The opaque handle type of the dynamic loader; opening and resolving
/// against it happen outside this library.
#[verifier::external_type_specification]
#[verifier::external_body]
pub struct ExLibrary(libloading::Library);

/// A dynamically loaded library instance: one exclusively-owned opened
/// image together with the function table bound against it.  The image is
/// released exactly once, when the instance is dropped.
pub struct SharedLibraryInstance {
    library: libloading::Library,
    functions: FunctionTable,
}

impl View for SharedLibraryInstance {
    type V = Seq<(Seq<char>, Option<usize>)>;

    closed spec fn view(&self) -> Seq<(Seq<char>, Option<usize>)> {
        self.functions@
    }
}

impl SharedLibraryInstance {
    /// Pairs an opened image with the table bound against it.
    pub fn new(library: libloading::Library, functions: FunctionTable) -> (r:
        SharedLibraryInstance)
        ensures
            r@ == functions@,
    {
        SharedLibraryInstance { library, functions }
    }

    /// The table of resolved entry points.
    pub fn functions(&self) -> (r: &FunctionTable)
        ensures
            r@ == self@,
    {
        &self.functions
    }
}

/// `unload` was called on a thread whose slot was already empty.
#[derive(Clone, Copy, Debug, PartialEq, Eq, Structural)]
pub struct NotLoaded;

impl NotLoaded {
    /// The wording this condition is reported with.
    pub fn message(&self) -> (r: String)
        ensures
            r@ == "a `libclang` shared library is not in use in the current thread"@,
    {
        "a `libclang` shared library is not in use in the current thread".to_owned()
    }
}

/// Relies on std's `Arc::clone`: returns a new reference to the same
/// shared allocation — in specification terms, the same value.
#[verifier::external_body]
fn arc_clone<T>(a: &Arc<T>) -> (r: Arc<T>)
    ensures
        r == *a,
{
    Arc::clone(a)
}

/// One thread's slot: zero or one shared reference to a library instance.
/// Every operation works on the calling thread's own binding; instances
/// move between threads only by an explicit `get_library`/`set_library`
/// handoff of the reference.
pub struct ThreadBinding<T> {
    slot: Option<Arc<T>>,
}

impl<T> ThreadBinding<T> {
    /// The slot's occupant, if any.
    pub closed spec fn spec_slot(&self) -> Option<Arc<T>> {
        self.slot
    }

    /// A fresh, empty binding — each thread's initial state.
    pub fn new() -> (r: ThreadBinding<T>)
        ensures
            r.spec_slot() is None,
    {
        ThreadBinding { slot: None }
    }

    /// Whether the slot is currently occupied.
    pub fn is_loaded(&self) -> (r: bool)
        ensures
            r == (self.spec_slot() is Some),
    {
        self.slot.is_some()
    }

    /// Installs the given instance (or clears the slot) and returns the
    /// previous occupant, whose reference the caller now owns.
    pub fn set_library(&mut self, instance: Option<Arc<T>>) -> (prev: Option<Arc<T>>)
        ensures
            final(self).spec_slot() == instance,
            prev == old(self).spec_slot(),
    {
        let prev = self.slot.take();
        self.slot = instance;
        prev
    }

    /// Returns a new reference to the slot's occupant, or nothing.
    pub fn get_library(&self) -> (r: Option<Arc<T>>)
        ensures
            r == self.spec_slot(),
    {
        match &self.slot {
            Some(a) => Some(arc_clone(a)),
            None => None,
        }
    }

    /// Clears the slot; an already-empty slot is reported, and stays
    /// empty.
    pub fn unload(&mut self) -> (r: Result<(), NotLoaded>)
        ensures
            final(self).spec_slot() is None,
            r is Ok <==> old(self).spec_slot() is Some,
    {
        let prev = self.slot.take();
        match prev {
            Some(_) => Ok(()),
            None => Err(NotLoaded),
        }
    }
}

/// Installing an instance and immediately reading the slot on the same
/// thread hands back exactly that instance; clearing and then unloading
/// an empty slot reports `NotLoaded`.  `b1` is the binding as
/// `set_library` leaves it, `got` what `get_library` then returns, and
/// `cleared` a binding whose slot was cleared.
pub proof fn lemma_install_then_read<T>(
    b1: ThreadBinding<T>,
    instance: Option<Arc<T>>,
    got: Option<Arc<T>>,
    cleared: ThreadBinding<T>,
    unload_result: Result<(), NotLoaded>,
)
    requires
        b1.spec_slot() == instance,
        got == b1.spec_slot(),
        cleared.spec_slot() is None,
        unload_result is Ok <==> cleared.spec_slot() is Some,
    ensures
        got == instance,
        unload_result is Err,
{
}

} // verus!
