//! The per-thread handle slot: install, read, clear, and handoff.

use std::sync::Arc;
use clang_sys::registry::{NotLoaded, ThreadBinding};

#[test]
fn fresh_slot_is_empty() {
    let b: ThreadBinding<i32> = ThreadBinding::new();
    assert!(!b.is_loaded());
    assert_eq!(b.get_library(), None);
}

#[test]
fn set_then_get_returns_the_same_instance() {
    let mut b: ThreadBinding<i32> = ThreadBinding::new();
    let instance = Arc::new(7);
    let prev = b.set_library(Some(Arc::clone(&instance)));
    assert_eq!(prev, None);
    let got = b.get_library().unwrap();
    assert!(Arc::ptr_eq(&got, &instance));
    assert!(b.is_loaded());
}

#[test]
fn set_returns_the_previous_occupant() {
    let mut b: ThreadBinding<i32> = ThreadBinding::new();
    let first = Arc::new(1);
    let second = Arc::new(2);
    b.set_library(Some(Arc::clone(&first)));
    let prev = b.set_library(Some(Arc::clone(&second))).unwrap();
    assert!(Arc::ptr_eq(&prev, &first));
    assert!(Arc::ptr_eq(&b.get_library().unwrap(), &second));
}

#[test]
fn unload_clears_the_slot() {
    let mut b: ThreadBinding<i32> = ThreadBinding::new();
    b.set_library(Some(Arc::new(3)));
    assert!(b.unload().is_ok());
    assert!(!b.is_loaded());
}

#[test]
fn unload_after_clearing_reports_not_loaded() {
    let mut b: ThreadBinding<i32> = ThreadBinding::new();
    b.set_library(Some(Arc::new(3)));
    b.set_library(None);
    assert_eq!(b.unload(), Err(NotLoaded));
    assert_eq!(
        NotLoaded.message(),
        "a `libclang` shared library is not in use in the current thread"
    );
}

#[test]
fn handoff_between_two_threads_slots() {
    // Thread A's slot and thread B's slot; A loads, then hands its
    // instance to B through an explicit get/set pair.  B becomes loaded
    // without any search of its own, and both refer to the same instance.
    let mut slot_a: ThreadBinding<String> = ThreadBinding::new();
    let mut slot_b: ThreadBinding<String> = ThreadBinding::new();
    let instance = Arc::new("image".to_owned());
    slot_a.set_library(Some(Arc::clone(&instance)));
    let handed = slot_a.get_library();
    slot_b.set_library(handed);
    assert!(slot_b.is_loaded());
    assert!(slot_a.is_loaded());
    assert!(Arc::ptr_eq(&slot_b.get_library().unwrap(), &instance));
}
