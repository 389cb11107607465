//! Notifications the surrounding chrome may emit when the tab strip changes.
//! The store itself does not dispatch them; the event loop that drives the
//! store builds one after each mutation it wants observers to see.

use vstd::prelude::*;

verus! {

/// The active tab moved from one position to another.
#[derive(Clone, Debug)]
pub struct TabChangeEvent {
    pub old_index: usize,
    pub new_index: usize,
}

/// A tab was closed.
#[derive(Clone, Debug)]
pub struct TabCloseEvent {
    pub index: usize,
    pub tab_id: String,
}

/// A tab was dragged from one position to another.
#[derive(Clone, Debug)]
pub struct TabReorderEvent {
    pub from_index: usize,
    pub to_index: usize,
}

} // verus!
