//! Hot-swappable shared state: the active note table and note mapping sit
//! behind lock-free swappable cells, so control threads can replace them
//! without ever blocking the audio or input threads.
//!
//! A reader takes a cheap owning handle to the current value; a writer
//! atomically publishes a new one, and in-flight readers keep what they
//! already hold until they drop it. Which value a load observes depends on
//! the other threads, so the trusted wrappers promise nothing about it.
//!
//! The cell is `arc_swap::ArcSwap`, held inside an opaque struct because its
//! strategy type parameter is private to that crate and cannot be declared
//! here.

use vstd::prelude::*;
use std::sync::Arc;

use crate::kit::NoteMap;
use crate::mapping::NoteMapping;

verus! {

/// A lock-free cell holding an `Arc<T>` that can be read and replaced
/// concurrently.
#[verifier::external_body]
#[verifier::reject_recursive_types(T)]
pub struct SwapCell<T> {
    inner: arc_swap::ArcSwap<T>,
}

/// Relies on arc_swap::ArcSwapAny::new: a cell holding the given value.
#[verifier::external_body]
fn cell_new<T>(value: Arc<T>) -> (r: SwapCell<T>) {
    SwapCell { inner: arc_swap::ArcSwap::new(value) }
}

/// Relies on arc_swap::ArcSwapAny::load_full: returns an owning handle to
/// the value currently in the cell. Other threads may store concurrently,
/// so nothing can be promised about which value comes back.
#[verifier::external_body]
fn cell_load<T>(cell: &SwapCell<T>) -> (r: Arc<T>) {
    cell.inner.load_full()
}

/// Relies on arc_swap::ArcSwapAny::store: atomically publishes a new value;
/// readers holding the old value keep it alive until they drop it.
#[verifier::external_body]
fn cell_store<T>(cell: &SwapCell<T>, value: Arc<T>) {
    cell.inner.store(value)
}

/// A fresh cell holding the given note table.
pub fn new_notes_cell<B>(notes: Arc<NoteMap<B>>) -> SwapCell<NoteMap<B>> {
    cell_new(notes)
}

/// The note table currently installed. Whatever table comes back, every
/// selection made through it is correct for that table.
pub fn current_notes<B>(cell: &SwapCell<NoteMap<B>>) -> Arc<NoteMap<B>> {
    cell_load(cell)
}

/// Atomically install a new note table; the swap never blocks readers, and
/// voices already playing from the old table keep their buffers.
pub fn install_kit<B>(cell: &SwapCell<NoteMap<B>>, notes: Arc<NoteMap<B>>) {
    cell_store(cell, notes)
}

/// A fresh cell holding the given note mapping.
pub fn new_mapping_cell(mapping: Arc<NoteMapping>) -> SwapCell<NoteMapping> {
    cell_new(mapping)
}

/// The note mapping currently installed.
pub fn current_mapping(cell: &SwapCell<NoteMapping>) -> Arc<NoteMapping> {
    cell_load(cell)
}

/// Atomically install a new note mapping.
pub fn install_mapping(cell: &SwapCell<NoteMapping>, mapping: Arc<NoteMapping>) {
    cell_store(cell, mapping)
}

} // verus!
