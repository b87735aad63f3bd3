//! The hot-swap state: one immutable tuple of (superblock meta, blob table,
//! mapping) published through an atomic cell.
//!
//! Readers snapshot the current tuple at the start of every operation and
//! scope all reads of the mapping to that snapshot; an update builds a fresh
//! tuple and swaps it in whole, so no reader ever observes a torn state and
//! handles built from an older snapshot keep reading their own tuple.

use vstd::prelude::*;

use std::sync::Arc;

verus! {

use crate::blob::{BlobInfoView, BlobTable};
use crate::map::MapState;
use crate::meta::RafsSuperMeta;

/// Mathematical view of one state tuple.
pub ghost struct StateView {
    /// The cached superblock metadata.
    pub meta: RafsSuperMeta,
    /// The parsed blob descriptors.
    pub blobs: Seq<BlobInfoView>,
    /// The mapped bytes of the bootstrap file.
    pub bytes: Seq<u8>,
}

/// One immutable state tuple: everything a reader needs to interpret the
/// bootstrap, bundled so that it can be published and superseded atomically.
pub struct DirectMappingState {
    /// The cached superblock metadata.
    pub meta: RafsSuperMeta,
    /// The parsed blob descriptors.
    pub blob_table: BlobTable,
    /// The mapped bytes of the bootstrap file.
    pub map: MapState,
}

impl View for DirectMappingState {
    type V = StateView;

    open spec fn view(&self) -> StateView {
        StateView { meta: self.meta, blobs: self.blob_table@, bytes: self.map@ }
    }
}

impl DirectMappingState {
    /// An empty tuple for the given metadata: no blobs, no mapping.
    pub fn new(meta: &RafsSuperMeta) -> (s: Self)
        ensures
            s@.meta == *meta,
            s@.blobs == Seq::<BlobInfoView>::empty(),
            s@.bytes == Seq::<u8>::empty(),
    {
        DirectMappingState { meta: *meta, blob_table: BlobTable::empty(), map: MapState::empty() }
    }
}

/// The single publication point of the current state tuple.
///
/// The cell wraps an RCU-style atomic pointer: loads are wait-free snapshots
/// and a store publishes a fully built tuple in one step. Verified code sees
/// it through `cell_state`, the view of the tuple it currently holds.
#[verifier::external_body]
pub struct StateCell {
    cell: arc_swap::ArcSwap<DirectMappingState>,
}

/// The view of the state tuple a cell currently holds.
pub uninterp spec fn cell_state(c: StateCell) -> StateView;

impl StateCell {
    /// Relies on arc_swap::ArcSwapAny::new: the new cell holds exactly the
    /// value it was constructed with.
    #[verifier::external_body]
    pub fn new(v: Arc<DirectMappingState>) -> (c: StateCell)
        ensures
            cell_state(c) == v@,
    {
        StateCell { cell: arc_swap::ArcSwap::new(v) }
    }

    /// Take a snapshot of the current state tuple.
    ///
    /// Relies on arc_swap::ArcSwapAny::load_full: it returns a clone of the
    /// reference-counted value the cell holds.
    #[verifier::external_body]
    pub fn snapshot(&self) -> (v: Arc<DirectMappingState>)
        ensures
            v@ == cell_state(*self),
    {
        self.cell.load_full()
    }

    /// Publish a fresh state tuple, superseding the current one.
    ///
    /// Relies on arc_swap::ArcSwapAny::store: after it returns, the cell
    /// holds `v`; earlier snapshots keep their own tuple alive until dropped.
    #[verifier::external_body]
    pub fn publish(&mut self, v: Arc<DirectMappingState>)
        ensures
            cell_state(*final(self)) == v@,
    {
        self.cell.store(v)
    }
}

} // verus!
