//! A framework for writing protocol dissectors that plug into an external
//! packet-analysis host: declarative field descriptors, a bounds-checked
//! buffer view, an append-only display-tree builder, and the registration
//! bridge that ties an author-supplied dissector to the host's call sequence.

pub mod dissector;
pub mod epan;
pub mod wireshark;

use vstd::prelude::*;

use crate::dissector::{Bridge, Dissector, Phase};

verus! {

/// The plugin's one-time registration entry: build the explicit registry
/// object — the bridge — around the process's one dissector. The embedding
/// plugin keeps the bridge for the life of the process and threads it
/// through every host callback; nothing here is ever torn down.
pub fn plugin_register<D: Dissector>(d: D) -> (b: Bridge<D>)
    ensures
        b.wf(),
        b.phase() == Phase::Loaded,
        b.dissector_model() == d,
        b.protocol_id() == -1,
        b.issued_field_indices() == Seq::<crate::epan::HFIndex>::empty(),
        b.issued_tree_indices() == Seq::<crate::epan::ETTIndex>::empty(),
{
    Bridge::new(d)
}

} // verus!
