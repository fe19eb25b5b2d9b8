//! Laws the engine states about itself, beyond the contracts on the
//! operations: properties that relate several operations are stated here as
//! public proof functions over the system's model.
//!
//! The other global properties live directly on the operations they concern:
//! binding propagation and dead-edge pruning are postconditions of
//! [`crate::system::ComponentSystem::update_component`], the idempotence of
//! re-rendering an unchanged node is a postcondition of
//! [`crate::system::ComponentSystem::render_component`], and the slot's
//! reference-identity short-circuit is a postcondition of
//! [`crate::system::ComponentSystem::slot_on_updated`].

use vstd::prelude::*;

use crate::system::ComponentSystem;

verus! {

/// Visibility aliasing: once two components share a visibility cell, they
/// are visible or invisible together — any write of the shared flag is seen
/// by both, whichever of the two it was addressed to. Aliasing is exactly
/// what `track_visible` establishes (its postcondition equates the two cell
/// indices), and `set_visible` writes only through the cell index, so this
/// holds after any sequence of visibility writes.
pub proof fn lemma_visibility_aliasing(sys: ComponentSystem, child: u32, parent: u32)
    requires
        sys.wf(),
        sys.live(child),
        sys.live(parent),
        sys.node_of(child).vis_cell == sys.node_of(parent).vis_cell,
    ensures
        sys.visible_spec(child) == sys.visible_spec(parent),
{
}

/// The two directions of the aliasing law, spelled over a later state: if
/// neither component's cell index changed between two states, the sharing —
/// and with it the simultaneous visibility — persists.
pub proof fn lemma_visibility_aliasing_persists(
    sys0: ComponentSystem,
    sys1: ComponentSystem,
    child: u32,
    parent: u32,
)
    requires
        sys0.wf(),
        sys1.wf(),
        sys0.live(child),
        sys0.live(parent),
        sys1.live(child),
        sys1.live(parent),
        sys0.node_of(child).vis_cell == sys0.node_of(parent).vis_cell,
        sys1.node_of(child).vis_cell == sys0.node_of(child).vis_cell,
        sys1.node_of(parent).vis_cell == sys0.node_of(parent).vis_cell,
    ensures
        sys1.visible_spec(child) == sys1.visible_spec(parent),
{
}

} // verus!
