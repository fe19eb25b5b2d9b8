//! A retained-mode reactive UI engine: a tree of stateful components whose
//! props and state are recomputed on demand and whose output is incrementally
//! reconciled against a live document tree.
//!
//! Components live in an arena owned by the component system and are
//! addressed by stable integer identifiers; a weak reference is an identifier
//! that may no longer resolve in the arena. The rendering surface is modelled
//! by an in-memory document tree that records every mutation it performs, so
//! that claims about how many surface mutations a pass performs are part of
//! the verified contracts.
//!
//! The recursive walks (update propagation, render expansion, reconciliation)
//! take an explicit `fuel` budget: the binding graph and the rendered tree
//! are dynamic and may hold cycles, so each nested step consumes one unit and
//! an exhausted walk stops, in the same spirit as the reentrancy guard that
//! breaks update cycles. Callers pass a budget comfortably above their tree
//! depth; every contract states exactly what holds when fuel remains and
//! that nothing happens when it runs out.

pub mod values;

pub mod html;

pub mod cells;

pub mod component;

pub mod system;

pub mod laws;
