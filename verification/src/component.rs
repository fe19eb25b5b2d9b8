//! The component node model: the closed union of component kinds and the
//! per-node record the arena stores.
//!
//! Kinds follow the design's tagged union: a generic component, a DOM
//! element, a DOM text node, a list container and its items, and the two
//! structural combinators (slot and conditional), each carrying only its
//! relevant payload.

use vstd::prelude::*;

use crate::cells::{PropsCell, StateCell};
use crate::html::{HtmlElement, HtmlNode, HtmlTextNode};
use crate::values::{HtmlEvents, HtmlStyle};

verus! {

/// The behaviour flavour of a DOM-element component: the generic element,
/// the input element (which mirrors its value into state), or the anchor
/// (which manages its link attributes).
#[derive(Clone, Copy, PartialEq, Eq, Structural, Debug)]
pub enum HtmlConfig {
    Plain,
    Input,
    Anchor,
}

/// Payload of a DOM-element component.
#[derive(Debug)]
pub struct HtmlData {
    pub dom_node: HtmlElement,
    pub tag: String,
    pub config: HtmlConfig,
    /// The listeners last attached to the element, one per event name.
    pub attached_events: HtmlEvents,
    /// The style record last written to the element.
    pub saved_style: HtmlStyle,
}

/// Payload of a DOM-text component.
#[derive(Debug)]
pub struct TextData {
    pub dom_node: HtmlTextNode,
}

/// Payload of a list container: the value-list it owns for its item cache,
/// rebuilt in full on every producer update.
#[derive(Debug)]
pub struct ForeachData {
    pub items: u32,
}

/// The closed union of component kinds.
#[derive(Debug)]
pub enum ComponentKind {
    /// A generic component: no payload, renders nothing by itself.
    Plain,
    /// A transparent holder of an externally supplied child list.
    Slot,
    /// A conditional: renders one slot bound to the active branch.
    Cond,
    /// A DOM text node owner.
    Text(TextData),
    /// A DOM element owner.
    Html(HtmlData),
    /// A list container.
    Foreach(ForeachData),
    /// One item of a list container.
    ForeachItem,
}

impl ComponentKind {
    /// The real DOM node this kind owns, if any.
    pub open spec fn dom_node_spec(self) -> Option<HtmlNode> {
        match self {
            ComponentKind::Text(t) => Some(HtmlNode::Text(t.dom_node)),
            ComponentKind::Html(h) => Some(HtmlNode::Element(h.dom_node)),
            _ => None,
        }
    }

    /// The real DOM node this kind owns, if any.
    pub fn dom_node(&self) -> (r: Option<HtmlNode>)
        ensures
            r == self.dom_node_spec(),
    {
        match self {
            ComponentKind::Text(t) => Option::Some(HtmlNode::Text(t.dom_node)),
            ComponentKind::Html(h) => Option::Some(HtmlNode::Element(h.dom_node)),
            _ => Option::None,
        }
    }

    /// Whether this is the list container.
    pub fn is_foreach(&self) -> (r: bool)
        ensures
            r == (self matches ComponentKind::Foreach(_)),
    {
        match self {
            ComponentKind::Foreach(_) => true,
            _ => false,
        }
    }

    /// Whether this is a list item, the variant that treats every parent
    /// tick as a props change.
    pub fn is_foreach_item(&self) -> (r: bool)
        ensures
            r == (self is ForeachItem),
    {
        match self {
            ComponentKind::ForeachItem => true,
            _ => false,
        }
    }

    /// Whether a parent of this kind aliases its visibility into the children
    /// it renders. Only the slot manages its children's visibility itself.
    pub fn children_track_visibility(&self) -> (r: bool)
        ensures
            r == !(self is Slot),
    {
        match self {
            ComponentKind::Slot => false,
            _ => true,
        }
    }
}

/// One component: identity, kind, the props and state containers, the
/// binding-graph bookkeeping, the tree structure, and the render-pass flags.
#[derive(Debug)]
pub struct ComponentNode {
    /// The stable identifier; equal to the node's arena index.
    pub id: u32,
    /// A display name (the tag for elements).
    pub name: String,
    pub kind: ComponentKind,
    pub props: PropsCell,
    pub state: StateCell,
    /// The binding cell registering this node as a consumer, if it is bound.
    pub binding_cell: Option<u32>,
    /// Binding cells of this node's dependent consumers.
    pub desc: Vec<u32>,
    /// The externally supplied child list.
    pub children: Vec<u32>,
    /// The cached rendered-node list; absent until first render, reset by
    /// structural combinators when their active child set changes.
    pub nodes: Option<Vec<u32>>,
    /// The render counter: completed render passes.
    pub rc: u32,
    /// The element under which this node's output is placed.
    pub dom_parent: Option<HtmlElement>,
    /// Index of the (possibly shared) visibility cell.
    pub vis_cell: usize,
    /// The reentrancy guard of the update algorithm.
    pub updating: bool,
    /// Whether the node has had its first visible appearance.
    pub inserted: bool,
}

/// A typed handle on a component: its identifier in the system's arena.
#[derive(Clone, Copy, PartialEq, Eq, Structural, Debug)]
pub struct Component(pub u32);

/// A type-erased handle on a component.
#[derive(Clone, Copy, PartialEq, Eq, Structural, Debug)]
pub struct AnyComponent(pub u32);

/// A handle on a component's state container.
#[derive(Clone, Copy, PartialEq, Eq, Structural, Debug)]
pub struct State(pub u32);

impl Component {
    /// The type-erased view of this handle.
    pub fn any(&self) -> (r: AnyComponent)
        ensures
            r.0 == self.0,
    {
        AnyComponent(self.0)
    }
}

impl AnyComponent {
    /// The typed view of this handle.
    pub fn typed(&self) -> (r: Component)
        ensures
            r.0 == self.0,
    {
        Component(self.0)
    }
}

} // verus!
