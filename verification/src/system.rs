//! The component system: the arena of components, the shared visibility
//! cells, the binding-cell table, the list tables behind reference-compared
//! lists, and the frame scheduler.
//!
//! A component is addressed by its stable identifier, which is its index in
//! the arena; an identifier is never reused. A weak reference is an
//! identifier whose slot may have been vacated; resolving it at use time is
//! the arena's analogue of upgrading a weak reference.

use vstd::prelude::*;

use crate::cells::{
    Binding, PropsCell, PullFn, StateCell, eval_pull, eval_pull_spec, lemma_eval_pull_refs_ok,
    pull_refs_ok, value_refs_ok,
};
use crate::component::{
    AnyComponent, Component, ComponentKind, ComponentNode, ForeachData, HtmlConfig, HtmlData,
    State, TextData,
};
use crate::html::{AnimationFrame, EventName, HtmlDocument, HtmlElement, HtmlEvent, HtmlNode};
use crate::values::{
    Callback, EventAction, HtmlProps, HtmlTextProps, IfState, SlotProps, Value, ForeachProps,
    value_eq,
};

verus! {

/// One scheduled frame callback: drain a state container's pending value, or
/// flush the render queue.
#[derive(Clone, Copy, PartialEq, Eq, Structural, Debug)]
pub enum FrameTask {
    StateDrain(u32),
    RenderFlush,
}

/// The configuration of a generic (non-DOM) component: plain, or one of the
/// structural combinators.
#[derive(Clone, Copy, PartialEq, Eq, Structural, Debug)]
pub enum ConfigKind {
    Plain,
    Slot,
    Cond,
}

/// The component system.
#[derive(Debug)]
pub struct ComponentSystem {
    /// The arena: index is the component identifier; a vacated slot is a
    /// dropped component.
    pub components: Vec<Option<ComponentNode>>,
    /// Shared boolean visibility storage; components hold indices into it.
    pub vis_cells: Vec<bool>,
    /// Binding cells: each holds the consumer it points at until it is
    /// invalidated.
    pub binding_cells: Vec<Option<u32>>,
    /// Identity-compared lists of components (slot child lists, branch
    /// lists).
    pub comp_lists: Vec<Vec<u32>>,
    /// Identity-compared lists of values (list-container items).
    pub value_lists: Vec<Vec<Value>>,
    /// Components awaiting a render pass, in insertion order.
    pub render_queue: Vec<u32>,
    /// The token of the pending render flush, if one is scheduled.
    pub render_queue_frame: Option<AnimationFrame>,
    /// The frame callbacks scheduled for the next rendering opportunity.
    pub frame_tasks: Vec<FrameTask>,
    /// Source of frame tokens.
    pub frame_counter: usize,
    /// Source of listener identifiers the system mints for itself.
    pub callback_counter: usize,
    /// The mounted roots: a target element and the component attached to it.
    pub dom_roots: Vec<(HtmlElement, u32)>,
}

impl ComponentSystem {
    pub open spec fn n(self) -> int {
        self.components@.len() as int
    }

    /// The identifier has been issued.
    pub open spec fn allocated(self, c: u32) -> bool {
        (c as int) < self.n()
    }

    /// The identifier resolves to a component.
    pub open spec fn live(self, c: u32) -> bool {
        self.allocated(c) && self.components@[c as int] is Some
    }

    pub open spec fn node_of(self, c: u32) -> ComponentNode {
        self.components@[c as int]->0
    }

    pub open spec fn visible_spec(self, c: u32) -> bool {
        self.vis_cells@[self.node_of(c).vis_cell as int]
    }

    pub open spec fn props_of(self, c: u32) -> Value {
        self.node_of(c).props.value
    }

    pub open spec fn state_of(self, c: u32) -> Value {
        self.node_of(c).state.cell.value
    }

    /// Everything a single node must keep in range.
    pub open spec fn node_ok(self, node: ComponentNode) -> bool {
        let cl = self.comp_lists@.len() as int;
        let vl = self.value_lists@.len() as int;
        &&& (node.vis_cell as int) < self.vis_cells@.len()
        &&& (match node.binding_cell {
            Some(b) => (b as int) < self.binding_cells@.len(),
            None => true,
        })
        &&& forall|k: int|
            0 <= k < node.desc@.len() ==> ((#[trigger] node.desc@[k]) as int)
                < self.binding_cells@.len()
        &&& (match node.props.binding {
            Some(b) => (b.producer as int) < self.n() && pull_refs_ok(b.f, cl, vl),
            None => true,
        })
        &&& value_refs_ok(node.props.value, cl, vl)
        &&& value_refs_ok(node.state.cell.value, cl, vl)
        &&& (match node.state.next_value {
            Some(v) => value_refs_ok(v, cl, vl),
            None => true,
        })
        &&& forall|k: int|
            0 <= k < node.children@.len() ==> ((#[trigger] node.children@[k]) as int) < self.n()
        &&& (match node.nodes {
            Some(ns) => forall|k: int|
                0 <= k < ns@.len() ==> ((#[trigger] ns@[k]) as int) < self.n(),
            None => true,
        })
        &&& (match node.kind {
            ComponentKind::Foreach(fd) => (fd.items as int) < vl,
            _ => true,
        })
    }

    /// Well-formedness of the whole system: every live node is in range, as
    /// is everything the tables and the scheduler hold.
    pub open spec fn wf(self) -> bool {
        &&& forall|c: int|
            0 <= c < self.n() && self.components@[c] is Some ==> self.node_ok(
                (#[trigger] self.components@[c])->0,
            )
        &&& forall|b: int|
            0 <= b < self.binding_cells@.len() && self.binding_cells@[b] is Some ==> ((
            #[trigger] self.binding_cells@[b])->0 as int) < self.n()
        &&& forall|l: int, k: int|
            0 <= l < self.comp_lists@.len() && 0 <= k < self.comp_lists@[l].len() ==> ((
            #[trigger] self.comp_lists@[l][k]) as int) < self.n()
        &&& forall|l: int, k: int|
            0 <= l < self.value_lists@.len() && 0 <= k < self.value_lists@[l].len()
                ==> value_refs_ok(
                #[trigger] self.value_lists@[l][k],
                self.comp_lists@.len() as int,
                self.value_lists@.len() as int,
            )
        &&& forall|k: int|
            0 <= k < self.render_queue@.len() ==> ((#[trigger] self.render_queue@[k]) as int)
                < self.n()
        &&& forall|k: int|
            0 <= k < self.frame_tasks@.len() ==> (match #[trigger] self.frame_tasks@[k] {
                FrameTask::StateDrain(c) => (c as int) < self.n(),
                FrameTask::RenderFlush => true,
            })
    }

    /// Every DOM handle a live node carries resolves in the document, with
    /// the right node kind behind it.
    pub open spec fn doc_ok(self, doc: HtmlDocument) -> bool {
        forall|c: int|
            0 <= c < self.n() && self.components@[c] is Some ==> {
                let node = (#[trigger] self.components@[c])->0;
                &&& (match node.kind {
                    ComponentKind::Text(t) => doc.valid(t.dom_node.0) && doc.is_text_node(
                        t.dom_node.0,
                    ),
                    ComponentKind::Html(h) => doc.valid(h.dom_node.0) && !doc.is_text_node(
                        h.dom_node.0,
                    ),
                    _ => true,
                })
                &&& (match node.dom_parent {
                    Some(e) => doc.valid(e.0) && !doc.is_text_node(e.0),
                    None => true,
                })
            }
    }

    /// A fresh system: nothing allocated, nothing scheduled.
    pub fn new() -> (sys: ComponentSystem)
        ensures
            sys.wf(),
            sys.n() == 0,
            sys.vis_cells@.len() == 0,
            sys.binding_cells@.len() == 0,
            sys.comp_lists@.len() == 0,
            sys.value_lists@.len() == 0,
            sys.render_queue@.len() == 0,
            sys.render_queue_frame is None,
            sys.frame_tasks@.len() == 0,
            sys.dom_roots@.len() == 0,
            forall|doc: HtmlDocument| sys.doc_ok(doc),
    {
        ComponentSystem {
            components: Vec::new(),
            vis_cells: Vec::new(),
            binding_cells: Vec::new(),
            comp_lists: Vec::new(),
            value_lists: Vec::new(),
            render_queue: Vec::new(),
            render_queue_frame: Option::None,
            frame_tasks: Vec::new(),
            frame_counter: 0,
            callback_counter: 0,
            dom_roots: Vec::new(),
        }
    }

    /// Allocate a fresh, identity-compared component list.
    pub fn new_component_list(&mut self, items: Vec<u32>) -> (l: u32)
        requires
            old(self).wf(),
            old(self).comp_lists@.len() < u32::MAX,
            forall|k: int| 0 <= k < items@.len() ==> ((#[trigger] items@[k]) as int) < old(self).n(),
        ensures
            final(self).wf(),
            l as int == old(self).comp_lists@.len(),
            final(self).comp_lists@ == old(self).comp_lists@.push(items),
            same_but_comp_lists(*old(self), *final(self)),
    {
        let l = self.comp_lists.len() as u32;
        self.comp_lists.push(items);
        proof {
            lemma_grown_tables_wf(*old(self), *self);
        }
        l
    }

    /// Allocate a fresh, identity-compared value list.
    pub fn new_value_list(&mut self, items: Vec<Value>) -> (l: u32)
        requires
            old(self).wf(),
            old(self).value_lists@.len() < u32::MAX,
            forall|k: int|
                0 <= k < items@.len() ==> value_refs_ok(
                    #[trigger] items@[k],
                    old(self).comp_lists@.len() as int,
                    old(self).value_lists@.len() as int,
                ),
        ensures
            final(self).wf(),
            l as int == old(self).value_lists@.len(),
            final(self).value_lists@ == old(self).value_lists@.push(items),
            same_but_value_lists(*old(self), *final(self)),
    {
        let l = self.value_lists.len() as u32;
        self.value_lists.push(items);
        proof {
            lemma_grown_tables_wf(*old(self), *self);
        }
        l
    }
}

impl ComponentSystem {
    /// Allocate a component slot: a fresh identifier, a fresh (invisible)
    /// visibility cell, default flags, no children and no cached render list.
    fn alloc_component(&mut self, name: String, kind: ComponentKind, props: Value, state: Value)
        -> (c: Component)
        requires
            old(self).wf(),
            old(self).n() < u32::MAX,
            old(self).vis_cells@.len() < usize::MAX,
            value_refs_ok(
                props,
                old(self).comp_lists@.len() as int,
                old(self).value_lists@.len() as int,
            ),
            value_refs_ok(
                state,
                old(self).comp_lists@.len() as int,
                old(self).value_lists@.len() as int,
            ),
            match kind {
                ComponentKind::Foreach(fd) => (fd.items as int) < old(self).value_lists@.len(),
                _ => true,
            },
        ensures
            final(self).wf(),
            c.0 as int == old(self).n(),
            final(self).n() == old(self).n() + 1,
            final(self).live(c.0),
            forall|j: int|
                0 <= j < old(self).n() ==> final(self).components@[j] == old(self).components@[j],
            final(self).vis_cells@ == old(self).vis_cells@.push(false),
            final(self).binding_cells@ == old(self).binding_cells@,
            final(self).comp_lists@ == old(self).comp_lists@,
            final(self).value_lists@ == old(self).value_lists@,
            final(self).render_queue@ == old(self).render_queue@,
            final(self).render_queue_frame == old(self).render_queue_frame,
            final(self).frame_tasks@ == old(self).frame_tasks@,
            final(self).dom_roots@ == old(self).dom_roots@,
            final(self).frame_counter == old(self).frame_counter,
            final(self).callback_counter == old(self).callback_counter,
            ({
                let node = final(self).node_of(c.0);
                &&& node.id == c.0
                &&& node.name == name
                &&& node.kind == kind
                &&& node.props.value == props
                &&& node.props.binding is None
                &&& !node.props.dirty
                &&& node.state.cell.value == state
                &&& node.state.cell.binding is None
                &&& !node.state.cell.dirty
                &&& node.state.next_value is None
                &&& node.state.frame is None
                &&& node.binding_cell is None
                &&& node.desc@.len() == 0
                &&& node.children@.len() == 0
                &&& node.nodes is None
                &&& node.rc == 0
                &&& node.dom_parent is None
                &&& node.vis_cell as int == old(self).vis_cells@.len()
                &&& !node.updating
                &&& !node.inserted
            }),
            !final(self).visible_spec(c.0),
    {
        let id = self.components.len() as u32;
        let vis_cell = self.vis_cells.len();
        self.vis_cells.push(false);
        let node = ComponentNode {
            id,
            name,
            kind,
            props: PropsCell::new(props),
            state: StateCell::new(state),
            binding_cell: Option::None,
            desc: Vec::new(),
            children: Vec::new(),
            nodes: Option::None,
            rc: 0,
            dom_parent: Option::None,
            vis_cell,
            updating: false,
            inserted: false,
        };
        self.components.push(Option::Some(node));
        proof {
            lemma_value_refs_ok_monotone(
                old(self).comp_lists@.len() as int,
                old(self).value_lists@.len() as int,
            );
            assert forall|c2: int|
                0 <= c2 < self.n() && self.components@[c2] is Some implies self.node_ok(
                (#[trigger] self.components@[c2])->0,
            ) by {
                if c2 < old(self).n() {
                    assert(self.components@[c2] == old(self).components@[c2]);
                    assert(old(self).node_ok(old(self).components@[c2]->0));
                }
            }
        }
        Component(id)
    }

    /// Create a generic component or a structural combinator, registered
    /// under a fresh identifier. A slot starts with a fresh empty child-list
    /// reference; a conditional starts with fresh empty branch lists and a
    /// false condition.
    pub fn create_component(&mut self, config: ConfigKind) -> (c: Component)
        requires
            old(self).wf(),
            old(self).n() < u32::MAX,
            old(self).vis_cells@.len() < usize::MAX,
            old(self).comp_lists@.len() + 3 < u32::MAX,
        ensures
            final(self).wf(),
            c.0 as int == old(self).n(),
            final(self).n() == old(self).n() + 1,
            final(self).live(c.0),
            forall|j: int|
                0 <= j < old(self).n() ==> final(self).components@[j] == old(self).components@[j],
            final(self).vis_cells@.len() == old(self).vis_cells@.len() + 1,
            final(self).binding_cells@ == old(self).binding_cells@,
            final(self).value_lists@ == old(self).value_lists@,
            final(self).render_queue@ == old(self).render_queue@,
            final(self).render_queue_frame == old(self).render_queue_frame,
            final(self).frame_tasks@ == old(self).frame_tasks@,
            final(self).dom_roots@ == old(self).dom_roots@,
            !final(self).visible_spec(c.0),
            !final(self).node_of(c.0).updating,
            !final(self).node_of(c.0).inserted,
            final(self).node_of(c.0).rc == 0,
            final(self).node_of(c.0).nodes is None,
            final(self).node_of(c.0).desc@.len() == 0,
            final(self).node_of(c.0).children@.len() == 0,
            final(self).node_of(c.0).props.binding is None,
            !final(self).node_of(c.0).props.dirty,
            final(self).node_of(c.0).dom_parent is None,
            match config {
                ConfigKind::Plain => {
                    &&& final(self).node_of(c.0).kind is Plain
                    &&& final(self).node_of(c.0).name@ == "component"@
                    &&& final(self).props_of(c.0) == Value::Unit
                    &&& final(self).state_of(c.0) == Value::Unit
                    &&& final(self).comp_lists@ == old(self).comp_lists@
                },
                ConfigKind::Slot => {
                    &&& final(self).node_of(c.0).kind is Slot
                    &&& final(self).node_of(c.0).name@ == "slot"@
                    &&& final(self).props_of(c.0) == Value::Slot(
                        SlotProps { components: old(self).comp_lists@.len() as u32 },
                    )
                    &&& final(self).state_of(c.0) == Value::Unit
                    &&& final(self).comp_lists@.len() == old(self).comp_lists@.len() + 1
                    &&& final(self).comp_lists@[old(self).comp_lists@.len() as int]@.len() == 0
                },
                ConfigKind::Cond => {
                    &&& final(self).node_of(c.0).kind is Cond
                    &&& final(self).node_of(c.0).name@ == "if"@
                    &&& final(self).props_of(c.0) == Value::Bool(false)
                    &&& final(self).state_of(c.0) == Value::CondState(
                        IfState {
                            if_children: old(self).comp_lists@.len() as u32,
                            else_children: (old(self).comp_lists@.len() + 1) as u32,
                            visible_children: (old(self).comp_lists@.len() + 2) as u32,
                        },
                    )
                },
            },
    {
        match config {
            ConfigKind::Plain => self.alloc_component(
                "component".to_owned(),
                ComponentKind::Plain,
                Value::Unit,
                Value::Unit,
            ),
            ConfigKind::Slot => {
                let l = self.new_component_list(Vec::new());
                self.alloc_component(
                    "slot".to_owned(),
                    ComponentKind::Slot,
                    Value::Slot(SlotProps { components: l }),
                    Value::Unit,
                )
            },
            ConfigKind::Cond => {
                let l_if = self.new_component_list(Vec::new());
                let l_else = self.new_component_list(Vec::new());
                let l_vis = self.new_component_list(Vec::new());
                self.alloc_component(
                    "if".to_owned(),
                    ComponentKind::Cond,
                    Value::Bool(false),
                    Value::CondState(
                        IfState { if_children: l_if, else_children: l_else, visible_children: l_vis },
                    ),
                )
            },
        }
    }

    /// Create a DOM-text component: its text node is created in the document
    /// and owned by the component.
    pub fn create_text_component(&mut self, doc: &mut HtmlDocument, text_content: String) -> (c:
        Component)
        requires
            old(self).wf(),
            old(doc).wf(),
            old(self).doc_ok(*old(doc)),
            old(self).n() < u32::MAX,
            old(self).vis_cells@.len() < usize::MAX,
        ensures
            final(self).wf(),
            final(doc).wf(),
            final(self).doc_ok(*final(doc)),
            c.0 as int == old(self).n(),
            final(self).n() == old(self).n() + 1,
            final(self).live(c.0),
            forall|j: int|
                0 <= j < old(self).n() ==> final(self).components@[j] == old(self).components@[j],
            final(self).binding_cells@ == old(self).binding_cells@,
            final(self).comp_lists@ == old(self).comp_lists@,
            final(self).value_lists@ == old(self).value_lists@,
            final(self).render_queue@ == old(self).render_queue@,
            final(self).render_queue_frame == old(self).render_queue_frame,
            final(self).frame_tasks@ == old(self).frame_tasks@,
            !final(self).visible_spec(c.0),
            final(self).node_of(c.0).kind == ComponentKind::Text(
                TextData { dom_node: crate::html::HtmlTextNode((old(doc).n()) as usize) },
            ),
            final(self).props_of(c.0) == Value::TextProps(HtmlTextProps { text_content }),
            final(self).node_of(c.0).name@ == "text"@,
            final(self).node_of(c.0).nodes is None,
            final(self).node_of(c.0).dom_parent is None,
            !final(self).node_of(c.0).updating,
            !final(self).node_of(c.0).inserted,
            final(self).node_of(c.0).rc == 0,
            final(self).node_of(c.0).desc@.len() == 0,
            final(doc).n() == old(doc).n() + 1,
            final(doc).op_log() == old(doc).op_log().push(
                crate::html::SurfaceOp::CreateText { node: old(doc).n() as usize },
            ),
            final(doc).text_of(old(doc).n() as usize) == text_content@,
            final(doc).parent_of(old(doc).n() as usize) is None,
            forall|i: usize|
                old(doc).valid(i) ==> final(doc).nodes@[i as int] == old(doc).nodes@[i as int],
    {
        let dom_node = doc.create_text_node(text_content.clone());
        let c = self.alloc_component(
            "text".to_owned(),
            ComponentKind::Text(TextData { dom_node }),
            Value::TextProps(HtmlTextProps { text_content }),
            Value::Unit,
        );
        proof {
            assert forall|c2: int|
                0 <= c2 < self.n() && self.components@[c2] is Some implies ({
                let node = (#[trigger] self.components@[c2])->0;
                &&& (match node.kind {
                    ComponentKind::Text(t) => doc.valid(t.dom_node.0) && doc.is_text_node(
                        t.dom_node.0,
                    ),
                    ComponentKind::Html(h) => doc.valid(h.dom_node.0) && !doc.is_text_node(
                        h.dom_node.0,
                    ),
                    _ => true,
                })
                &&& (match node.dom_parent {
                    Some(e) => doc.valid(e.0) && !doc.is_text_node(e.0),
                    None => true,
                })
            }) by {
                if c2 < old(self).n() {
                    assert(self.components@[c2] == old(self).components@[c2]);
                }
            }
        }
        c
    }

    /// Create a DOM-element component: its element is created in the
    /// document; an input element gets its state-mirroring listener attached
    /// at creation.
    pub fn create_html_component(&mut self, doc: &mut HtmlDocument, tag: String, config: HtmlConfig)
        -> (c: Component)
        requires
            old(self).wf(),
            old(doc).wf(),
            old(self).doc_ok(*old(doc)),
            old(self).n() < u32::MAX,
            old(self).vis_cells@.len() < usize::MAX,
            old(self).callback_counter < usize::MAX,
        ensures
            final(self).wf(),
            final(doc).wf(),
            final(self).doc_ok(*final(doc)),
            c.0 as int == old(self).n(),
            final(self).n() == old(self).n() + 1,
            final(self).live(c.0),
            forall|j: int|
                0 <= j < old(self).n() ==> final(self).components@[j] == old(self).components@[j],
            final(self).binding_cells@ == old(self).binding_cells@,
            final(self).comp_lists@ == old(self).comp_lists@,
            final(self).value_lists@ == old(self).value_lists@,
            final(self).render_queue@ == old(self).render_queue@,
            final(self).render_queue_frame == old(self).render_queue_frame,
            final(self).frame_tasks@ == old(self).frame_tasks@,
            !final(self).visible_spec(c.0),
            final(self).node_of(c.0).kind matches ComponentKind::Html(h) && h.dom_node.0 == old(
                doc,
            ).n() as usize && h.config == config && h.tag == tag,
            final(self).node_of(c.0).name == tag,
            (match config {
                HtmlConfig::Input => final(self).state_of(c.0) matches Value::Str(s)
                    && s@.len() == 0,
                _ => final(self).state_of(c.0) == Value::Unit,
            }),
            (match config {
                HtmlConfig::Input => final(doc).op_log() == old(doc).op_log().push(
                    crate::html::SurfaceOp::CreateElement { node: old(doc).n() as usize },
                ).push(
                    crate::html::SurfaceOp::AddListener {
                        node: old(doc).n() as usize,
                        event: EventName::Input,
                        listener: old(self).callback_counter,
                    },
                ),
                _ => final(doc).op_log() == old(doc).op_log().push(
                    crate::html::SurfaceOp::CreateElement { node: old(doc).n() as usize },
                ),
            }),
            final(self).props_of(c.0) == Value::Html(
                HtmlProps {
                    class: None::<String>,
                    class_name: None::<String>,
                    style: None::<crate::values::HtmlStyle>,
                    id: None::<String>,
                    on_input: Callback { action: None::<EventAction>, id: 0 },
                    on_click: Callback { action: None::<EventAction>, id: 0 },
                    on_change: Callback { action: None::<EventAction>, id: 0 },
                    href: None::<String>,
                    target: None::<String>,
                    value: None::<String>,
                },
            ),
            final(self).node_of(c.0).nodes is None,
            final(self).node_of(c.0).dom_parent is None,
            !final(self).node_of(c.0).updating,
            !final(self).node_of(c.0).inserted,
            final(self).node_of(c.0).rc == 0,
            final(self).node_of(c.0).desc@.len() == 0,
            final(self).node_of(c.0).children@.len() == 0,
            final(doc).n() == old(doc).n() + 1,
            forall|i: usize|
                old(doc).valid(i) ==> final(doc).parent_of(i) == old(doc).parent_of(i)
                    && final(doc).children_of(i) == old(doc).children_of(i)
                    && final(doc).is_text_node(i) == old(doc).is_text_node(i),
    {
        let dom_node = doc.create_element(tag.clone());
        let name = tag.clone();
        let state: Value = match config {
            HtmlConfig::Input => Value::Str(String::new()),
            _ => Value::Unit,
        };
        let c = self.alloc_component(
            name,
            ComponentKind::Html(
                HtmlData {
                    dom_node,
                    tag,
                    config,
                    attached_events: crate::values::HtmlEvents::default(),
                    saved_style: crate::values::HtmlStyle::default(),
                },
            ),
            Value::Html(HtmlProps::default()),
            state,
        );
        if let HtmlConfig::Input = config {
            let cb_id = self.callback_counter;
            self.callback_counter = self.callback_counter + 1;
            dom_node.add_event_listener(
                doc,
                EventName::Input,
                Callback {
                    action: Option::Some(EventAction::SetStateFromTarget { component: c.0 }),
                    id: cb_id,
                },
            );
        }
        proof {
            assert forall|i: usize|
                old(doc).valid(i) implies doc.parent_of(i) == old(doc).parent_of(i)
                && doc.children_of(i) == old(doc).children_of(i)
                && doc.is_text_node(i) == old(doc).is_text_node(i) by {
                assert(doc.nodes@[i as int].parent == old(doc).nodes@[i as int].parent);
            }
            assert forall|c2: int|
                0 <= c2 < self.n() && self.components@[c2] is Some implies ({
                let node = (#[trigger] self.components@[c2])->0;
                &&& (match node.kind {
                    ComponentKind::Text(t) => doc.valid(t.dom_node.0) && doc.is_text_node(
                        t.dom_node.0,
                    ),
                    ComponentKind::Html(h) => doc.valid(h.dom_node.0) && !doc.is_text_node(
                        h.dom_node.0,
                    ),
                    _ => true,
                })
                &&& (match node.dom_parent {
                    Some(e) => doc.valid(e.0) && !doc.is_text_node(e.0),
                    None => true,
                })
            }) by {
                if c2 < old(self).n() {
                    assert(self.components@[c2] == old(self).components@[c2]);
                }
            }
        }
        c
    }

    /// Create a list container. The name and context parameters mirror the
    /// construction interface of the template generator; the container starts
    /// with a fresh empty item list and a fresh empty item cache.
    pub fn create_foreach_component(
        &mut self,
        _item_name: String,
        _index_name: Option<String>,
        _component_context: AnyComponent,
    ) -> (c: Component)
        requires
            old(self).wf(),
            old(self).n() < u32::MAX,
            old(self).vis_cells@.len() < usize::MAX,
            old(self).value_lists@.len() + 2 < u32::MAX,
        ensures
            final(self).wf(),
            c.0 as int == old(self).n(),
            final(self).n() == old(self).n() + 1,
            final(self).live(c.0),
            forall|j: int|
                0 <= j < old(self).n() ==> final(self).components@[j] == old(self).components@[j],
            final(self).comp_lists@ == old(self).comp_lists@,
            final(self).binding_cells@ == old(self).binding_cells@,
            !final(self).visible_spec(c.0),
            final(self).node_of(c.0).kind == ComponentKind::Foreach(
                ForeachData { items: (old(self).value_lists@.len() + 1) as u32 },
            ),
            final(self).props_of(c.0) == Value::Foreach(
                ForeachProps { items: old(self).value_lists@.len() as u32 },
            ),
            final(self).node_of(c.0).name@ == "foreach"@,
            final(self).value_lists@.len() == old(self).value_lists@.len() + 2,
            final(self).value_list_of(old(self).value_lists@.len() as u32).len() == 0,
            final(self).value_list_of((old(self).value_lists@.len() + 1) as u32).len() == 0,
    {
        let props_list = self.new_value_list(Vec::new());
        let cache_list = self.new_value_list(Vec::new());
        self.alloc_component(
            "foreach".to_owned(),
            ComponentKind::Foreach(ForeachData { items: cache_list }),
            Value::Foreach(ForeachProps { items: props_list }),
            Value::Unit,
        )
    }

    /// Create one item of a list container.
    pub fn create_foreach_item_component(
        &mut self,
        _component_context: AnyComponent,
        _item_name: String,
        _index: Option<u32>,
    ) -> (c: Component)
        requires
            old(self).wf(),
            old(self).n() < u32::MAX,
            old(self).vis_cells@.len() < usize::MAX,
        ensures
            final(self).wf(),
            c.0 as int == old(self).n(),
            final(self).n() == old(self).n() + 1,
            final(self).live(c.0),
            forall|j: int|
                0 <= j < old(self).n() ==> final(self).components@[j] == old(self).components@[j],
            final(self).comp_lists@ == old(self).comp_lists@,
            final(self).value_lists@ == old(self).value_lists@,
            final(self).binding_cells@ == old(self).binding_cells@,
            !final(self).visible_spec(c.0),
            final(self).node_of(c.0).kind is ForeachItem,
            final(self).props_of(c.0) == Value::Unit,
            final(self).state_of(c.0) == Value::Unit,
            final(self).node_of(c.0).name@ == "foreachItem"@,
    {
        self.alloc_component(
            "foreachItem".to_owned(),
            ComponentKind::ForeachItem,
            Value::Unit,
            Value::Unit,
        )
    }

    /// Abandon a component: vacate its arena slot, as dropping the last
    /// strong reference would. Binding cells that point at it become dead
    /// weak edges, pruned by their producers' next update pass.
    pub fn drop_component(&mut self, c: AnyComponent)
        requires
            old(self).wf(),
            old(self).allocated(c.0),
        ensures
            final(self).wf(),
            !final(self).live(c.0),
            final(self).n() == old(self).n(),
            forall|j: int|
                0 <= j < old(self).n() && j != c.0 as int ==> final(self).components@[j] == old(
                    self,
                ).components@[j],
            final(self).vis_cells@ == old(self).vis_cells@,
            final(self).binding_cells@ == old(self).binding_cells@,
            final(self).comp_lists@ == old(self).comp_lists@,
            final(self).value_lists@ == old(self).value_lists@,
            final(self).render_queue@ == old(self).render_queue@,
            final(self).frame_tasks@ == old(self).frame_tasks@,
    {
        let idx = c.0 as usize;
        let _slot = self.components.remove(idx);
        self.components.insert(idx, Option::None);
        proof {
            assert(self.components@ =~= old(self).components@.update(
                c.0 as int,
                Option::None::<ComponentNode>,
            ));
            assert forall|c2: int|
                0 <= c2 < self.n() && self.components@[c2] is Some implies self.node_ok(
                (#[trigger] self.components@[c2])->0,
            ) by {
                assert(self.components@[c2] == old(self).components@[c2]);
                assert(old(self).node_ok(old(self).components@[c2]->0));
            }
        }
    }
}

impl ComponentSystem {
    /// The contents of an identity-compared component list.
    pub open spec fn comp_list_of(self, l: u32) -> Seq<u32> {
        self.comp_lists@[l as int]@
    }

    /// The contents of an identity-compared value list.
    pub open spec fn value_list_of(self, l: u32) -> Seq<Value> {
        self.value_lists@[l as int]@
    }

    /// Read a component list's contents.
    pub fn read_component_list(&self, l: u32) -> (r: Vec<u32>)
        requires
            self.wf(),
            (l as int) < self.comp_lists@.len(),
        ensures
            r@ == self.comp_list_of(l),
    {
        let mut r: Vec<u32> = Vec::new();
        let list = &self.comp_lists[l as usize];
        let mut k: usize = 0;
        while k < list.len()
            invariant
                k <= list@.len(),
                r@ == list@.subrange(0, k as int),
            decreases list@.len() - k,
        {
            r.push(list[k]);
            proof {
                assert(r@ =~= list@.subrange(0, k as int + 1));
            }
            k = k + 1;
        }
        proof {
            assert(r@ =~= list@);
        }
        r
    }

    /// Read a value list's contents.
    pub fn read_value_list(&self, l: u32) -> (r: Vec<Value>)
        requires
            self.wf(),
            (l as int) < self.value_lists@.len(),
        ensures
            r@ == self.value_list_of(l),
    {
        let mut r: Vec<Value> = Vec::new();
        let list = &self.value_lists[l as usize];
        let mut k: usize = 0;
        while k < list.len()
            invariant
                k <= list@.len(),
                r@ == list@.subrange(0, k as int),
            decreases list@.len() - k,
        {
            r.push(list[k].clone());
            proof {
                assert(r@ =~= list@.subrange(0, k as int + 1));
            }
            k = k + 1;
        }
        proof {
            assert(r@ =~= list@);
        }
        r
    }

    /// Whether the identifier still resolves to a component.
    pub fn is_live(&self, c: u32) -> (r: bool)
        requires
            self.allocated(c),
        ensures
            r == self.live(c),
    {
        match &self.components[c as usize] {
            Option::Some(_) => true,
            Option::None => false,
        }
    }

    /// Append a component to the render queue and, if no flush is scheduled
    /// yet, schedule exactly one.
    pub fn request_render(&mut self, n: &AnyComponent)
        requires
            old(self).wf(),
            old(self).allocated(n.0),
        ensures
            final(self).wf(),
            final(self).render_queue@ == old(self).render_queue@.push(n.0),
            old(self).render_queue_frame is Some ==> final(self).render_queue_frame == old(
                self,
            ).render_queue_frame && final(self).frame_tasks@ == old(self).frame_tasks@,
            old(self).render_queue_frame is None ==> final(self).render_queue_frame is Some
                && final(self).frame_tasks@ == old(self).frame_tasks@.push(FrameTask::RenderFlush),
            final(self).components@ == old(self).components@,
            final(self).vis_cells@ == old(self).vis_cells@,
            final(self).binding_cells@ == old(self).binding_cells@,
            final(self).comp_lists@ == old(self).comp_lists@,
            final(self).value_lists@ == old(self).value_lists@,
            final(self).dom_roots@ == old(self).dom_roots@,
            final(self).callback_counter == old(self).callback_counter,
    {
        self.render_queue.push(n.0);
        let schedule = match self.render_queue_frame {
            Option::None => true,
            Option::Some(_) => false,
        };
        if schedule {
            let token = AnimationFrame(self.frame_counter);
            if self.frame_counter < usize::MAX {
                self.frame_counter = self.frame_counter + 1;
            }
            self.render_queue_frame = Option::Some(token);
            self.frame_tasks.push(FrameTask::RenderFlush);
        }
        proof {
            assert forall|c2: int|
                0 <= c2 < self.n() && self.components@[c2] is Some implies self.node_ok(
                (#[trigger] self.components@[c2])->0,
            ) by {
                assert(old(self).node_ok(old(self).components@[c2]->0));
            }
        }
    }
}

impl ComponentSystem {
    /// Store a pending state value for the component and, if no drain is
    /// scheduled for this state container yet, schedule exactly one. Only the
    /// last pending value set before the drain survives.
    pub fn set_state(&mut self, c: u32, new_value: Value)
        requires
            old(self).wf(),
            old(self).live(c),
            value_refs_ok(
                new_value,
                old(self).comp_lists@.len() as int,
                old(self).value_lists@.len() as int,
            ),
        ensures
            final(self).wf(),
            final(self).live(c),
            final(self).n() == old(self).n(),
            forall|j: int|
                0 <= j < old(self).n() && j != c as int ==> final(self).components@[j] == old(
                    self,
                ).components@[j],
            ({
                let node = old(self).node_of(c);
                let new_node = final(self).node_of(c);
                &&& new_node.state.next_value == Some(new_value)
                &&& new_node.state.cell == node.state.cell
                &&& new_node.props == node.props
                &&& new_node.kind == node.kind
                &&& new_node.id == node.id
                &&& new_node.name == node.name
                &&& new_node.binding_cell == node.binding_cell
                &&& new_node.desc == node.desc
                &&& new_node.children == node.children
                &&& new_node.nodes == node.nodes
                &&& new_node.rc == node.rc
                &&& new_node.dom_parent == node.dom_parent
                &&& new_node.vis_cell == node.vis_cell
                &&& new_node.updating == node.updating
                &&& new_node.inserted == node.inserted
                &&& new_node.state.frame is Some
                &&& (if node.state.frame is None {
                    final(self).frame_tasks@ == old(self).frame_tasks@.push(
                        FrameTask::StateDrain(c),
                    )
                } else {
                    final(self).frame_tasks@ == old(self).frame_tasks@ && new_node.state.frame
                        == node.state.frame
                })
            }),
            final(self).vis_cells@ == old(self).vis_cells@,
            final(self).binding_cells@ == old(self).binding_cells@,
            final(self).comp_lists@ == old(self).comp_lists@,
            final(self).value_lists@ == old(self).value_lists@,
            final(self).render_queue@ == old(self).render_queue@,
            final(self).render_queue_frame == old(self).render_queue_frame,
            final(self).dom_roots@ == old(self).dom_roots@,
            final(self).callback_counter == old(self).callback_counter,
    {
        let idx = c as usize;
        let slot = self.components.remove(idx);
        match slot {
            Option::Some(mut node) => {
                node.state.next_value = Option::Some(new_value);
                let schedule = match node.state.frame {
                    Option::None => true,
                    Option::Some(_) => false,
                };
                if schedule {
                    let token = AnimationFrame(self.frame_counter);
                    if self.frame_counter < usize::MAX {
                        self.frame_counter = self.frame_counter + 1;
                    }
                    node.state.frame = Option::Some(token);
                    self.frame_tasks.push(FrameTask::StateDrain(c));
                }
                self.components.insert(idx, Option::Some(node));
            },
            Option::None => {
                proof {
                    assert(false);
                }
                self.components.insert(idx, Option::None);
            },
        }
        proof {
            assert(self.components@ =~= old(self).components@.update(
                c as int,
                self.components@[c as int],
            ));
            assert forall|c2: int|
                0 <= c2 < self.n() && self.components@[c2] is Some implies self.node_ok(
                (#[trigger] self.components@[c2])->0,
            ) by {
                if c2 != c as int {
                    assert(old(self).node_ok(old(self).components@[c2]->0));
                } else {
                    assert(old(self).node_ok(old(self).node_of(c)));
                }
            }
        }
    }
}

impl Component {
    /// The component's display name.
    pub fn name(&self, sys: &ComponentSystem) -> (r: String)
        requires
            sys.wf(),
            sys.live(self.0),
        ensures
            r == sys.node_of(self.0).name,
    {
        match &sys.components[self.0 as usize] {
            Option::Some(node) => node.name.clone(),
            Option::None => {
                proof {
                    assert(false);
                }
                String::new()
            },
        }
    }

    /// The component's current props value.
    pub fn props(&self, sys: &ComponentSystem) -> (r: Value)
        requires
            sys.wf(),
            sys.live(self.0),
        ensures
            r == sys.props_of(self.0),
    {
        match &sys.components[self.0 as usize] {
            Option::Some(node) => node.props.value(),
            Option::None => {
                proof {
                    assert(false);
                }
                Value::Unit
            },
        }
    }

    /// A handle on the component's state container.
    pub fn state(&self) -> (r: State)
        ensures
            r.0 == self.0,
    {
        State(self.0)
    }

    /// The component's externally supplied child list.
    pub fn children(&self, sys: &ComponentSystem) -> (r: Vec<AnyComponent>)
        requires
            sys.wf(),
            sys.live(self.0),
        ensures
            r@.len() == sys.node_of(self.0).children@.len(),
            forall|k: int|
                0 <= k < r@.len() ==> (#[trigger] r@[k]).0 == sys.node_of(self.0).children@[k],
    {
        self.any().children(sys)
    }

    /// Whether the component is visible.
    pub fn visible(&self, sys: &ComponentSystem) -> (r: bool)
        requires
            sys.wf(),
            sys.live(self.0),
        ensures
            r == sys.visible_spec(self.0),
    {
        self.any().visible(sys)
    }

    /// Replace the component's externally supplied child list.
    pub fn set_children(&self, sys: &mut ComponentSystem, children: Vec<AnyComponent>)
        requires
            old(sys).wf(),
            old(sys).live(self.0),
            forall|k: int| 0 <= k < children@.len() ==> old(sys).allocated((#[trigger] children@[k]).0),
        ensures
            final(sys).wf(),
            final(sys).live(self.0),
            final(sys).n() == old(sys).n(),
            forall|j: int|
                0 <= j < old(sys).n() && j != self.0 as int ==> final(sys).components@[j] == old(
                    sys,
                ).components@[j],
            final(sys).node_of(self.0).children@.len() == children@.len(),
            forall|k: int|
                0 <= k < children@.len() ==> final(sys).node_of(self.0).children@[k] == (
                #[trigger] children@[k]).0,
            ({
                let node = old(sys).node_of(self.0);
                let new_node = final(sys).node_of(self.0);
                &&& new_node.props == node.props
                &&& new_node.state == node.state
                &&& new_node.kind == node.kind
                &&& new_node.nodes == node.nodes
                &&& new_node.vis_cell == node.vis_cell
                &&& new_node.desc == node.desc
                &&& new_node.rc == node.rc
                &&& new_node.dom_parent == node.dom_parent
                &&& new_node.updating == node.updating
                &&& new_node.inserted == node.inserted
            }),
            final(sys).vis_cells@ == old(sys).vis_cells@,
            final(sys).binding_cells@ == old(sys).binding_cells@,
            final(sys).comp_lists@ == old(sys).comp_lists@,
            final(sys).value_lists@ == old(sys).value_lists@,
            final(sys).render_queue@ == old(sys).render_queue@,
            final(sys).render_queue_frame == old(sys).render_queue_frame,
            final(sys).frame_tasks@ == old(sys).frame_tasks@,
    {
        let mut ids: Vec<u32> = Vec::new();
        let mut k: usize = 0;
        while k < children.len()
            invariant
                k <= children@.len(),
                ids@.len() == k as int,
                forall|j: int| 0 <= j < k ==> ids@[j] == (#[trigger] children@[j]).0,
                forall|j: int|
                    0 <= j < children@.len() ==> old(sys).allocated((#[trigger] children@[j]).0),
            decreases children@.len() - k,
        {
            ids.push(children[k].0);
            k = k + 1;
        }
        let idx = self.0 as usize;
        let slot = sys.components.remove(idx);
        match slot {
            Option::Some(mut node) => {
                node.children = ids;
                sys.components.insert(idx, Option::Some(node));
            },
            Option::None => {
                proof {
                    assert(false);
                }
                sys.components.insert(idx, Option::None);
            },
        }
        proof {
            assert(sys.components@ =~= old(sys).components@.update(
                self.0 as int,
                sys.components@[self.0 as int],
            ));
            assert forall|c2: int|
                0 <= c2 < sys.n() && sys.components@[c2] is Some implies sys.node_ok(
                (#[trigger] sys.components@[c2])->0,
            ) by {
                if c2 != self.0 as int {
                    assert(old(sys).node_ok(old(sys).components@[c2]->0));
                } else {
                    let node = old(sys).node_of(self.0);
                    let new_node = sys.node_of(self.0);
                    assert(old(sys).node_ok(node));
                    assert forall|kk: int|
                        0 <= kk < new_node.children@.len() implies ((
                    #[trigger] new_node.children@[kk]) as int) < sys.n() by {
                        assert(new_node.children@[kk] == children@[kk].0);
                        assert(old(sys).allocated(children@[kk].0));
                    }
                    assert(new_node.desc == node.desc);
                    assert(new_node.nodes == node.nodes);
                    assert(new_node.props == node.props);
                    assert(new_node.state == node.state);
                    assert(new_node.kind == node.kind);
                    assert(new_node.binding_cell == node.binding_cell);
                    assert(new_node.vis_cell == node.vis_cell);
                }
            }
        }
    }
}

impl State {
    /// The state's current value.
    pub fn value(&self, sys: &ComponentSystem) -> (r: Value)
        requires
            sys.wf(),
            sys.live(self.0),
        ensures
            r == sys.state_of(self.0),
    {
        match &sys.components[self.0 as usize] {
            Option::Some(node) => node.state.cell.value(),
            Option::None => {
                proof {
                    assert(false);
                }
                Value::Unit
            },
        }
    }

    /// Store a pending value and schedule its drain; see
    /// [`ComponentSystem::set_state`].
    pub fn set(&self, sys: &mut ComponentSystem, new_value: Value)
        requires
            old(sys).wf(),
            old(sys).live(self.0),
            value_refs_ok(
                new_value,
                old(sys).comp_lists@.len() as int,
                old(sys).value_lists@.len() as int,
            ),
        ensures
            final(sys).wf(),
            final(sys).live(self.0),
            final(sys).n() == old(sys).n(),
            forall|j: int|
                0 <= j < old(sys).n() && j != self.0 as int ==> final(sys).components@[j] == old(
                    sys,
                ).components@[j],
            ({
                let node = old(sys).node_of(self.0);
                let new_node = final(sys).node_of(self.0);
                &&& new_node.state.next_value == Some(new_value)
                &&& new_node.state.frame is Some
                &&& new_node.state.cell == node.state.cell
                &&& new_node.props == node.props
                &&& new_node.kind == node.kind
                &&& new_node.id == node.id
                &&& new_node.name == node.name
                &&& new_node.binding_cell == node.binding_cell
                &&& new_node.desc == node.desc
                &&& new_node.children == node.children
                &&& new_node.nodes == node.nodes
                &&& new_node.rc == node.rc
                &&& new_node.dom_parent == node.dom_parent
                &&& new_node.vis_cell == node.vis_cell
                &&& new_node.updating == node.updating
                &&& new_node.inserted == node.inserted
                &&& (if node.state.frame is None {
                    final(sys).frame_tasks@ == old(sys).frame_tasks@.push(
                        FrameTask::StateDrain(self.0),
                    )
                } else {
                    final(sys).frame_tasks@ == old(sys).frame_tasks@ && new_node.state.frame
                        == node.state.frame
                })
            }),
            final(sys).vis_cells@ == old(sys).vis_cells@,
            final(sys).binding_cells@ == old(sys).binding_cells@,
            final(sys).comp_lists@ == old(sys).comp_lists@,
            final(sys).value_lists@ == old(sys).value_lists@,
            final(sys).render_queue@ == old(sys).render_queue@,
            final(sys).render_queue_frame == old(sys).render_queue_frame,
            final(sys).dom_roots@ == old(sys).dom_roots@,
    {
        sys.set_state(self.0, new_value);
    }
}

impl AnyComponent {
    /// The component's display name.
    pub fn name(&self, sys: &ComponentSystem) -> (r: String)
        requires
            sys.wf(),
            sys.live(self.0),
        ensures
            r == sys.node_of(self.0).name,
    {
        self.typed().name(sys)
    }

    /// The component's externally supplied child list.
    pub fn children(&self, sys: &ComponentSystem) -> (r: Vec<AnyComponent>)
        requires
            sys.wf(),
            sys.live(self.0),
        ensures
            r@.len() == sys.node_of(self.0).children@.len(),
            forall|k: int|
                0 <= k < r@.len() ==> (#[trigger] r@[k]).0 == sys.node_of(self.0).children@[k],
    {
        let mut r: Vec<AnyComponent> = Vec::new();
        match &sys.components[self.0 as usize] {
            Option::Some(node) => {
                let mut k: usize = 0;
                while k < node.children.len()
                    invariant
                        k <= node.children@.len(),
                        r@.len() == k as int,
                        forall|j: int|
                            0 <= j < k ==> (#[trigger] r@[j]).0 == node.children@[j],
                    decreases node.children@.len() - k,
                {
                    r.push(AnyComponent(node.children[k]));
                    k = k + 1;
                }
            },
            Option::None => {
                proof {
                    assert(false);
                }
            },
        }
        r
    }

    /// Whether the component is visible: the current value of its (possibly
    /// shared) visibility cell.
    pub fn visible(&self, sys: &ComponentSystem) -> (r: bool)
        requires
            sys.wf(),
            sys.live(self.0),
        ensures
            r == sys.visible_spec(self.0),
    {
        match &sys.components[self.0 as usize] {
            Option::Some(node) => sys.vis_cells[node.vis_cell],
            Option::None => {
                proof {
                    assert(false);
                }
                false
            },
        }
    }

    /// Alias this component's visibility onto `other`'s: from now on the two
    /// read and write the same shared cell.
    pub fn track_visible(&self, sys: &mut ComponentSystem, other: &AnyComponent)
        requires
            old(sys).wf(),
            old(sys).live(self.0),
            old(sys).live(other.0),
        ensures
            final(sys).wf(),
            final(sys).live(self.0),
            final(sys).n() == old(sys).n(),
            forall|j: int|
                0 <= j < old(sys).n() && j != self.0 as int ==> final(sys).components@[j] == old(
                    sys,
                ).components@[j],
            final(sys).node_of(self.0).vis_cell == old(sys).node_of(other.0).vis_cell,
            self.0 != other.0 ==> final(sys).node_of(other.0).vis_cell == old(sys).node_of(
                other.0,
            ).vis_cell,
            ({
                let node = old(sys).node_of(self.0);
                let new_node = final(sys).node_of(self.0);
                &&& new_node.props == node.props
                &&& new_node.state == node.state
                &&& new_node.kind == node.kind
                &&& new_node.children == node.children
                &&& new_node.nodes == node.nodes
                &&& new_node.desc == node.desc
                &&& new_node.rc == node.rc
                &&& new_node.dom_parent == node.dom_parent
                &&& new_node.updating == node.updating
                &&& new_node.inserted == node.inserted
            }),
            final(sys).vis_cells@ == old(sys).vis_cells@,
            final(sys).binding_cells@ == old(sys).binding_cells@,
            final(sys).comp_lists@ == old(sys).comp_lists@,
            final(sys).value_lists@ == old(sys).value_lists@,
            final(sys).render_queue@ == old(sys).render_queue@,
            final(sys).render_queue_frame == old(sys).render_queue_frame,
            final(sys).frame_tasks@ == old(sys).frame_tasks@,
            final(sys).visible_spec(self.0) == old(sys).visible_spec(other.0),
    {
        let other_cell = match &sys.components[other.0 as usize] {
            Option::Some(node) => node.vis_cell,
            Option::None => {
                proof {
                    assert(false);
                }
                0
            },
        };
        let idx = self.0 as usize;
        let slot = sys.components.remove(idx);
        match slot {
            Option::Some(mut node) => {
                node.vis_cell = other_cell;
                sys.components.insert(idx, Option::Some(node));
            },
            Option::None => {
                proof {
                    assert(false);
                }
                sys.components.insert(idx, Option::None);
            },
        }
        proof {
            assert(sys.components@ =~= old(sys).components@.update(
                self.0 as int,
                sys.components@[self.0 as int],
            ));
            assert(old(sys).node_ok(old(sys).node_of(other.0)));
            assert forall|c2: int|
                0 <= c2 < sys.n() && sys.components@[c2] is Some implies sys.node_ok(
                (#[trigger] sys.components@[c2])->0,
            ) by {
                if c2 != self.0 as int {
                    assert(old(sys).node_ok(old(sys).components@[c2]->0));
                } else {
                    let node = old(sys).node_of(self.0);
                    let new_node = sys.node_of(self.0);
                    assert(old(sys).node_ok(node));
                    assert((new_node.vis_cell as int) < sys.vis_cells@.len());
                    assert(new_node.desc == node.desc);
                    assert(new_node.children == node.children);
                    assert(new_node.nodes == node.nodes);
                    assert(new_node.props == node.props);
                    assert(new_node.state == node.state);
                    assert(new_node.kind == node.kind);
                    assert(new_node.binding_cell == node.binding_cell);
                }
            }
        }
    }
}

impl ComponentSystem {
    /// Set a component's (possibly shared) visibility flag. A no-op when the
    /// shared value already equals `visible`; otherwise the flag is written
    /// once and the visibility-change hook runs exactly once. `fuel` bounds
    /// the cascade a slot's hook may start; a call with no fuel does nothing.
    ///
    /// Every cell the cascade writes is written to `visible`, so the
    /// component's own visibility is `visible` afterwards whenever fuel was
    /// available.
    pub fn set_visible_impl(&mut self, c: u32, visible: bool, fuel: u32)
        requires
            old(self).wf(),
            old(self).live(c),
        ensures
            final(self).wf(),
            final(self).components@ == old(self).components@,
            final(self).vis_cells@.len() == old(self).vis_cells@.len(),
            forall|i: int|
                0 <= i < old(self).vis_cells@.len() ==> final(self).vis_cells@[i] == old(
                    self,
                ).vis_cells@[i] || final(self).vis_cells@[i] == visible,
            final(self).binding_cells@ == old(self).binding_cells@,
            final(self).comp_lists@ == old(self).comp_lists@,
            final(self).value_lists@ == old(self).value_lists@,
            final(self).render_queue@ == old(self).render_queue@,
            final(self).render_queue_frame == old(self).render_queue_frame,
            final(self).frame_tasks@ == old(self).frame_tasks@,
            final(self).dom_roots@ == old(self).dom_roots@,
            final(self).frame_counter == old(self).frame_counter,
            final(self).callback_counter == old(self).callback_counter,
            fuel > 0 ==> final(self).visible_spec(c) == visible,
            old(self).visible_spec(c) == visible ==> final(self).vis_cells@ == old(
                self,
            ).vis_cells@,
        decreases fuel,
    {
        if fuel == 0 {
            return ;
        }
        let current = self.any_visible(c);
        if current == visible {
            return ;
        }
        let cell = match &self.components[c as usize] {
            Option::Some(node) => node.vis_cell,
            Option::None => {
                proof {
                    assert(false);
                }
                0
            },
        };
        let _old_value = self.vis_cells.remove(cell);
        self.vis_cells.insert(cell, visible);
        proof {
            assert(self.vis_cells@ =~= old(self).vis_cells@.update(cell as int, visible));
            assert forall|c2: int|
                0 <= c2 < self.n() && self.components@[c2] is Some implies self.node_ok(
                (#[trigger] self.components@[c2])->0,
            ) by {
                assert(old(self).node_ok(old(self).components@[c2]->0));
            }
        }
        self.on_visibility_changed_impl(c, fuel - 1);
    }

    /// Run a component's visibility-change hook: a slot forwards the new
    /// visibility to every node of its cached render list; other kinds react
    /// in no way.
    pub fn on_visibility_changed_impl(&mut self, c: u32, fuel: u32)
        requires
            old(self).wf(),
            old(self).live(c),
        ensures
            final(self).wf(),
            final(self).components@ == old(self).components@,
            final(self).vis_cells@.len() == old(self).vis_cells@.len(),
            forall|i: int|
                0 <= i < old(self).vis_cells@.len() ==> final(self).vis_cells@[i] == old(
                    self,
                ).vis_cells@[i] || final(self).vis_cells@[i] == old(self).visible_spec(c),
            final(self).binding_cells@ == old(self).binding_cells@,
            final(self).comp_lists@ == old(self).comp_lists@,
            final(self).value_lists@ == old(self).value_lists@,
            final(self).render_queue@ == old(self).render_queue@,
            final(self).render_queue_frame == old(self).render_queue_frame,
            final(self).frame_tasks@ == old(self).frame_tasks@,
            final(self).dom_roots@ == old(self).dom_roots@,
            final(self).frame_counter == old(self).frame_counter,
            final(self).callback_counter == old(self).callback_counter,
            final(self).visible_spec(c) == old(self).visible_spec(c),
            !(old(self).node_of(c).kind is Slot) ==> final(self).vis_cells@ == old(
                self,
            ).vis_cells@,
            (fuel >= 2 && old(self).node_of(c).kind is Slot && old(self).node_of(c).nodes is Some)
                ==> (forall|j: int|
                0 <= j < old(self).node_of(c).nodes->0@.len() && old(self).live(
                    #[trigger] old(self).node_of(c).nodes->0@[j],
                ) ==> final(self).visible_spec(old(self).node_of(c).nodes->0@[j]) == old(
                    self,
                ).visible_spec(c)),
        decreases fuel,
    {
        if fuel == 0 {
            return ;
        }
        let is_slot = match &self.components[c as usize] {
            Option::Some(node) => match node.kind {
                ComponentKind::Slot => true,
                _ => false,
            },
            Option::None => {
                proof {
                    assert(false);
                }
                false
            },
        };
        if !is_slot {
            return ;
        }
        let nodes: Option<Vec<u32>> = match &self.components[c as usize] {
            Option::Some(node) => match &node.nodes {
                Option::Some(ns) => {
                    let mut copy: Vec<u32> = Vec::new();
                    let mut k: usize = 0;
                    while k < ns.len()
                        invariant
                            k <= ns@.len(),
                            copy@ == ns@.subrange(0, k as int),
                        decreases ns@.len() - k,
                    {
                        copy.push(ns[k]);
                        proof {
                            assert(copy@ =~= ns@.subrange(0, k as int + 1));
                        }
                        k = k + 1;
                    }
                    proof {
                        assert(copy@ =~= ns@);
                    }
                    Option::Some(copy)
                },
                Option::None => Option::None,
            },
            Option::None => Option::None,
        };
        let visible = self.any_visible(c);
        match nodes {
            Option::None => {},
            Option::Some(ns) => {
                let ghost entry = *self;
                let mut k: usize = 0;
                while k < ns.len()
                    invariant
                        entry.wf(),
                        self.wf(),
                        entry.live(c),
                        forall|j: int|
                            0 <= j < ns@.len() ==> ((#[trigger] ns@[j]) as int) < entry.n(),
                        self.components@ == entry.components@,
                        self.vis_cells@.len() == entry.vis_cells@.len(),
                        forall|i: int|
                            0 <= i < entry.vis_cells@.len() ==> self.vis_cells@[i]
                                == entry.vis_cells@[i] || self.vis_cells@[i] == visible,
                        visible == entry.visible_spec(c),
                        self.visible_spec(c) == visible,
                        fuel >= 2 ==> (forall|j: int|
                            0 <= j < k && entry.live(#[trigger] ns@[j]) ==> self.visible_spec(
                                ns@[j],
                            ) == visible),
                        self.binding_cells@ == entry.binding_cells@,
                        self.comp_lists@ == entry.comp_lists@,
                        self.value_lists@ == entry.value_lists@,
                        self.render_queue@ == entry.render_queue@,
                        self.render_queue_frame == entry.render_queue_frame,
                        self.frame_tasks@ == entry.frame_tasks@,
                        self.dom_roots@ == entry.dom_roots@,
                        self.frame_counter == entry.frame_counter,
                        self.callback_counter == entry.callback_counter,
                        k <= ns@.len(),
                        fuel >= 1,
                    decreases ns@.len() - k,
                {
                    let node_id = ns[k];
                    if self.is_live(node_id) {
                        let ghost before = *self;
                        self.set_visible_impl(node_id, visible, fuel - 1);
                        proof {
                            assert(self.visible_spec(c) == visible) by {
                                let cell = entry.node_of(c).vis_cell as int;
                                assert(self.vis_cells@[cell] == before.vis_cells@[cell]
                                    || self.vis_cells@[cell] == visible);
                            }
                            if fuel >= 2 {
                                assert forall|j: int|
                                    0 <= j < k + 1 && entry.live(#[trigger] ns@[j])
                                        implies self.visible_spec(ns@[j]) == visible by {
                                    if j < k {
                                        let cell = entry.node_of(ns@[j]).vis_cell as int;
                                        assert(self.vis_cells@[cell]
                                            == before.vis_cells@[cell] || self.vis_cells@[cell]
                                            == visible);
                                    }
                                }
                            }
                        }
                    } else {
                        proof {
                            assert forall|j: int|
                                0 <= j < k + 1 && entry.live(#[trigger] ns@[j]) && fuel >= 2
                                    implies self.visible_spec(ns@[j]) == visible by {
                                assert(j < k || ns@[j] == node_id);
                            }
                        }
                    }
                    k = k + 1;
                }
            },
        }
    }

    /// Read a component's visibility (internal form).
    fn any_visible(&self, c: u32) -> (r: bool)
        requires
            self.wf(),
            self.live(c),
        ensures
            r == self.visible_spec(c),
    {
        match &self.components[c as usize] {
            Option::Some(node) => self.vis_cells[node.vis_cell],
            Option::None => {
                proof {
                    assert(false);
                }
                false
            },
        }
    }
}

impl AnyComponent {
    /// Set the component's visibility; a no-op when the shared cell already
    /// holds `visible`, otherwise the write happens once and the
    /// visibility-change hook runs exactly once. `fuel` bounds the cascade a
    /// slot's hook may start over its rendered nodes.
    pub fn set_visible(&self, sys: &mut ComponentSystem, visible: bool, fuel: u32)
        requires
            old(sys).wf(),
            old(sys).live(self.0),
        ensures
            final(sys).wf(),
            final(sys).components@ == old(sys).components@,
            final(sys).vis_cells@.len() == old(sys).vis_cells@.len(),
            forall|i: int|
                0 <= i < old(sys).vis_cells@.len() ==> final(sys).vis_cells@[i] == old(
                    sys,
                ).vis_cells@[i] || final(sys).vis_cells@[i] == visible,
            final(sys).binding_cells@ == old(sys).binding_cells@,
            final(sys).comp_lists@ == old(sys).comp_lists@,
            final(sys).value_lists@ == old(sys).value_lists@,
            final(sys).render_queue@ == old(sys).render_queue@,
            final(sys).render_queue_frame == old(sys).render_queue_frame,
            final(sys).frame_tasks@ == old(sys).frame_tasks@,
            fuel > 0 ==> final(sys).visible_spec(self.0) == visible,
            old(sys).visible_spec(self.0) == visible ==> final(sys).vis_cells@ == old(
                sys,
            ).vis_cells@,
    {
        sys.set_visible_impl(self.0, visible, fuel);
    }

    /// Run the component's visibility-change hook once: a slot forwards its
    /// visibility to every node of its cached render list; other kinds leave
    /// every visibility cell untouched.
    pub fn on_visibility_changed(&self, sys: &mut ComponentSystem, fuel: u32)
        requires
            old(sys).wf(),
            old(sys).live(self.0),
        ensures
            final(sys).wf(),
            final(sys).components@ == old(sys).components@,
            final(sys).vis_cells@.len() == old(sys).vis_cells@.len(),
            final(sys).visible_spec(self.0) == old(sys).visible_spec(self.0),
            !(old(sys).node_of(self.0).kind is Slot) ==> final(sys).vis_cells@ == old(
                sys,
            ).vis_cells@,
            (fuel >= 2 && old(sys).node_of(self.0).kind is Slot && old(sys).node_of(
                self.0,
            ).nodes is Some) ==> (forall|j: int|
                0 <= j < old(sys).node_of(self.0).nodes->0@.len() && old(sys).live(
                    #[trigger] old(sys).node_of(self.0).nodes->0@[j],
                ) ==> final(sys).visible_spec(old(sys).node_of(self.0).nodes->0@[j]) == old(
                    sys,
                ).visible_spec(self.0)),
    {
        sys.on_visibility_changed_impl(self.0, fuel);
    }
}

impl Component {
    /// Set the component's visibility; see [`AnyComponent::set_visible`].
    pub fn set_visible(&self, sys: &mut ComponentSystem, visible: bool, fuel: u32)
        requires
            old(sys).wf(),
            old(sys).live(self.0),
        ensures
            final(sys).wf(),
            final(sys).components@ == old(sys).components@,
            final(sys).vis_cells@.len() == old(sys).vis_cells@.len(),
            forall|i: int|
                0 <= i < old(sys).vis_cells@.len() ==> final(sys).vis_cells@[i] == old(
                    sys,
                ).vis_cells@[i] || final(sys).vis_cells@[i] == visible,
            final(sys).binding_cells@ == old(sys).binding_cells@,
            final(sys).comp_lists@ == old(sys).comp_lists@,
            final(sys).value_lists@ == old(sys).value_lists@,
            final(sys).render_queue@ == old(sys).render_queue@,
            final(sys).render_queue_frame == old(sys).render_queue_frame,
            final(sys).frame_tasks@ == old(sys).frame_tasks@,
            fuel > 0 ==> final(sys).visible_spec(self.0) == visible,
            old(sys).visible_spec(self.0) == visible ==> final(sys).vis_cells@ == old(
                sys,
            ).vis_cells@,
    {
        sys.set_visible_impl(self.0, visible, fuel);
    }
}

/// Everything outside the arena slot of `c` agrees between the two systems,
/// and the arena has the same domain.
pub open spec fn only_component_changed(a: ComponentSystem, b: ComponentSystem, c: u32) -> bool {
    &&& b.n() == a.n()
    &&& forall|j: int| 0 <= j < a.n() && j != c as int ==> b.components@[j] == a.components@[j]
    &&& b.vis_cells@ == a.vis_cells@
    &&& b.binding_cells@ == a.binding_cells@
    &&& b.comp_lists@ == a.comp_lists@
    &&& b.value_lists@ == a.value_lists@
    &&& b.render_queue@ == a.render_queue@
    &&& b.render_queue_frame == a.render_queue_frame
    &&& b.frame_tasks@ == a.frame_tasks@
    &&& b.dom_roots@ == a.dom_roots@
    &&& b.frame_counter == a.frame_counter
    &&& b.callback_counter == a.callback_counter
}

/// The two nodes agree on everything but the update-pass flags (guard,
/// inserted), the two value cells and the render bookkeeping (cached list,
/// counter, dependents).
pub open spec fn same_node_identity(a: ComponentNode, b: ComponentNode) -> bool {
    &&& b.id == a.id
    &&& b.name == a.name
    &&& b.kind == a.kind
    &&& b.binding_cell == a.binding_cell
    &&& b.children == a.children
    &&& b.dom_parent == a.dom_parent
    &&& b.vis_cell == a.vis_cell
}

impl ComponentSystem {
    /// Replace one arena slot wholesale; the caller re-establishes range
    /// facts for the changed node.
    fn put_node(&mut self, c: u32, node: ComponentNode)
        requires
            old(self).allocated(c),
        ensures
            final(self).components@ == old(self).components@.update(c as int, Some(node)),
            final(self).vis_cells@ == old(self).vis_cells@,
            final(self).binding_cells@ == old(self).binding_cells@,
            final(self).comp_lists@ == old(self).comp_lists@,
            final(self).value_lists@ == old(self).value_lists@,
            final(self).render_queue@ == old(self).render_queue@,
            final(self).render_queue_frame == old(self).render_queue_frame,
            final(self).frame_tasks@ == old(self).frame_tasks@,
            final(self).dom_roots@ == old(self).dom_roots@,
            final(self).frame_counter == old(self).frame_counter,
            final(self).callback_counter == old(self).callback_counter,
    {
        let idx = c as usize;
        let _slot = self.components.remove(idx);
        self.components.insert(idx, Option::Some(node));
        proof {
            assert(self.components@ =~= old(self).components@.update(c as int, Some(node)));
        }
    }

    /// Take one node out of the arena, leaving the slot vacant until
    /// `put_node` restores it.
    fn take_node(&mut self, c: u32) -> (node: ComponentNode)
        requires
            old(self).live(c),
        ensures
            node == old(self).node_of(c),
            final(self).components@ == old(self).components@.update(
                c as int,
                None::<ComponentNode>,
            ),
            final(self).vis_cells@ == old(self).vis_cells@,
            final(self).binding_cells@ == old(self).binding_cells@,
            final(self).comp_lists@ == old(self).comp_lists@,
            final(self).value_lists@ == old(self).value_lists@,
            final(self).render_queue@ == old(self).render_queue@,
            final(self).render_queue_frame == old(self).render_queue_frame,
            final(self).frame_tasks@ == old(self).frame_tasks@,
            final(self).dom_roots@ == old(self).dom_roots@,
            final(self).frame_counter == old(self).frame_counter,
            final(self).callback_counter == old(self).callback_counter,
    {
        let idx = c as usize;
        let slot = self.components.remove(idx);
        self.components.insert(idx, Option::None);
        proof {
            assert(self.components@ =~= old(self).components@.update(
                c as int,
                None::<ComponentNode>,
            ));
        }
        match slot {
            Option::Some(node) => node,
            Option::None => {
                proof {
                    assert(false);
                }
                unreached()
            },
        }
    }

    /// Set the reentrancy guard.
    fn set_updating(&mut self, c: u32, updating: bool)
        requires
            old(self).wf(),
            old(self).live(c),
        ensures
            final(self).wf(),
            final(self).live(c),
            only_component_changed(*old(self), *final(self), c),
            ({
                let node = old(self).node_of(c);
                let new_node = final(self).node_of(c);
                &&& same_node_identity(node, new_node)
                &&& new_node.props == node.props
                &&& new_node.state == node.state
                &&& new_node.desc == node.desc
                &&& new_node.nodes == node.nodes
                &&& new_node.rc == node.rc
                &&& new_node.inserted == node.inserted
                &&& new_node.updating == updating
            }),
    {
        let mut node = self.take_node(c);
        node.updating = updating;
        self.put_node(c, node);
        proof {
            self.lemma_restore_wf(*old(self), c);
        }
    }

    /// Set the inserted flag.
    fn set_inserted(&mut self, c: u32, inserted: bool)
        requires
            old(self).wf(),
            old(self).live(c),
        ensures
            final(self).wf(),
            final(self).live(c),
            only_component_changed(*old(self), *final(self), c),
            ({
                let node = old(self).node_of(c);
                let new_node = final(self).node_of(c);
                &&& same_node_identity(node, new_node)
                &&& new_node.props == node.props
                &&& new_node.state == node.state
                &&& new_node.desc == node.desc
                &&& new_node.nodes == node.nodes
                &&& new_node.rc == node.rc
                &&& new_node.updating == node.updating
                &&& new_node.inserted == inserted
            }),
    {
        let mut node = self.take_node(c);
        node.inserted = inserted;
        self.put_node(c, node);
        proof {
            self.lemma_restore_wf(*old(self), c);
        }
    }

    /// After `take_node` + `put_node` where the new node keeps every
    /// range-relevant part of the old one in range, the system is
    /// well-formed again.
    proof fn lemma_restore_wf(self, a: ComponentSystem, c: u32)
        requires
            a.wf(),
            a.live(c),
            only_component_changed(a, self, c),
            self.components@[c as int] is Some,
            ({
                let node = a.node_of(c);
                let new_node = self.node_of(c);
                &&& new_node.vis_cell == node.vis_cell
                &&& new_node.binding_cell == node.binding_cell
                &&& new_node.desc == node.desc
                &&& new_node.props == node.props
                &&& new_node.state == node.state
                &&& new_node.children == node.children
                &&& new_node.nodes == node.nodes
                &&& new_node.kind == node.kind
            }),
        ensures
            self.wf(),
    {
        assert(self.n() == a.n());
        assert forall|c2: int|
            0 <= c2 < self.n() && self.components@[c2] is Some implies self.node_ok(
            (#[trigger] self.components@[c2])->0,
        ) by {
            if c2 != c as int {
                assert(self.components@[c2] == a.components@[c2]);
                assert(a.node_ok(a.components@[c2]->0));
            } else {
                assert(a.node_ok(a.node_of(c)));
            }
        }
    }

    /// Read the inserted flag.
    fn get_inserted(&self, c: u32) -> (r: bool)
        requires
            self.live(c),
        ensures
            r == self.node_of(c).inserted,
    {
        match &self.components[c as usize] {
            Option::Some(node) => node.inserted,
            Option::None => {
                proof {
                    assert(false);
                }
                false
            },
        }
    }

    /// Read the reentrancy guard.
    fn get_updating(&self, c: u32) -> (r: bool)
        requires
            self.live(c),
        ensures
            r == self.node_of(c).updating,
    {
        match &self.components[c as usize] {
            Option::Some(node) => node.updating,
            Option::None => {
                proof {
                    assert(false);
                }
                false
            },
        }
    }

    /// Read the render counter.
    fn get_rc(&self, c: u32) -> (r: u32)
        requires
            self.live(c),
        ensures
            r == self.node_of(c).rc,
    {
        match &self.components[c as usize] {
            Option::Some(node) => node.rc,
            Option::None => {
                proof {
                    assert(false);
                }
                0
            },
        }
    }

    /// Advance the render counter by one completed pass; it saturates at its
    /// maximum rather than wrapping.
    fn inc_rc(&mut self, c: u32)
        requires
            old(self).wf(),
            old(self).live(c),
        ensures
            final(self).wf(),
            final(self).live(c),
            only_component_changed(*old(self), *final(self), c),
            ({
                let node = old(self).node_of(c);
                let new_node = final(self).node_of(c);
                &&& same_node_identity(node, new_node)
                &&& new_node.props == node.props
                &&& new_node.state == node.state
                &&& new_node.desc == node.desc
                &&& new_node.nodes == node.nodes
                &&& new_node.updating == node.updating
                &&& new_node.inserted == node.inserted
                &&& new_node.rc as int == (if node.rc < u32::MAX {
                    node.rc + 1
                } else {
                    node.rc as int
                })
                &&& new_node.rc >= 1
                &&& (node.rc == 0 ==> new_node.rc == 1)
            }),
    {
        let mut node = self.take_node(c);
        if node.rc < u32::MAX {
            node.rc = node.rc + 1;
        }
        self.put_node(c, node);
        proof {
            self.lemma_restore_wf(*old(self), c);
        }
    }

    /// Read the props value.
    fn props_value(&self, c: u32) -> (r: Value)
        requires
            self.live(c),
        ensures
            r == self.props_of(c),
    {
        match &self.components[c as usize] {
            Option::Some(node) => node.props.value(),
            Option::None => {
                proof {
                    assert(false);
                }
                Value::Unit
            },
        }
    }

    /// Read the state value.
    fn state_value(&self, c: u32) -> (r: Value)
        requires
            self.live(c),
        ensures
            r == self.state_of(c),
    {
        match &self.components[c as usize] {
            Option::Some(node) => node.state.cell.value(),
            Option::None => {
                proof {
                    assert(false);
                }
                Value::Unit
            },
        }
    }
}

impl ComponentSystem {
    /// What the component's binding currently yields: the pull rule evaluated
    /// on the producer's props and state. A missing binding, or one whose
    /// producer has been dropped, yields nothing.
    pub open spec fn binding_pull_spec(self, c: u32) -> Option<Value> {
        match self.node_of(c).props.binding {
            Some(b) => if self.live(b.producer) {
                eval_pull_spec(b.f, self.props_of(b.producer), self.state_of(b.producer))
            } else {
                None
            },
            None => None,
        }
    }

    /// Evaluate the component's binding, if any, against its producer.
    fn eval_binding(&self, c: u32) -> (r: Option<Value>)
        requires
            self.wf(),
            self.live(c),
        ensures
            r == self.binding_pull_spec(c),
    {
        let binding: Option<Binding> = match &self.components[c as usize] {
            Option::Some(node) => match &node.props.binding {
                Option::Some(b) => Option::Some(b.clone()),
                Option::None => Option::None,
            },
            Option::None => {
                proof {
                    assert(false);
                }
                Option::None
            },
        };
        match binding {
            Option::None => Option::None,
            Option::Some(b) => {
                if self.is_live(b.producer) {
                    let p_props = self.props_value(b.producer);
                    let p_state = self.state_value(b.producer);
                    eval_pull(&b.f, &p_props, &p_state)
                } else {
                    Option::None
                }
            },
        }
    }

    /// Run the props cell's update step on a resolved candidate.
    fn props_update_resolved(&mut self, c: u32, resolved: Option<Value>) -> (changed: bool)
        requires
            old(self).wf(),
            old(self).live(c),
            match resolved {
                Some(v) => value_refs_ok(
                    v,
                    old(self).comp_lists@.len() as int,
                    old(self).value_lists@.len() as int,
                ),
                None => true,
            },
        ensures
            final(self).wf(),
            final(self).live(c),
            only_component_changed(*old(self), *final(self), c),
            ({
                let node = old(self).node_of(c);
                let new_node = final(self).node_of(c);
                &&& same_node_identity(node, new_node)
                &&& new_node.state == node.state
                &&& new_node.desc == node.desc
                &&& new_node.nodes == node.nodes
                &&& new_node.rc == node.rc
                &&& new_node.updating == node.updating
                &&& new_node.inserted == node.inserted
                &&& new_node.props.binding == node.props.binding
                &&& !new_node.props.dirty
                &&& (match resolved {
                    Some(v) => {
                        if !crate::values::value_eq_spec(v, node.props.value) {
                            new_node.props.value == v && changed
                        } else {
                            new_node.props.value == node.props.value && changed == node.props.dirty
                        }
                    },
                    None => new_node.props.value == node.props.value && changed
                        == node.props.dirty,
                })
            }),
    {
        let mut node = self.take_node(c);
        let changed = node.props.update_resolved(resolved);
        self.put_node(c, node);
        proof {
            self.lemma_restore_wf_values(*old(self), c);
        }
        changed
    }

    /// Run the state cell's update step on an explicit candidate.
    fn state_update_resolved(&mut self, c: u32, resolved: Option<Value>) -> (changed: bool)
        requires
            old(self).wf(),
            old(self).live(c),
            match resolved {
                Some(v) => value_refs_ok(
                    v,
                    old(self).comp_lists@.len() as int,
                    old(self).value_lists@.len() as int,
                ),
                None => true,
            },
        ensures
            final(self).wf(),
            final(self).live(c),
            only_component_changed(*old(self), *final(self), c),
            ({
                let node = old(self).node_of(c);
                let new_node = final(self).node_of(c);
                &&& same_node_identity(node, new_node)
                &&& new_node.props == node.props
                &&& new_node.desc == node.desc
                &&& new_node.nodes == node.nodes
                &&& new_node.rc == node.rc
                &&& new_node.updating == node.updating
                &&& new_node.inserted == node.inserted
                &&& new_node.state.next_value == node.state.next_value
                &&& new_node.state.frame == node.state.frame
                &&& new_node.state.cell.binding == node.state.cell.binding
                &&& !new_node.state.cell.dirty
                &&& (match resolved {
                    Some(v) => {
                        if !crate::values::value_eq_spec(v, node.state.cell.value) {
                            new_node.state.cell.value == v && changed
                        } else {
                            new_node.state.cell.value == node.state.cell.value && changed
                                == node.state.cell.dirty
                        }
                    },
                    None => new_node.state.cell.value == node.state.cell.value && changed
                        == node.state.cell.dirty,
                })
            }),
    {
        let mut node = self.take_node(c);
        let changed = node.state.cell.update_resolved(resolved);
        self.put_node(c, node);
        proof {
            self.lemma_restore_wf_values(*old(self), c);
        }
        changed
    }

    /// As `lemma_restore_wf`, for helpers that replace a cell value with an
    /// in-range one.
    proof fn lemma_restore_wf_values(self, a: ComponentSystem, c: u32)
        requires
            a.wf(),
            a.live(c),
            only_component_changed(a, self, c),
            self.components@[c as int] is Some,
            ({
                let node = a.node_of(c);
                let new_node = self.node_of(c);
                &&& new_node.vis_cell == node.vis_cell
                &&& new_node.binding_cell == node.binding_cell
                &&& new_node.desc == node.desc
                &&& new_node.children == node.children
                &&& new_node.nodes == node.nodes
                &&& new_node.kind == node.kind
                &&& new_node.props.binding == node.props.binding
                &&& value_refs_ok(
                    new_node.props.value,
                    a.comp_lists@.len() as int,
                    a.value_lists@.len() as int,
                )
                &&& value_refs_ok(
                    new_node.state.cell.value,
                    a.comp_lists@.len() as int,
                    a.value_lists@.len() as int,
                )
                &&& (match new_node.state.next_value {
                    Some(v) => value_refs_ok(
                        v,
                        a.comp_lists@.len() as int,
                        a.value_lists@.len() as int,
                    ),
                    None => true,
                })
            }),
        ensures
            self.wf(),
    {
        assert(self.n() == a.n());
        assert forall|c2: int|
            0 <= c2 < self.n() && self.components@[c2] is Some implies self.node_ok(
            (#[trigger] self.components@[c2])->0,
        ) by {
            if c2 != c as int {
                assert(self.components@[c2] == a.components@[c2]);
                assert(a.node_ok(a.components@[c2]->0));
            } else {
                assert(a.node_ok(a.node_of(c)));
            }
        }
    }

    /// Take the component's pending state value, clearing the drain token.
    fn drain_state_next(&mut self, c: u32) -> (r: Option<Value>)
        requires
            old(self).wf(),
            old(self).live(c),
        ensures
            final(self).wf(),
            final(self).live(c),
            only_component_changed(*old(self), *final(self), c),
            r == old(self).node_of(c).state.next_value,
            ({
                let node = old(self).node_of(c);
                let new_node = final(self).node_of(c);
                &&& same_node_identity(node, new_node)
                &&& new_node.props == node.props
                &&& new_node.state.cell == node.state.cell
                &&& new_node.state.next_value is None
                &&& new_node.state.frame is None
                &&& new_node.desc == node.desc
                &&& new_node.nodes == node.nodes
                &&& new_node.rc == node.rc
                &&& new_node.updating == node.updating
                &&& new_node.inserted == node.inserted
            }),
            match r {
                Some(v) => value_refs_ok(
                    v,
                    old(self).comp_lists@.len() as int,
                    old(self).value_lists@.len() as int,
                ),
                None => true,
            },
    {
        let mut node = self.take_node(c);
        let r = node.state.next_value;
        node.state.next_value = Option::None;
        node.state.frame = Option::None;
        self.put_node(c, node);
        proof {
            assert(old(self).node_ok(old(self).node_of(c)));
            self.lemma_restore_wf_values(*old(self), c);
        }
        r
    }

    /// Read one binding cell.
    fn read_binding_cell(&self, cell: u32) -> (r: Option<u32>)
        requires
            self.wf(),
            (cell as int) < self.binding_cells@.len(),
        ensures
            r == self.binding_cells@[cell as int],
            match r {
                Some(k) => (k as int) < self.n(),
                None => true,
            },
    {
        self.binding_cells[cell as usize]
    }

    /// Take the component's dependent-cell list, leaving it empty for the
    /// duration of a propagation pass.
    fn take_desc(&mut self, c: u32) -> (desc: Vec<u32>)
        requires
            old(self).wf(),
            old(self).live(c),
        ensures
            final(self).wf(),
            final(self).live(c),
            only_component_changed(*old(self), *final(self), c),
            desc@ == old(self).node_of(c).desc@,
            forall|k: int|
                0 <= k < desc@.len() ==> ((#[trigger] desc@[k]) as int)
                    < final(self).binding_cells@.len(),
            ({
                let node = old(self).node_of(c);
                let new_node = final(self).node_of(c);
                &&& same_node_identity(node, new_node)
                &&& new_node.props == node.props
                &&& new_node.state == node.state
                &&& new_node.desc@.len() == 0
                &&& new_node.nodes == node.nodes
                &&& new_node.rc == node.rc
                &&& new_node.updating == node.updating
                &&& new_node.inserted == node.inserted
            }),
    {
        let mut node = self.take_node(c);
        let mut desc: Vec<u32> = Vec::new();
        std::mem::swap(&mut desc, &mut node.desc);
        self.put_node(c, node);
        proof {
            assert(old(self).node_ok(old(self).node_of(c)));
            self.lemma_restore_wf_desc(*old(self), c);
        }
        desc
    }

    /// Store the pruned dependent-cell list after a propagation pass.
    fn put_desc(&mut self, c: u32, desc: Vec<u32>)
        requires
            old(self).wf(),
            old(self).live(c),
            forall|k: int|
                0 <= k < desc@.len() ==> ((#[trigger] desc@[k]) as int) < old(
                    self,
                ).binding_cells@.len(),
        ensures
            final(self).wf(),
            final(self).live(c),
            only_component_changed(*old(self), *final(self), c),
            ({
                let node = old(self).node_of(c);
                let new_node = final(self).node_of(c);
                &&& same_node_identity(node, new_node)
                &&& new_node.props == node.props
                &&& new_node.state == node.state
                &&& new_node.desc@ == desc@
                &&& new_node.nodes == node.nodes
                &&& new_node.rc == node.rc
                &&& new_node.updating == node.updating
                &&& new_node.inserted == node.inserted
            }),
    {
        let mut node = self.take_node(c);
        node.desc = desc;
        self.put_node(c, node);
        proof {
            self.lemma_restore_wf_desc(*old(self), c);
        }
    }

    /// As `lemma_restore_wf`, for helpers that replace the dependent-cell
    /// list with an in-range one.
    proof fn lemma_restore_wf_desc(self, a: ComponentSystem, c: u32)
        requires
            a.wf(),
            a.live(c),
            only_component_changed(a, self, c),
            self.components@[c as int] is Some,
            ({
                let node = a.node_of(c);
                let new_node = self.node_of(c);
                &&& new_node.vis_cell == node.vis_cell
                &&& new_node.binding_cell == node.binding_cell
                &&& new_node.children == node.children
                &&& new_node.props == node.props
                &&& new_node.state == node.state
                &&& new_node.nodes == node.nodes
                &&& new_node.kind == node.kind
                &&& forall|k: int|
                    0 <= k < new_node.desc@.len() ==> ((#[trigger] new_node.desc@[k]) as int)
                        < a.binding_cells@.len()
            }),
        ensures
            self.wf(),
    {
        assert(self.n() == a.n());
        assert forall|c2: int|
            0 <= c2 < self.n() && self.components@[c2] is Some implies self.node_ok(
            (#[trigger] self.components@[c2])->0,
        ) by {
            if c2 != c as int {
                assert(self.components@[c2] == a.components@[c2]);
                assert(a.node_ok(a.components@[c2]->0));
            } else {
                assert(a.node_ok(a.node_of(c)));
            }
        }
    }

    /// Read the cached rendered-node list, if the component has one.
    fn nodes_copy(&self, c: u32) -> (r: Option<Vec<u32>>)
        requires
            self.wf(),
            self.live(c),
        ensures
            match (r, self.node_of(c).nodes) {
                (Option::Some(a), Option::Some(b)) => a@ == b@,
                (Option::None, Option::None) => true,
                _ => false,
            },
            match r {
                Some(ns) => forall|k: int|
                    0 <= k < ns@.len() ==> ((#[trigger] ns@[k]) as int) < self.n(),
                None => true,
            },
    {
        match &self.components[c as usize] {
            Option::Some(node) => match &node.nodes {
                Option::Some(ns) => {
                    let mut copy: Vec<u32> = Vec::new();
                    let mut k: usize = 0;
                    while k < ns.len()
                        invariant
                            k <= ns@.len(),
                            copy@ == ns@.subrange(0, k as int),
                        decreases ns@.len() - k,
                    {
                        copy.push(ns[k]);
                        proof {
                            assert(copy@ =~= ns@.subrange(0, k as int + 1));
                        }
                        k = k + 1;
                    }
                    proof {
                        assert(copy@ =~= ns@);
                        assert(self.node_ok(self.node_of(c)));
                    }
                    Option::Some(copy)
                },
                Option::None => Option::None,
            },
            Option::None => {
                proof {
                    assert(false);
                }
                Option::None
            },
        }
    }

    /// Cache a rendered-node list.
    fn set_nodes(&mut self, c: u32, nodes: Option<Vec<u32>>)
        requires
            old(self).wf(),
            old(self).live(c),
            match nodes {
                Some(ns) => forall|k: int|
                    0 <= k < ns@.len() ==> ((#[trigger] ns@[k]) as int) < old(self).n(),
                None => true,
            },
        ensures
            final(self).wf(),
            final(self).live(c),
            only_component_changed(*old(self), *final(self), c),
            ({
                let node = old(self).node_of(c);
                let new_node = final(self).node_of(c);
                &&& same_node_identity(node, new_node)
                &&& new_node.props == node.props
                &&& new_node.state == node.state
                &&& new_node.desc == node.desc
                &&& new_node.rc == node.rc
                &&& new_node.updating == node.updating
                &&& new_node.inserted == node.inserted
                &&& (match (new_node.nodes, nodes) {
                    (Option::Some(a), Option::Some(b)) => a@ == b@,
                    (Option::None, Option::None) => true,
                    _ => false,
                })
            }),
    {
        let mut node = self.take_node(c);
        node.nodes = nodes;
        self.put_node(c, node);
        proof {
            self.lemma_restore_wf_nodes(*old(self), c);
        }
    }

    /// As `lemma_restore_wf`, for helpers that replace the cached node list
    /// with an in-range one.
    proof fn lemma_restore_wf_nodes(self, a: ComponentSystem, c: u32)
        requires
            a.wf(),
            a.live(c),
            only_component_changed(a, self, c),
            self.components@[c as int] is Some,
            ({
                let node = a.node_of(c);
                let new_node = self.node_of(c);
                &&& new_node.vis_cell == node.vis_cell
                &&& new_node.binding_cell == node.binding_cell
                &&& new_node.desc == node.desc
                &&& new_node.children == node.children
                &&& new_node.props == node.props
                &&& new_node.state == node.state
                &&& new_node.kind == node.kind
                &&& (match new_node.nodes {
                    Some(ns) => forall|k: int|
                        0 <= k < ns@.len() ==> ((#[trigger] ns@[k]) as int) < a.n(),
                    None => true,
                })
            }),
        ensures
            self.wf(),
    {
        assert(self.n() == a.n());
        assert forall|c2: int|
            0 <= c2 < self.n() && self.components@[c2] is Some implies self.node_ok(
            (#[trigger] self.components@[c2])->0,
        ) by {
            if c2 != c as int {
                assert(self.components@[c2] == a.components@[c2]);
                assert(a.node_ok(a.components@[c2]->0));
            } else {
                assert(a.node_ok(a.node_of(c)));
            }
        }
    }

    /// Assign the element under which the component's output is placed.
    fn set_dom_parent_impl(&mut self, c: u32, parent: HtmlElement, Ghost(doc): Ghost<HtmlDocument>)
        requires
            old(self).wf(),
            old(self).live(c),
            old(self).doc_ok(doc),
            doc.valid(parent.0),
            !doc.is_text_node(parent.0),
        ensures
            final(self).wf(),
            final(self).live(c),
            final(self).doc_ok(doc),
            only_component_changed(*old(self), *final(self), c),
            ({
                let node = old(self).node_of(c);
                let new_node = final(self).node_of(c);
                &&& new_node.id == node.id
                &&& new_node.name == node.name
                &&& new_node.kind == node.kind
                &&& new_node.binding_cell == node.binding_cell
                &&& new_node.children == node.children
                &&& new_node.vis_cell == node.vis_cell
                &&& new_node.props == node.props
                &&& new_node.state == node.state
                &&& new_node.desc == node.desc
                &&& new_node.nodes == node.nodes
                &&& new_node.rc == node.rc
                &&& new_node.updating == node.updating
                &&& new_node.inserted == node.inserted
                &&& new_node.dom_parent == Some(parent)
            }),
    {
        let mut node = self.take_node(c);
        node.dom_parent = Option::Some(parent);
        self.put_node(c, node);
        proof {
            self.lemma_restore_wf(*old(self), c);
            assert forall|c2: int|
                0 <= c2 < self.n() && self.components@[c2] is Some implies ({
                let node2 = (#[trigger] self.components@[c2])->0;
                &&& (match node2.kind {
                    ComponentKind::Text(t) => doc.valid(t.dom_node.0) && doc.is_text_node(
                        t.dom_node.0,
                    ),
                    ComponentKind::Html(h) => doc.valid(h.dom_node.0) && !doc.is_text_node(
                        h.dom_node.0,
                    ),
                    _ => true,
                })
                &&& (match node2.dom_parent {
                    Some(e) => doc.valid(e.0) && !doc.is_text_node(e.0),
                    None => true,
                })
            }) by {
                if c2 != c as int {
                    assert(self.components@[c2] == old(self).components@[c2]);
                }
            }
        }
    }
}

impl ComponentSystem {
    /// Invalidate one binding cell: producers holding it will prune it on
    /// their next update pass.
    fn invalidate_binding_cell(&mut self, cell: u32)
        requires
            old(self).wf(),
            (cell as int) < old(self).binding_cells@.len(),
        ensures
            final(self).wf(),
            final(self).components@ == old(self).components@,
            final(self).vis_cells@ == old(self).vis_cells@,
            final(self).binding_cells@ == old(self).binding_cells@.update(
                cell as int,
                None::<u32>,
            ),
            final(self).comp_lists@ == old(self).comp_lists@,
            final(self).value_lists@ == old(self).value_lists@,
            final(self).render_queue@ == old(self).render_queue@,
            final(self).render_queue_frame == old(self).render_queue_frame,
            final(self).frame_tasks@ == old(self).frame_tasks@,
            final(self).dom_roots@ == old(self).dom_roots@,
            final(self).frame_counter == old(self).frame_counter,
            final(self).callback_counter == old(self).callback_counter,
    {
        let idx = cell as usize;
        let _prev = self.binding_cells.remove(idx);
        self.binding_cells.insert(idx, Option::None);
        proof {
            assert(self.binding_cells@ =~= old(self).binding_cells@.update(
                cell as int,
                None::<u32>,
            ));
            assert forall|c2: int|
                0 <= c2 < self.n() && self.components@[c2] is Some implies self.node_ok(
                (#[trigger] self.components@[c2])->0,
            ) by {
                assert(old(self).node_ok(old(self).components@[c2]->0));
            }
        }
    }

    /// Register a fresh binding cell pointing at the consumer.
    fn alloc_binding_cell(&mut self, consumer: u32) -> (cell: u32)
        requires
            old(self).wf(),
            old(self).allocated(consumer),
            old(self).binding_cells@.len() < u32::MAX,
        ensures
            final(self).wf(),
            cell as int == old(self).binding_cells@.len(),
            final(self).binding_cells@ == old(self).binding_cells@.push(Some(consumer)),
            final(self).components@ == old(self).components@,
            final(self).vis_cells@ == old(self).vis_cells@,
            final(self).comp_lists@ == old(self).comp_lists@,
            final(self).value_lists@ == old(self).value_lists@,
            final(self).render_queue@ == old(self).render_queue@,
            final(self).render_queue_frame == old(self).render_queue_frame,
            final(self).frame_tasks@ == old(self).frame_tasks@,
            final(self).dom_roots@ == old(self).dom_roots@,
            final(self).frame_counter == old(self).frame_counter,
            final(self).callback_counter == old(self).callback_counter,
    {
        let cell = self.binding_cells.len() as u32;
        self.binding_cells.push(Option::Some(consumer));
        proof {
            assert forall|c2: int|
                0 <= c2 < self.n() && self.components@[c2] is Some implies self.node_ok(
                (#[trigger] self.components@[c2])->0,
            ) by {
                assert(old(self).node_ok(old(self).components@[c2]->0));
            }
        }
        cell
    }

    /// Install or clear the component's pull binding and cell registration.
    fn set_binding(&mut self, c: u32, binding: Option<Binding>, cell: Option<u32>)
        requires
            old(self).wf(),
            old(self).live(c),
            match binding {
                Some(b) => (b.producer as int) < old(self).n() && pull_refs_ok(
                    b.f,
                    old(self).comp_lists@.len() as int,
                    old(self).value_lists@.len() as int,
                ),
                None => true,
            },
            match cell {
                Some(b) => (b as int) < old(self).binding_cells@.len(),
                None => true,
            },
        ensures
            final(self).wf(),
            final(self).live(c),
            only_component_changed(*old(self), *final(self), c),
            ({
                let node = old(self).node_of(c);
                let new_node = final(self).node_of(c);
                &&& new_node.id == node.id
                &&& new_node.name == node.name
                &&& new_node.kind == node.kind
                &&& new_node.children == node.children
                &&& new_node.dom_parent == node.dom_parent
                &&& new_node.vis_cell == node.vis_cell
                &&& new_node.state == node.state
                &&& new_node.desc == node.desc
                &&& new_node.nodes == node.nodes
                &&& new_node.rc == node.rc
                &&& new_node.updating == node.updating
                &&& new_node.inserted == node.inserted
                &&& new_node.props.value == node.props.value
                &&& new_node.props.dirty == node.props.dirty
                &&& new_node.props.binding == binding
                &&& new_node.binding_cell == cell
            }),
    {
        let mut node = self.take_node(c);
        node.props.binding = binding;
        node.binding_cell = cell;
        self.put_node(c, node);
        proof {
            assert(old(self).node_ok(old(self).node_of(c)));
            assert(self.n() == old(self).n());
            assert forall|c2: int|
                0 <= c2 < self.n() && self.components@[c2] is Some implies self.node_ok(
                (#[trigger] self.components@[c2])->0,
            ) by {
                if c2 != c as int {
                    assert(self.components@[c2] == old(self).components@[c2]);
                    assert(old(self).node_ok(old(self).components@[c2]->0));
                }
            }
        }
    }

    /// Append a dependent's binding cell to the producer's list.
    fn push_desc(&mut self, c: u32, cell: u32)
        requires
            old(self).wf(),
            old(self).live(c),
            (cell as int) < old(self).binding_cells@.len(),
        ensures
            final(self).wf(),
            final(self).live(c),
            only_component_changed(*old(self), *final(self), c),
            ({
                let node = old(self).node_of(c);
                let new_node = final(self).node_of(c);
                &&& same_node_identity(node, new_node)
                &&& new_node.props == node.props
                &&& new_node.state == node.state
                &&& new_node.desc@ == node.desc@.push(cell)
                &&& new_node.nodes == node.nodes
                &&& new_node.rc == node.rc
                &&& new_node.updating == node.updating
                &&& new_node.inserted == node.inserted
            }),
    {
        let mut node = self.take_node(c);
        node.desc.push(cell);
        self.put_node(c, node);
        proof {
            assert(old(self).node_ok(old(self).node_of(c)));
            self.lemma_restore_wf_desc(*old(self), c);
        }
    }

    /// Replace the contents of one value list with those of another
    /// (clear-and-repopulate, the list container's item refresh).
    fn copy_value_list(&mut self, dst: u32, src: u32)
        requires
            old(self).wf(),
            (dst as int) < old(self).value_lists@.len(),
            (src as int) < old(self).value_lists@.len(),
        ensures
            final(self).wf(),
            final(self).components@ == old(self).components@,
            final(self).vis_cells@ == old(self).vis_cells@,
            final(self).binding_cells@ == old(self).binding_cells@,
            final(self).comp_lists@ == old(self).comp_lists@,
            final(self).value_lists@.len() == old(self).value_lists@.len(),
            forall|l: int|
                0 <= l < old(self).value_lists@.len() && l != dst as int
                    ==> final(self).value_lists@[l] == old(self).value_lists@[l],
            final(self).value_list_of(dst) == old(self).value_list_of(src),
            final(self).render_queue@ == old(self).render_queue@,
            final(self).render_queue_frame == old(self).render_queue_frame,
            final(self).frame_tasks@ == old(self).frame_tasks@,
            final(self).dom_roots@ == old(self).dom_roots@,
            final(self).frame_counter == old(self).frame_counter,
            final(self).callback_counter == old(self).callback_counter,
    {
        let copy = self.read_value_list(src);
        let idx = dst as usize;
        let _prev = self.value_lists.remove(idx);
        self.value_lists.insert(idx, copy);
        proof {
            assert(self.value_lists@ =~= old(self).value_lists@.update(
                dst as int,
                self.value_lists@[dst as int],
            ));
            assert forall|c2: int|
                0 <= c2 < self.n() && self.components@[c2] is Some implies self.node_ok(
                (#[trigger] self.components@[c2])->0,
            ) by {
                assert(old(self).node_ok(old(self).components@[c2]->0));
            }
            assert forall|l: int, k: int|
                0 <= l < self.value_lists@.len() && 0 <= k < self.value_lists@[l].len()
                    implies value_refs_ok(
                #[trigger] self.value_lists@[l][k],
                self.comp_lists@.len() as int,
                self.value_lists@.len() as int,
            ) by {
                if l == dst as int {
                    assert(self.value_lists@[l]@[k] == old(self).value_lists@[src as int]@[k]);
                    assert(value_refs_ok(
                        old(self).value_lists@[src as int][k],
                        old(self).comp_lists@.len() as int,
                        old(self).value_lists@.len() as int,
                    ));
                } else {
                    assert(self.value_lists@[l] == old(self).value_lists@[l]);
                }
            }
        }
    }
}

/// Nothing of the system changed.
pub open spec fn sys_same(a: ComponentSystem, b: ComponentSystem) -> bool {
    &&& b.components@ == a.components@
    &&& b.vis_cells@ == a.vis_cells@
    &&& b.binding_cells@ == a.binding_cells@
    &&& b.comp_lists@ == a.comp_lists@
    &&& b.value_lists@ == a.value_lists@
    &&& b.render_queue@ == a.render_queue@
    &&& b.render_queue_frame == a.render_queue_frame
    &&& b.frame_tasks@ == a.frame_tasks@
    &&& b.dom_roots@ == a.dom_roots@
    &&& b.frame_counter == a.frame_counter
    &&& b.callback_counter == a.callback_counter
}

/// What any pass may do to the system: allocate, never deallocate. Every
/// component that was live stays live, and the shared tables only grow.
pub open spec fn evolves(a: ComponentSystem, b: ComponentSystem) -> bool {
    &&& b.n() >= a.n()
    &&& forall|c: int|
        0 <= c < a.n() && a.components@[c] is Some ==> (#[trigger] b.components@[c]) is Some
    &&& b.vis_cells@.len() >= a.vis_cells@.len()
    &&& b.binding_cells@.len() >= a.binding_cells@.len()
    &&& b.comp_lists@.len() >= a.comp_lists@.len()
    &&& b.value_lists@.len() >= a.value_lists@.len()
}

impl ComponentSystem {
    /// Whether an update pass on the component, given no explicit values,
    /// would leave it untouched: both cells clean, already inserted and
    /// rendered, unguarded, and any binding currently yielding either nothing
    /// or a value equal to the current props.
    pub open spec fn clean(self, c: u32) -> bool {
        &&& !self.node_of(c).props.dirty
        &&& !self.node_of(c).state.cell.dirty
        &&& !self.node_of(c).updating
        &&& self.node_of(c).inserted
        &&& self.node_of(c).rc > 0
        &&& !(self.node_of(c).kind is ForeachItem)
        &&& (match self.node_of(c).props.binding {
            Some(b) => b.producer != c && (match self.binding_pull_spec(c) {
                Some(v) => crate::values::value_eq_spec(v, self.props_of(c)),
                None => true,
            }),
            None => true,
        })
    }

    /// A document mutation that keeps the tree shape cannot invalidate any
    /// component's DOM references.
    proof fn lemma_doc_ok_structure(self, doc0: HtmlDocument, doc1: HtmlDocument)
        requires
            self.doc_ok(doc0),
            doc0.structure_eq(doc1),
        ensures
            self.doc_ok(doc1),
    {
        assert forall|c: int|
            0 <= c < self.n() && self.components@[c] is Some implies ({
            let node = (#[trigger] self.components@[c])->0;
            &&& (match node.kind {
                ComponentKind::Text(t) => doc1.valid(t.dom_node.0) && doc1.is_text_node(
                    t.dom_node.0,
                ),
                ComponentKind::Html(h) => doc1.valid(h.dom_node.0) && !doc1.is_text_node(
                    h.dom_node.0,
                ),
                _ => true,
            })
            &&& (match node.dom_parent {
                Some(e) => doc1.valid(e.0) && !doc1.is_text_node(e.0),
                None => true,
            })
        }) by {
            let node = self.components@[c]->0;
            match node.kind {
                ComponentKind::Text(t) => {
                    assert(doc1.is_text_node(t.dom_node.0) == doc0.is_text_node(t.dom_node.0));
                },
                ComponentKind::Html(h) => {
                    assert(doc1.is_text_node(h.dom_node.0) == doc0.is_text_node(h.dom_node.0));
                },
                _ => {},
            }
            match node.dom_parent {
                Some(e) => {
                    assert(doc1.is_text_node(e.0) == doc0.is_text_node(e.0));
                },
                None => {},
            }
        }
    }

    /// As `lemma_restore_wf`, for any replacement node that is in range.
    proof fn lemma_restore_wf_any(self, a: ComponentSystem, c: u32)
        requires
            a.wf(),
            a.live(c),
            only_component_changed(a, self, c),
            self.components@[c as int] is Some,
            a.node_ok(self.node_of(c)),
        ensures
            self.wf(),
    {
        assert(self.n() == a.n());
        assert forall|c2: int|
            0 <= c2 < self.n() && self.components@[c2] is Some implies self.node_ok(
            (#[trigger] self.components@[c2])->0,
        ) by {
            if c2 != c as int {
                assert(self.components@[c2] == a.components@[c2]);
                assert(a.node_ok(a.components@[c2]->0));
            } else {
                assert(a.node_ok(self.node_of(c)));
                assert(self.comp_lists@ == a.comp_lists@);
            }
        }
    }

    /// The element-component attribute sync: write the element's id, class,
    /// listeners and inline style to match its current props, remembering the
    /// attached listeners and written style in the component's payload.
    /// Write the element's id and class attributes from its props: the id is
    /// set or cleared by presence, the class comes from `class`, else
    /// `class_name`, else is cleared.
    fn sync_element_attrs(doc: &mut HtmlDocument, e: HtmlElement, props_h: &HtmlProps)
        requires
            old(doc).wf(),
            old(doc).valid(e.0),
        ensures
            final(doc).wf(),
            old(doc).structure_eq(*final(doc)),
            old(doc).same_nodes_except(*final(doc), e.0),
            final(doc).body == old(doc).body,
            ({
                let n0 = old(doc).nodes@[e.0 as int];
                let n1 = final(doc).nodes@[e.0 as int];
                &&& n1.id_attr == props_h.id
                &&& n1.class_attr == (match props_h.class {
                    Option::Some(cl) => Option::Some(cl),
                    Option::None => props_h.class_name,
                })
                &&& n1.text == n0.text
                &&& n1.href_attr == n0.href_attr
                &&& n1.target_attr == n0.target_attr
                &&& n1.value_prop == n0.value_prop
                &&& n1.style == n0.style
                &&& n1.listeners == n0.listeners
            }),
    {
        match &props_h.id {
            Option::Some(id) => e.set_id(doc, id.clone()),
            Option::None => e.remove_attribute(doc, crate::html::Attr::Id),
        }
        let ghost mid = *doc;
        proof {
            assert(old(doc).structure_eq(mid));
        }
        let cls: Option<String> = match (&props_h.class, &props_h.class_name) {
            (Option::Some(cl), _) => Option::Some(cl.clone()),
            (Option::None, Option::Some(cn)) => Option::Some(cn.clone()),
            (Option::None, Option::None) => Option::None,
        };
        match cls {
            Option::Some(cl) => e.set_class_name(doc, cl),
            Option::None => e.remove_attribute(doc, crate::html::Attr::Class),
        }
        proof {
            crate::html::structure_eq_trans(*old(doc), mid, *doc);
        }
    }

    /// Reattach the element's listeners where the props callbacks differ (by
    /// identity) from the recorded attached ones, remembering what is now
    /// attached.
    fn sync_element_listeners(
        doc: &mut HtmlDocument,
        e: HtmlElement,
        props_h: &HtmlProps,
        attached: &mut crate::values::HtmlEvents,
    )
        requires
            old(doc).wf(),
            old(doc).valid(e.0),
        ensures
            final(doc).wf(),
            old(doc).structure_eq(*final(doc)),
            old(doc).same_nodes_except(*final(doc), e.0),
            final(doc).body == old(doc).body,
            final(attached).click == (if props_h.on_click.id != old(attached).click.id {
                props_h.on_click
            } else {
                old(attached).click
            }),
            final(attached).input == (if props_h.on_input.id != old(attached).input.id {
                props_h.on_input
            } else {
                old(attached).input
            }),
            final(attached).change == (if props_h.on_change.id != old(attached).change.id {
                props_h.on_change
            } else {
                old(attached).change
            }),
            ({
                let n0 = old(doc).nodes@[e.0 as int];
                let n1 = final(doc).nodes@[e.0 as int];
                &&& n1.listeners.click == (if props_h.on_click.id != old(attached).click.id {
                    props_h.on_click
                } else {
                    n0.listeners.click
                })
                &&& n1.listeners.input == (if props_h.on_input.id != old(attached).input.id {
                    props_h.on_input
                } else {
                    n0.listeners.input
                })
                &&& n1.listeners.change == (if props_h.on_change.id != old(attached).change.id {
                    props_h.on_change
                } else {
                    n0.listeners.change
                })
                &&& n1.id_attr == n0.id_attr
                &&& n1.class_attr == n0.class_attr
                &&& n1.text == n0.text
                &&& n1.href_attr == n0.href_attr
                &&& n1.target_attr == n0.target_attr
                &&& n1.value_prop == n0.value_prop
                &&& n1.style == n0.style
            }),
    {
        if props_h.on_click.id != attached.click.id {
            e.remove_event_listener(doc, EventName::Click, props_h.on_click.clone());
            e.add_event_listener(doc, EventName::Click, props_h.on_click.clone());
            attached.click = props_h.on_click.clone();
        }
        let ghost mid1 = *doc;
        proof {
            assert(old(doc).structure_eq(mid1));
        }
        if props_h.on_input.id != attached.input.id {
            e.remove_event_listener(doc, EventName::Input, props_h.on_input.clone());
            e.add_event_listener(doc, EventName::Input, props_h.on_input.clone());
            attached.input = props_h.on_input.clone();
        }
        let ghost mid2 = *doc;
        proof {
            assert(mid1.structure_eq(mid2));
        }
        if props_h.on_change.id != attached.change.id {
            e.remove_event_listener(doc, EventName::Change, props_h.on_change.clone());
            e.add_event_listener(doc, EventName::Change, props_h.on_change.clone());
            attached.change = props_h.on_change.clone();
        }
        proof {
            crate::html::structure_eq_trans(*old(doc), mid1, mid2);
            crate::html::structure_eq_trans(*old(doc), mid2, *doc);
        }
    }

    /// Rewrite the element's inline style when the props style differs from
    /// the one last written (by contents), remembering what is now written; a
    /// missing style is always treated as a change and clears the element's
    /// style.
    fn sync_element_style(
        doc: &mut HtmlDocument,
        e: HtmlElement,
        props_h: &HtmlProps,
        saved: &mut crate::values::HtmlStyle,
    )
        requires
            old(doc).wf(),
            old(doc).valid(e.0),
        ensures
            final(doc).wf(),
            old(doc).structure_eq(*final(doc)),
            old(doc).same_nodes_except(*final(doc), e.0),
            final(doc).body == old(doc).body,
            ({
                let unchanged = match props_h.style {
                    Option::Some(s) => crate::values::style_eq_spec(s, *old(saved)),
                    Option::None => false,
                };
                let n0 = old(doc).nodes@[e.0 as int];
                let n1 = final(doc).nodes@[e.0 as int];
                if unchanged {
                    &&& *final(saved) == *old(saved)
                    &&& final(doc).nodes@ == old(doc).nodes@
                    &&& final(doc).op_log() == old(doc).op_log()
                } else {
                    &&& *final(saved) == (match props_h.style {
                        Option::Some(s) => s,
                        Option::None => crate::values::HtmlStyle {
                            color: Option::None,
                            background: Option::None,
                            border: Option::None,
                            cursor: Option::None,
                            font_size: Option::None,
                        },
                    })
                    &&& n1.style == *final(saved)
                    &&& n1.id_attr == n0.id_attr
                    &&& n1.class_attr == n0.class_attr
                    &&& n1.text == n0.text
                    &&& n1.href_attr == n0.href_attr
                    &&& n1.target_attr == n0.target_attr
                    &&& n1.value_prop == n0.value_prop
                    &&& n1.listeners == n0.listeners
                }
            }),
    {
        let style_unchanged = match &props_h.style {
            Option::Some(s) => s == &*saved,
            Option::None => false,
        };
        if style_unchanged {
            return ;
        }
        *saved = match &props_h.style {
            Option::Some(s) => s.clone(),
            Option::None => crate::values::HtmlStyle::default(),
        };
        e.remove_attribute(doc, crate::html::Attr::Style);
        let ghost mid0 = *doc;
        if let Option::Some(v) = &saved.color {
            e.set_style_property(doc, crate::html::StyleProp::Color, v.clone());
        }
        let ghost mid1 = *doc;
        proof {
            assert(mid0.structure_eq(mid1));
        }
        if let Option::Some(v) = &saved.background {
            e.set_style_property(doc, crate::html::StyleProp::Background, v.clone());
        }
        let ghost mid2 = *doc;
        proof {
            assert(mid1.structure_eq(mid2));
        }
        if let Option::Some(v) = &saved.border {
            e.set_style_property(doc, crate::html::StyleProp::Border, v.clone());
        }
        let ghost mid3 = *doc;
        proof {
            assert(mid2.structure_eq(mid3));
        }
        if let Option::Some(v) = &saved.cursor {
            e.set_style_property(doc, crate::html::StyleProp::Cursor, v.clone());
        }
        let ghost mid4 = *doc;
        proof {
            assert(mid3.structure_eq(mid4));
        }
        if let Option::Some(v) = &saved.font_size {
            e.set_style_property(doc, crate::html::StyleProp::FontSize, v.clone());
        }
        proof {
            crate::html::structure_eq_trans(*old(doc), mid0, mid1);
            crate::html::structure_eq_trans(*old(doc), mid1, mid2);
            crate::html::structure_eq_trans(*old(doc), mid2, mid3);
            crate::html::structure_eq_trans(*old(doc), mid3, mid4);
            crate::html::structure_eq_trans(*old(doc), mid4, *doc);
        }
    }

    /// The element-component attribute sync: write the element's id, class,
    /// listeners and inline style to match its current props, remembering the
    /// attached listeners and written style in the component's payload.
    fn on_html_updated(&mut self, doc: &mut HtmlDocument, c: u32)
        requires
            old(self).wf(),
            old(doc).wf(),
            old(self).doc_ok(*old(doc)),
            old(self).live(c),
        ensures
            final(self).wf(),
            final(doc).wf(),
            final(self).doc_ok(*final(doc)),
            old(doc).structure_eq(*final(doc)),
            only_component_changed(*old(self), *final(self), c),
            final(self).live(c),
            ({
                let node = old(self).node_of(c);
                let new_node = final(self).node_of(c);
                &&& new_node.id == node.id
                &&& new_node.name == node.name
                &&& new_node.binding_cell == node.binding_cell
                &&& new_node.children == node.children
                &&& new_node.dom_parent == node.dom_parent
                &&& new_node.vis_cell == node.vis_cell
                &&& new_node.props == node.props
                &&& new_node.state == node.state
                &&& new_node.desc == node.desc
                &&& new_node.nodes == node.nodes
                &&& new_node.rc == node.rc
                &&& new_node.updating == node.updating
                &&& new_node.inserted == node.inserted
                &&& (match (node.kind, new_node.kind) {
                    (ComponentKind::Html(h0), ComponentKind::Html(h1)) => h1.dom_node == h0.dom_node
                        && h1.tag == h0.tag && h1.config == h0.config,
                    _ => new_node.kind == node.kind,
                })
            }),
            !(old(self).props_of(c) matches Value::Html(_)) ==> sys_same(
                *old(self),
                *final(self),
            ) && old(doc).doc_same(*final(doc)),
            (match (old(self).props_of(c), old(self).node_of(c).kind) {
                (Value::Html(h), ComponentKind::Html(d0)) => ({
                    let e = d0.dom_node.0;
                    let n0 = old(doc).nodes@[e as int];
                    let n1 = final(doc).nodes@[e as int];
                    let style_unchanged = match h.style {
                        Option::Some(s) => crate::values::style_eq_spec(s, d0.saved_style),
                        Option::None => false,
                    };
                    &&& old(doc).same_nodes_except(*final(doc), e as usize)
                    &&& n1.id_attr == h.id
                    &&& n1.class_attr == (match h.class {
                        Option::Some(cl) => Option::Some(cl),
                        Option::None => h.class_name,
                    })
                    &&& n1.listeners.click == (if h.on_click.id != d0.attached_events.click.id {
                        h.on_click
                    } else {
                        n0.listeners.click
                    })
                    &&& n1.listeners.input == (if h.on_input.id != d0.attached_events.input.id {
                        h.on_input
                    } else {
                        n0.listeners.input
                    })
                    &&& n1.listeners.change == (if h.on_change.id != d0.attached_events.change.id {
                        h.on_change
                    } else {
                        n0.listeners.change
                    })
                    &&& n1.style == (if style_unchanged {
                        n0.style
                    } else {
                        match h.style {
                            Option::Some(s) => s,
                            Option::None => crate::values::HtmlStyle {
                                color: Option::None,
                                background: Option::None,
                                border: Option::None,
                                cursor: Option::None,
                                font_size: Option::None,
                            },
                        }
                    })
                    &&& n1.text == n0.text
                    &&& n1.href_attr == n0.href_attr
                    &&& n1.target_attr == n0.target_attr
                    &&& n1.value_prop == n0.value_prop
                    &&& (match final(self).node_of(c).kind {
                        ComponentKind::Html(d1) => ({
                            &&& d1.attached_events.click == (if h.on_click.id
                                != d0.attached_events.click.id {
                                h.on_click
                            } else {
                                d0.attached_events.click
                            })
                            &&& d1.attached_events.input == (if h.on_input.id
                                != d0.attached_events.input.id {
                                h.on_input
                            } else {
                                d0.attached_events.input
                            })
                            &&& d1.attached_events.change == (if h.on_change.id
                                != d0.attached_events.change.id {
                                h.on_change
                            } else {
                                d0.attached_events.change
                            })
                            &&& d1.saved_style == (if style_unchanged {
                                d0.saved_style
                            } else {
                                match h.style {
                                    Option::Some(s) => s,
                                    Option::None => crate::values::HtmlStyle {
                                        color: Option::None,
                                        background: Option::None,
                                        border: Option::None,
                                        cursor: Option::None,
                                        font_size: Option::None,
                                    },
                                }
                            })
                        }),
                        _ => false,
                    })
                }),
                _ => true,
            }),
    {
        let props_h: HtmlProps = match self.props_value(c) {
            Value::Html(h) => h,
            _ => {
                return ;
            },
        };
        let mut node = self.take_node(c);
        let new_kind = match node.kind {
            ComponentKind::Html(mut data) => {
                let e = data.dom_node;
                proof {
                    assert(old(self).node_ok(old(self).node_of(c)));
                }
                Self::sync_element_attrs(doc, e, &props_h);
                let ghost mid1 = *doc;
                Self::sync_element_listeners(doc, e, &props_h, &mut data.attached_events);
                let ghost mid2 = *doc;
                proof {
                    crate::html::structure_eq_trans(*old(doc), mid1, mid2);
                }
                Self::sync_element_style(doc, e, &props_h, &mut data.saved_style);
                proof {
                    crate::html::structure_eq_trans(*old(doc), mid2, *doc);
                }
                ComponentKind::Html(data)
            },
            other => other,
        };
        node.kind = new_kind;
        self.put_node(c, node);
        proof {
            self.lemma_restore_wf_any(*old(self), c);
            assert(old(doc).structure_eq(*doc));
            assert forall|c2: int|
                0 <= c2 < self.n() && self.components@[c2] is Some implies ({
                let node2 = (#[trigger] self.components@[c2])->0;
                &&& (match node2.kind {
                    ComponentKind::Text(t) => doc.valid(t.dom_node.0) && doc.is_text_node(
                        t.dom_node.0,
                    ),
                    ComponentKind::Html(h) => doc.valid(h.dom_node.0) && !doc.is_text_node(
                        h.dom_node.0,
                    ),
                    _ => true,
                })
                &&& (match node2.dom_parent {
                    Some(e2) => doc.valid(e2.0) && !doc.is_text_node(e2.0),
                    None => true,
                })
            }) by {
                let node2 = self.components@[c2]->0;
                if c2 != c as int {
                    assert(self.components@[c2] == old(self).components@[c2]);
                }
                match node2.kind {
                    ComponentKind::Text(t) => {
                        assert(doc.is_text_node(t.dom_node.0) == old(doc).is_text_node(
                            t.dom_node.0,
                        ));
                    },
                    ComponentKind::Html(h) => {
                        assert(doc.is_text_node(h.dom_node.0) == old(doc).is_text_node(
                            h.dom_node.0,
                        ));
                    },
                    _ => {},
                }
                match node2.dom_parent {
                    Some(e2) => {
                        assert(doc.is_text_node(e2.0) == old(doc).is_text_node(e2.0));
                    },
                    None => {},
                }
            }
        }
    }

    /// The text-component content sync: write the text node's contents from
    /// the component's props.
    fn on_text_updated(&mut self, doc: &mut HtmlDocument, c: u32)
        requires
            old(self).wf(),
            old(doc).wf(),
            old(self).doc_ok(*old(doc)),
            old(self).live(c),
        ensures
            final(self).wf(),
            final(doc).wf(),
            final(self).doc_ok(*final(doc)),
            old(doc).structure_eq(*final(doc)),
            sys_same(*old(self), *final(self)),
            ({
                match (old(self).props_of(c), old(self).node_of(c).kind) {
                    (Value::TextProps(t), ComponentKind::Text(td)) => final(doc).nodes@ == old(
                        doc,
                    ).nodes@.update(
                        td.dom_node.0 as int,
                        crate::html::DomNode {
                            text: t.text_content,
                            ..old(doc).nodes@[td.dom_node.0 as int]
                        },
                    ) && final(doc).op_log() == old(doc).op_log().push(
                        crate::html::SurfaceOp::SetText {
                            node: td.dom_node.0,
                            text: t.text_content,
                        },
                    ),
                    _ => old(doc).doc_same(*final(doc)),
                }
            }),
    {
        let text: String = match self.props_value(c) {
            Value::TextProps(t) => t.text_content,
            _ => {
                return ;
            },
        };
        let dom: Option<crate::html::HtmlTextNode> = match &self.components[c as usize] {
            Option::Some(node) => match &node.kind {
                ComponentKind::Text(td) => Option::Some(td.dom_node),
                _ => Option::None,
            },
            Option::None => {
                proof {
                    assert(false);
                }
                Option::None
            },
        };
        match dom {
            Option::Some(t) => {
                proof {
                    assert(old(self).node_ok(old(self).node_of(c)));
                }
                t.set_text_content(doc, text);
                proof {
                    self.lemma_doc_ok_structure(*old(doc), *doc);
                }
            },
            Option::None => {},
        }
    }

    /// The anchor-component attribute sync: write or clear the element's link
    /// attributes from its props.
    fn on_anchor_updated(&mut self, doc: &mut HtmlDocument, c: u32)
        requires
            old(self).wf(),
            old(doc).wf(),
            old(self).doc_ok(*old(doc)),
            old(self).live(c),
        ensures
            final(self).wf(),
            final(doc).wf(),
            final(self).doc_ok(*final(doc)),
            old(doc).structure_eq(*final(doc)),
            sys_same(*old(self), *final(self)),
            (match (old(self).props_of(c), old(self).node_of(c).kind) {
                (Value::Html(h), ComponentKind::Html(d0)) => ({
                    let e = d0.dom_node.0;
                    let n0 = old(doc).nodes@[e as int];
                    let n1 = final(doc).nodes@[e as int];
                    &&& old(doc).same_nodes_except(*final(doc), e as usize)
                    &&& n1.href_attr == h.href
                    &&& n1.target_attr == h.target
                    &&& n1.id_attr == n0.id_attr
                    &&& n1.class_attr == n0.class_attr
                    &&& n1.text == n0.text
                    &&& n1.value_prop == n0.value_prop
                    &&& n1.style == n0.style
                    &&& n1.listeners == n0.listeners
                }),
                _ => old(doc).doc_same(*final(doc)),
            }),
    {
        let props_h: HtmlProps = match self.props_value(c) {
            Value::Html(h) => h,
            _ => {
                return ;
            },
        };
        let dom: Option<HtmlElement> = match &self.components[c as usize] {
            Option::Some(node) => match &node.kind {
                ComponentKind::Html(h) => Option::Some(h.dom_node),
                _ => Option::None,
            },
            Option::None => {
                proof {
                    assert(false);
                }
                Option::None
            },
        };
        match dom {
            Option::Some(e) => {
                proof {
                    assert(old(self).node_ok(old(self).node_of(c)));
                }
                match &props_h.href {
                    Option::Some(href) => e.set_href(doc, href.clone()),
                    Option::None => e.remove_attribute(doc, crate::html::Attr::Href),
                }
                match &props_h.target {
                    Option::Some(t) => e.set_target(doc, t.clone()),
                    Option::None => e.remove_attribute(doc, crate::html::Attr::Target),
                }
                proof {
                    self.lemma_doc_ok_structure(*old(doc), *doc);
                }
            },
            Option::None => {},
        }
    }

    /// The input-component value sync: when the props changed, push the props
    /// value into the element and schedule the state to mirror it.
    fn on_input_updated(&mut self, doc: &mut HtmlDocument, c: u32, prev_props: &Value)
        requires
            old(self).wf(),
            old(doc).wf(),
            old(self).doc_ok(*old(doc)),
            old(self).live(c),
        ensures
            final(self).wf(),
            final(doc).wf(),
            final(self).doc_ok(*final(doc)),
            old(doc).structure_eq(*final(doc)),
            final(self).n() == old(self).n(),
            forall|j: int|
                0 <= j < old(self).n() && j != c as int ==> final(self).components@[j] == old(
                    self,
                ).components@[j],
            final(self).vis_cells@ == old(self).vis_cells@,
            final(self).comp_lists@ == old(self).comp_lists@,
            final(self).value_lists@ == old(self).value_lists@,
            final(self).dom_roots@ == old(self).dom_roots@,
            final(self).live(c),
            final(self).props_of(c) == old(self).props_of(c),
            final(self).state_of(c) == old(self).state_of(c),
            final(self).node_of(c).props == old(self).node_of(c).props,
            final(self).node_of(c).state.cell == old(self).node_of(c).state.cell,
            final(self).node_of(c).updating == old(self).node_of(c).updating,
            final(self).node_of(c).inserted == old(self).node_of(c).inserted,
            final(self).node_of(c).binding_cell == old(self).node_of(c).binding_cell,
            final(self).node_of(c).children == old(self).node_of(c).children,
            final(self).node_of(c).nodes == old(self).node_of(c).nodes,
            final(self).node_of(c).rc == old(self).node_of(c).rc,
            final(self).node_of(c).desc == old(self).node_of(c).desc,
            final(self).node_of(c).kind == old(self).node_of(c).kind,
            final(self).node_of(c).dom_parent == old(self).node_of(c).dom_parent,
            final(self).render_queue@ == old(self).render_queue@,
            final(self).render_queue_frame == old(self).render_queue_frame,
            final(self).binding_cells@ == old(self).binding_cells@,
            (match (old(self).props_of(c), old(self).node_of(c).kind) {
                (Value::Html(h), ComponentKind::Html(d0)) => {
                    if crate::values::value_eq_spec(*prev_props, old(self).props_of(c)) {
                        sys_same(*old(self), *final(self)) && old(doc).doc_same(*final(doc))
                    } else {
                        ({
                            let e = d0.dom_node.0;
                            let n0 = old(doc).nodes@[e as int];
                            let n1 = final(doc).nodes@[e as int];
                            let v_view = match h.value {
                                Option::Some(s) => s@,
                                Option::None => Seq::<char>::empty(),
                            };
                            &&& old(doc).same_nodes_except(*final(doc), e as usize)
                            &&& n1.value_prop@ == v_view
                            &&& n1.id_attr == n0.id_attr
                            &&& n1.class_attr == n0.class_attr
                            &&& n1.text == n0.text
                            &&& n1.href_attr == n0.href_attr
                            &&& n1.target_attr == n0.target_attr
                            &&& n1.style == n0.style
                            &&& n1.listeners == n0.listeners
                            &&& (final(self).node_of(c).state.next_value matches Some(sv)
                                && (sv matches Value::Str(s2) && s2@ == v_view))
                            &&& final(self).node_of(c).state.frame is Some
                        })
                    }
                },
                _ => sys_same(*old(self), *final(self)) && old(doc).doc_same(*final(doc)),
            }),
    {
        let props = self.props_value(c);
        if value_eq(prev_props, &props) {
            return ;
        }
        let props_h: HtmlProps = match props {
            Value::Html(h) => h,
            _ => {
                return ;
            },
        };
        let dom: Option<HtmlElement> = match &self.components[c as usize] {
            Option::Some(node) => match &node.kind {
                ComponentKind::Html(h) => Option::Some(h.dom_node),
                _ => Option::None,
            },
            Option::None => {
                proof {
                    assert(false);
                }
                Option::None
            },
        };
        match dom {
            Option::Some(e) => {
                proof {
                    assert(old(self).node_ok(old(self).node_of(c)));
                }
                let v: String = match &props_h.value {
                    Option::Some(s) => s.clone(),
                    Option::None => String::new(),
                };
                e.set_value(doc, v.clone());
                proof {
                    self.lemma_doc_ok_structure(*old(doc), *doc);
                }
                self.set_state(c, Value::Str(v));
            },
            Option::None => {},
        }
    }

    /// The conditional's branch switch: when the condition and the visible
    /// branch disagree, schedule the state to name the matching branch.
    fn on_cond_updated(&mut self, c: u32)
        requires
            old(self).wf(),
            old(self).live(c),
        ensures
            final(self).wf(),
            final(self).live(c),
            final(self).n() == old(self).n(),
            forall|j: int|
                0 <= j < old(self).n() && j != c as int ==> final(self).components@[j] == old(
                    self,
                ).components@[j],
            final(self).vis_cells@ == old(self).vis_cells@,
            final(self).comp_lists@ == old(self).comp_lists@,
            final(self).value_lists@ == old(self).value_lists@,
            final(self).dom_roots@ == old(self).dom_roots@,
            final(self).props_of(c) == old(self).props_of(c),
            final(self).state_of(c) == old(self).state_of(c),
            final(self).node_of(c).props == old(self).node_of(c).props,
            final(self).node_of(c).state.cell == old(self).node_of(c).state.cell,
            final(self).node_of(c).updating == old(self).node_of(c).updating,
            final(self).node_of(c).inserted == old(self).node_of(c).inserted,
            final(self).node_of(c).binding_cell == old(self).node_of(c).binding_cell,
            final(self).node_of(c).children == old(self).node_of(c).children,
            final(self).node_of(c).nodes == old(self).node_of(c).nodes,
            final(self).node_of(c).rc == old(self).node_of(c).rc,
            final(self).node_of(c).desc == old(self).node_of(c).desc,
            final(self).node_of(c).kind == old(self).node_of(c).kind,
            final(self).node_of(c).dom_parent == old(self).node_of(c).dom_parent,
            final(self).render_queue@ == old(self).render_queue@,
            final(self).render_queue_frame == old(self).render_queue_frame,
            final(self).binding_cells@ == old(self).binding_cells@,
            ({
                match (old(self).props_of(c), old(self).state_of(c)) {
                    (Value::Bool(cond), Value::CondState(st)) => {
                        if cond && st.visible_children != st.if_children {
                            final(self).node_of(c).state.next_value == Some(
                                Value::CondState(
                                    IfState {
                                        if_children: st.if_children,
                                        else_children: st.else_children,
                                        visible_children: st.if_children,
                                    },
                                ),
                            )
                        } else if !cond && st.visible_children != st.else_children {
                            final(self).node_of(c).state.next_value == Some(
                                Value::CondState(
                                    IfState {
                                        if_children: st.if_children,
                                        else_children: st.else_children,
                                        visible_children: st.else_children,
                                    },
                                ),
                            )
                        } else {
                            sys_same(*old(self), *final(self))
                        }
                    },
                    _ => sys_same(*old(self), *final(self)),
                }
            }),
    {
        let cond: bool = match self.props_value(c) {
            Value::Bool(b) => b,
            _ => {
                return ;
            },
        };
        let st: IfState = match self.state_value(c) {
            Value::CondState(s) => s,
            _ => {
                return ;
            },
        };
        proof {
            assert(old(self).node_ok(old(self).node_of(c)));
        }
        if cond && st.visible_children != st.if_children {
            self.set_state(
                c,
                Value::CondState(
                    IfState {
                        if_children: st.if_children,
                        else_children: st.else_children,
                        visible_children: st.if_children,
                    },
                ),
            );
        } else if !cond && st.visible_children != st.else_children {
            self.set_state(
                c,
                Value::CondState(
                    IfState {
                        if_children: st.if_children,
                        else_children: st.else_children,
                        visible_children: st.else_children,
                    },
                ),
            );
        }
    }

    /// The list container's item refresh: clear and repopulate its item cache
    /// from the current item-list props.
    fn on_foreach_updated(&mut self, c: u32)
        requires
            old(self).wf(),
            old(self).live(c),
        ensures
            final(self).wf(),
            final(self).live(c),
            final(self).components@ == old(self).components@,
            final(self).vis_cells@ == old(self).vis_cells@,
            final(self).binding_cells@ == old(self).binding_cells@,
            final(self).comp_lists@ == old(self).comp_lists@,
            final(self).value_lists@.len() == old(self).value_lists@.len(),
            final(self).render_queue@ == old(self).render_queue@,
            final(self).render_queue_frame == old(self).render_queue_frame,
            final(self).frame_tasks@ == old(self).frame_tasks@,
            final(self).dom_roots@ == old(self).dom_roots@,
            ({
                match (old(self).props_of(c), old(self).node_of(c).kind) {
                    (Value::Foreach(fp), ComponentKind::Foreach(fd)) => final(self).value_list_of(
                        fd.items,
                    ) == old(self).value_list_of(fp.items),
                    _ => sys_same(*old(self), *final(self)),
                }
            }),
    {
        let src_list: Option<u32> = match self.props_value(c) {
            Value::Foreach(fp) => Option::Some(fp.items),
            _ => Option::None,
        };
        let dst_list: Option<u32> = match &self.components[c as usize] {
            Option::Some(node) => match &node.kind {
                ComponentKind::Foreach(fd) => Option::Some(fd.items),
                _ => Option::None,
            },
            Option::None => {
                proof {
                    assert(false);
                }
                Option::None
            },
        };
        proof {
            assert(old(self).node_ok(old(self).node_of(c)));
        }
        match (src_list, dst_list) {
            (Option::Some(src), Option::Some(dst)) => {
                self.copy_value_list(dst, src);
            },
            _ => {},
        }
    }
}

/// Components that are mid-update keep their value cells and flags: nothing
/// but a component's own (unguarded) update pass writes them.
pub open spec fn guarded_cells_stable(a: ComponentSystem, b: ComponentSystem) -> bool {
    forall|j: int|
        0 <= j < a.n() && a.components@[j] is Some && a.components@[j]->0.updating ==> {
            &&& (#[trigger] b.components@[j]) is Some
            &&& b.components@[j]->0.props == a.components@[j]->0.props
            &&& b.components@[j]->0.state.cell == a.components@[j]->0.state.cell
            &&& b.components@[j]->0.updating
            &&& b.components@[j]->0.inserted == a.components@[j]->0.inserted
            &&& b.components@[j]->0.binding_cell == a.components@[j]->0.binding_cell
            &&& b.components@[j]->0.children == a.components@[j]->0.children
        }
}

impl ComponentSystem {
    /// Candidate props for an update pass: the explicit value if one was
    /// given, else whatever the binding yields right now.
    pub open spec fn props_candidate(self, c: u32, new_props: Option<Value>) -> Option<Value> {
        match new_props {
            Some(v) => Some(v),
            None => self.binding_pull_spec(c),
        }
    }

    /// Whether the candidate computed mid-pass equals the candidate over the
    /// entry state: an explicit value always does; a binding does unless the
    /// component is its own producer (its state update may shift the pull).
    pub open spec fn props_candidate_stable(self, c: u32, new_props: Option<Value>) -> bool {
        match new_props {
            Some(_) => true,
            None => match self.node_of(c).props.binding {
                Some(b) => b.producer != c,
                None => true,
            },
        }
    }

    /// What an unguarded, visible update pass reports, over the entry state.
    pub open spec fn update_changed_spec(self, c: u32, new_props: Option<Value>, new_state: Option<
        Value,
    >) -> bool {
        ||| crate::cells::resolved_changed(
            self.node_of(c).props,
            self.props_candidate(c, new_props),
        )
        ||| self.node_of(c).kind is ForeachItem
        ||| crate::cells::resolved_changed(self.node_of(c).state.cell, new_state)
        ||| self.node_of(c).rc == 0
    }

    /// The cell phase of a visible update pass: step the state cell with the
    /// explicit candidate, resolve the props candidate (an explicit value,
    /// else the binding's pull) and step the props cell, then mark the node
    /// inserted. Reports (props changed, state changed).
    fn update_pass_cells(&mut self, c: u32, new_props: Option<Value>, new_state: Option<Value>)
        -> (r: (bool, bool))
        requires
            old(self).wf(),
            old(self).live(c),
            match new_props {
                Some(v) => value_refs_ok(
                    v,
                    old(self).comp_lists@.len() as int,
                    old(self).value_lists@.len() as int,
                ),
                None => true,
            },
            match new_state {
                Some(v) => value_refs_ok(
                    v,
                    old(self).comp_lists@.len() as int,
                    old(self).value_lists@.len() as int,
                ),
                None => true,
            },
        ensures
            final(self).wf(),
            final(self).live(c),
            only_component_changed(*old(self), *final(self), c),
            ({
                let node = old(self).node_of(c);
                let new_node = final(self).node_of(c);
                &&& same_node_identity(node, new_node)
                &&& new_node.desc == node.desc
                &&& new_node.nodes == node.nodes
                &&& new_node.rc == node.rc
                &&& new_node.updating == node.updating
                &&& new_node.inserted
                &&& new_node.state.cell.value == crate::cells::resolved_value(
                    node.state.cell,
                    new_state,
                )
                &&& !new_node.state.cell.dirty
                &&& new_node.state.cell.binding == node.state.cell.binding
                &&& new_node.state.next_value == node.state.next_value
                &&& new_node.state.frame == node.state.frame
                &&& new_node.props.binding == node.props.binding
                &&& !new_node.props.dirty
                &&& r.1 == crate::cells::resolved_changed(node.state.cell, new_state)
                &&& (old(self).props_candidate_stable(c, new_props) ==> {
                    &&& new_node.props.value == crate::cells::resolved_value(
                        node.props,
                        old(self).props_candidate(c, new_props),
                    )
                    &&& r.0 == (crate::cells::resolved_changed(
                        node.props,
                        old(self).props_candidate(c, new_props),
                    ) || node.kind is ForeachItem)
                })
            }),
    {
        let state_changed = self.state_update_resolved(c, new_state);
        let ghost mid = *self;
        let candidate: Option<Value> = match new_props {
            Option::Some(v) => Option::Some(v),
            Option::None => {
                let pulled = self.eval_binding(c);
                proof {
                    match self.node_of(c).props.binding {
                        Some(b) => {
                            assert(self.node_ok(self.node_of(c)));
                            if self.live(b.producer) {
                                lemma_eval_pull_refs_ok(
                                    b.f,
                                    self.props_of(b.producer),
                                    self.state_of(b.producer),
                                    self.comp_lists@.len() as int,
                                    self.value_lists@.len() as int,
                                );
                            }
                        },
                        None => {},
                    }
                    if old(self).props_candidate_stable(c, Option::None::<Value>) {
                        match old(self).node_of(c).props.binding {
                            Some(b) => {
                                assert(b.producer != c);
                                assert(mid.components@[b.producer as int] == old(
                                    self,
                                ).components@[b.producer as int]);
                                assert(mid.binding_pull_spec(c) == old(self).binding_pull_spec(c));
                            },
                            None => {},
                        }
                    }
                }
                pulled
            },
        };
        let props_changed_cell = self.props_update_resolved(c, candidate);
        let props_changed = props_changed_cell || self.kind_is_foreach_item(c);
        if !self.get_inserted(c) {
            // The insertion hook: no built-in kind reacts to it.
            self.set_inserted(c, true);
        }
        (props_changed, state_changed)
    }

    /// The props/state update algorithm.
    ///
    /// A call with no fuel, or a call on a node already mid-update, reports
    /// no change and does nothing. An invisible node applies explicit values
    /// only, runs its removal hook (which no built-in kind reacts to) and
    /// reports no change. Otherwise both cells take their update step, the
    /// node counts as inserted, and — when anything changed or the node has
    /// never rendered — the kind's update hook runs and every live dependent
    /// is updated in turn (dead edges are pruned), enqueueing the ones that
    /// changed for rendering.
    pub fn update_component(
        &mut self,
        doc: &mut HtmlDocument,
        c: u32,
        new_props: Option<Value>,
        new_state: Option<Value>,
        fuel: u32,
    ) -> (changed: bool)
        requires
            old(self).wf(),
            old(doc).wf(),
            old(self).doc_ok(*old(doc)),
            old(self).live(c),
            match new_props {
                Some(v) => value_refs_ok(
                    v,
                    old(self).comp_lists@.len() as int,
                    old(self).value_lists@.len() as int,
                ),
                None => true,
            },
            match new_state {
                Some(v) => value_refs_ok(
                    v,
                    old(self).comp_lists@.len() as int,
                    old(self).value_lists@.len() as int,
                ),
                None => true,
            },
        ensures
            final(self).wf(),
            final(doc).wf(),
            final(self).doc_ok(*final(doc)),
            evolves(*old(self), *final(self)),
            old(doc).structure_eq(*final(doc)),
            guarded_cells_stable(*old(self), *final(self)),
            fuel == 0 ==> !changed && sys_same(*old(self), *final(self)) && old(doc).doc_same(
                *final(doc),
            ),
            fuel > 0 && old(self).node_of(c).updating ==> !changed && sys_same(
                *old(self),
                *final(self),
            ) && old(doc).doc_same(*final(doc)),
            fuel > 0 && !old(self).node_of(c).updating && !old(self).visible_spec(c) ==> ({
                let node = old(self).node_of(c);
                let new_node = final(self).node_of(c);
                &&& !changed
                &&& old(doc).doc_same(*final(doc))
                &&& only_component_changed(*old(self), *final(self), c)
                &&& same_node_identity(node, new_node)
                &&& new_node.desc == node.desc
                &&& new_node.nodes == node.nodes
                &&& new_node.rc == node.rc
                &&& !new_node.inserted
                &&& new_node.updating == node.updating
                &&& new_node.props == node.props
                &&& new_node.state == node.state
            }),
            fuel > 0 && !old(self).node_of(c).updating && old(self).visible_spec(c) ==> ({
                let node = old(self).node_of(c);
                let new_node = final(self).node_of(c);
                &&& final(self).live(c)
                &&& new_node.state.cell.value == crate::cells::resolved_value(
                    node.state.cell,
                    new_state,
                )
                &&& new_node.inserted
                &&& !new_node.updating
                &&& new_node.binding_cell == node.binding_cell
                &&& new_node.children == node.children
                &&& new_node.props.binding == node.props.binding
                &&& (old(self).props_candidate_stable(c, new_props) ==> {
                    &&& new_node.props.value == crate::cells::resolved_value(
                        node.props,
                        old(self).props_candidate(c, new_props),
                    )
                    &&& changed == old(self).update_changed_spec(c, new_props, new_state)
                })
            }),
            (fuel >= 2 && !old(self).node_of(c).updating && old(self).visible_spec(c)
                && old(self).node_of(c).kind is Plain
                && old(self).props_candidate_stable(c, new_props)
                && old(self).update_changed_spec(c, new_props, new_state)
                && old(self).all_desc_dead(c)) ==> final(self).node_of(c).desc@.len() == 0,
            forall|td: crate::component::TextData|
                (fuel >= 2 && !old(self).node_of(c).updating && old(self).visible_spec(c)
                    && old(self).node_of(c).kind == ComponentKind::Text(td)
                    && old(self).node_of(c).desc@.len() == 0
                    && old(self).props_candidate_stable(c, new_props)
                    && old(self).update_changed_spec(c, new_props, new_state)
                    && #[trigger] trigger_text(td)) ==> (match crate::cells::resolved_value(
                    old(self).node_of(c).props,
                    old(self).props_candidate(c, new_props),
                ) {
                    Value::TextProps(t) => final(doc).nodes@ == old(doc).nodes@.update(
                        td.dom_node.0 as int,
                        crate::html::DomNode {
                            text: t.text_content,
                            ..old(doc).nodes@[td.dom_node.0 as int]
                        },
                    ) && final(doc).op_log() == old(doc).op_log().push(
                        crate::html::SurfaceOp::SetText {
                            node: td.dom_node.0,
                            text: t.text_content,
                        },
                    ),
                    _ => old(doc).doc_same(*final(doc)),
                }),
            forall|d0: HtmlData|
                (fuel >= 2 && !old(self).node_of(c).updating && old(self).visible_spec(c)
                    && old(self).node_of(c).kind == ComponentKind::Html(d0) && d0.config
                    == HtmlConfig::Plain && old(self).node_of(c).desc@.len() == 0
                    && old(self).props_candidate_stable(c, new_props)
                    && old(self).update_changed_spec(c, new_props, new_state)
                    && #[trigger] trigger_element(d0)) ==> (match crate::cells::resolved_value(
                    old(self).node_of(c).props,
                    old(self).props_candidate(c, new_props),
                ) {
                    Value::Html(h) => ({
                        let e = d0.dom_node.0;
                        let n0 = old(doc).nodes@[e as int];
                        let n1 = final(doc).nodes@[e as int];
                        let style_unchanged = match h.style {
                            Option::Some(s) => crate::values::style_eq_spec(s, d0.saved_style),
                            Option::None => false,
                        };
                        &&& old(doc).same_nodes_except(*final(doc), e as usize)
                        &&& n1.id_attr == h.id
                        &&& n1.class_attr == (match h.class {
                            Option::Some(cl) => Option::Some(cl),
                            Option::None => h.class_name,
                        })
                        &&& n1.style == (if style_unchanged {
                            n0.style
                        } else {
                            match h.style {
                                Option::Some(s) => s,
                                Option::None => crate::values::HtmlStyle {
                                    color: Option::None,
                                    background: Option::None,
                                    border: Option::None,
                                    cursor: Option::None,
                                    font_size: Option::None,
                                },
                            }
                        })
                        &&& n1.text == n0.text
                        &&& n1.href_attr == n0.href_attr
                        &&& n1.target_attr == n0.target_attr
                        &&& n1.value_prop == n0.value_prop
                    }),
                    _ => old(doc).doc_same(*final(doc)),
                }),
            (fuel >= 2 && !old(self).node_of(c).updating && old(self).visible_spec(c)
                && old(self).node_of(c).kind is Cond && old(self).node_of(c).desc@.len() == 0
                && old(self).props_candidate_stable(c, new_props) && old(self).update_changed_spec(
                c,
                new_props,
                new_state,
            )) ==> ({
                let vp = crate::cells::resolved_value(
                    old(self).node_of(c).props,
                    old(self).props_candidate(c, new_props),
                );
                let vs = crate::cells::resolved_value(old(self).node_of(c).state.cell, new_state);
                old(doc).doc_same(*final(doc)) && (match (vp, vs) {
                    (Value::Bool(cond), Value::CondState(st)) => {
                        if cond && st.visible_children != st.if_children {
                            final(self).node_of(c).state.next_value == Some(
                                Value::CondState(
                                    IfState {
                                        if_children: st.if_children,
                                        else_children: st.else_children,
                                        visible_children: st.if_children,
                                    },
                                ),
                            )
                        } else if !cond && st.visible_children != st.else_children {
                            final(self).node_of(c).state.next_value == Some(
                                Value::CondState(
                                    IfState {
                                        if_children: st.if_children,
                                        else_children: st.else_children,
                                        visible_children: st.else_children,
                                    },
                                ),
                            )
                        } else {
                            final(self).node_of(c).state.next_value == old(self).node_of(
                                c,
                            ).state.next_value
                        }
                    },
                    _ => final(self).node_of(c).state.next_value == old(self).node_of(
                        c,
                    ).state.next_value,
                })
            }),
            forall|fd: crate::component::ForeachData|
                (fuel >= 2 && !old(self).node_of(c).updating && old(self).visible_spec(c)
                    && old(self).node_of(c).kind == ComponentKind::Foreach(fd)
                    && old(self).node_of(c).desc@.len() == 0
                    && old(self).props_candidate_stable(c, new_props)
                    && old(self).update_changed_spec(c, new_props, new_state)
                    && #[trigger] trigger_foreach(fd)) ==> old(doc).doc_same(*final(doc)) && (
                match crate::cells::resolved_value(
                    old(self).node_of(c).props,
                    old(self).props_candidate(c, new_props),
                ) {
                    Value::Foreach(fp) => final(self).value_list_of(fd.items) == old(
                        self,
                    ).value_list_of(fp.items),
                    _ => final(self).value_lists@ == old(self).value_lists@,
                }),
            (fuel >= 2 && !old(self).node_of(c).updating && old(self).visible_spec(c)
                && old(self).node_of(c).kind is Plain
                && old(self).node_of(c).desc@.len() == 0) ==> ({
                let node = old(self).node_of(c);
                let new_node = final(self).node_of(c);
                &&& only_component_changed(*old(self), *final(self), c)
                &&& old(doc).doc_same(*final(doc))
                &&& new_node.nodes == node.nodes
                &&& new_node.rc == node.rc
                &&& new_node.children == node.children
                &&& new_node.kind == node.kind
                &&& new_node.dom_parent == node.dom_parent
            }),
            forall|k2: u32, f2: PullFn|
                (fuel >= 3 && !old(self).node_of(c).updating && old(self).visible_spec(c)
                    && old(self).node_of(c).kind is Plain
                    && old(self).props_candidate_stable(c, new_props)
                    && old(self).update_changed_spec(c, new_props, new_state)
                    && old(self).single_consumer(c, k2, f2)
                    && #[trigger] trigger_consumer(k2, f2)) ==> final(self).live(k2)
                    && final(self).props_of(k2) == crate::cells::resolved_value(
                    old(self).node_of(k2).props,
                    eval_pull_spec(
                        f2,
                        crate::cells::resolved_value(
                            old(self).node_of(c).props,
                            old(self).props_candidate(c, new_props),
                        ),
                        crate::cells::resolved_value(old(self).node_of(c).state.cell, new_state),
                    ),
                ),
            fuel > 0 && !old(self).node_of(c).updating && old(self).visible_spec(c) && old(
                self,
            ).props_candidate_stable(c, new_props) && !old(self).update_changed_spec(
                c,
                new_props,
                new_state,
            ) ==> ({
                let node = old(self).node_of(c);
                let new_node = final(self).node_of(c);
                &&& old(doc).doc_same(*final(doc))
                &&& only_component_changed(*old(self), *final(self), c)
                &&& new_node.desc == node.desc
                &&& new_node.nodes == node.nodes
                &&& new_node.rc == node.rc
                &&& new_node.kind == node.kind
                &&& new_node.dom_parent == node.dom_parent
            }),
        decreases fuel,
    {
        if fuel == 0 {
            return false;
        }
        if self.get_updating(c) {
            return false;
        }
        self.set_updating(c, true);
        let ghost s_guarded = *self;
        if !self.any_visible(c) {
            // An invisible node applies no new values and never recomputes
            // derived content.
            if self.get_inserted(c) {
                // The removal hook: no built-in kind reacts to it.
                self.set_inserted(c, false);
            }
            self.set_updating(c, false);
            proof {
                lemma_guarded_from_confined(*old(self), *self, c);
                lemma_evolves_from_only(*old(self), *self, c);
            }
            return false;
        }
        let prev_props = self.props_value(c);
        let prev_state = self.state_value(c);
        proof {
            assert(s_guarded.props_candidate_stable(c, new_props) == old(
                self,
            ).props_candidate_stable(c, new_props));
            assert(s_guarded.binding_pull_spec(c) == old(self).binding_pull_spec(c));
            assert(s_guarded.props_candidate(c, new_props) == old(self).props_candidate(
                c,
                new_props,
            ));
        }
        let (props_changed, state_changed) = self.update_pass_cells(c, new_props, new_state);
        let ghost s_cells = *self;
        let rc0 = self.get_rc(c);
        if props_changed || state_changed || rc0 == 0 {
            self.on_updated_impl(doc, c, prev_props, prev_state, fuel - 1);
            let ghost s_hook = *self;
            let ghost s_hook_doc = *doc;
            proof {
                if old(self).node_of(c).kind is Plain {
                    assert(sys_same(s_cells, s_hook));
                    assert forall|j: int|
                        0 <= j < old(self).n() && j != c as int implies s_hook.components@[j]
                        == old(self).components@[j] by {
                        assert(s_guarded.components@[j] == old(self).components@[j]);
                        assert(s_cells.components@[j] == s_guarded.components@[j]);
                    }
                    if old(self).all_desc_dead(c) {
                        assert(s_hook.all_desc_dead(c)) by {
                            assert forall|i: int|
                                0 <= i < s_hook.node_of(c).desc@.len() implies ({
                                let cell = #[trigger] s_hook.node_of(c).desc@[i];
                                match s_hook.binding_cells@[cell as int] {
                                    Option::None => true,
                                    Option::Some(kx) => !s_hook.live(kx),
                                }
                            }) by {
                                assert(s_hook.node_of(c).desc@ == old(self).node_of(c).desc@);
                                assert(s_hook.binding_cells@ == old(self).binding_cells@);
                                let cell = s_hook.node_of(c).desc@[i];
                                match old(self).binding_cells@[cell as int] {
                                    Option::None => {},
                                    Option::Some(kx) => {
                                        assert(!old(self).live(kx));
                                        if kx != c {
                                            assert(s_hook.components@[kx as int] == old(
                                                self,
                                            ).components@[kx as int]);
                                        }
                                    },
                                }
                            }
                        }
                    }
                    assert forall|k2: u32, f2: PullFn|
                        old(self).single_consumer(c, k2, f2) && #[trigger] trigger_consumer(
                        k2,
                        f2,
                    ) implies s_hook.single_consumer(c, k2, f2) && s_hook.node_of(k2).props == old(
                        self,
                    ).node_of(k2).props by {
                        assert(k2 != c);
                        assert(s_hook.components@[k2 as int] == old(self).components@[k2 as int]);
                        assert(s_hook.node_of(c).desc@ == old(self).node_of(c).desc@);
                        assert(s_hook.binding_cells@ == old(self).binding_cells@);
                        assert(s_hook.vis_cells@ == old(self).vis_cells@);
                    }
                }
            }
            self.propagate_desc(doc, c, fuel - 1);
            let ghost s_prop = *self;
            let ghost s_prop_doc = *doc;
            self.set_updating(c, false);
            proof {
                // the cell phase is confined to this component
                assert(s_cells.n() == old(self).n());
                assert forall|j: int|
                    0 <= j < old(self).n() && j != c as int implies s_cells.components@[j] == old(
                    self,
                ).components@[j] by {
                    assert(s_guarded.components@[j] == old(self).components@[j]);
                }
                lemma_guarded_from_confined(*old(self), s_cells, c);
                lemma_guarded_trans(*old(self), s_cells, s_hook);
                lemma_guarded_trans(*old(self), s_hook, s_prop);
                // the final guard release touches only this (originally
                // unguarded) component
                assert(guarded_cells_stable(*old(self), *self)) by {
                    assert forall|j: int|
                        0 <= j < old(self).n() && old(self).components@[j] is Some && old(
                        self,
                    ).components@[j]->0.updating implies {
                        &&& (#[trigger] self.components@[j]) is Some
                        &&& self.components@[j]->0.props == old(self).components@[j]->0.props
                        &&& self.components@[j]->0.state.cell == old(
                            self,
                        ).components@[j]->0.state.cell
                        &&& self.components@[j]->0.updating
                        &&& self.components@[j]->0.inserted == old(
                            self,
                        ).components@[j]->0.inserted
                        &&& self.components@[j]->0.binding_cell == old(
                            self,
                        ).components@[j]->0.binding_cell
                        &&& self.components@[j]->0.children == old(
                            self,
                        ).components@[j]->0.children
                    } by {
                        assert(j != c as int);
                        assert(self.components@[j] == s_prop.components@[j]);
                    }
                }
                // evolution composes across the phases
                lemma_evolves_from_only(*old(self), s_guarded, c);
                lemma_evolves_from_only(s_guarded, s_cells, c);
                lemma_evolves_trans(*old(self), s_guarded, s_cells);
                lemma_evolves_trans(*old(self), s_cells, s_hook);
                lemma_evolves_trans(*old(self), s_hook, s_prop);
                lemma_evolves_from_only(s_prop, *self, c);
                lemma_evolves_trans(*old(self), s_prop, *self);
                // the document is touched by the hook and the propagation only
                assert(old(doc).structure_eq(s_hook_doc));
                crate::html::structure_eq_trans(*old(doc), s_hook_doc, s_prop_doc);
                assert(s_prop_doc.structure_eq(*doc));
                crate::html::structure_eq_trans(*old(doc), s_prop_doc, *doc);
                // the subject's cells survive the hook and the propagation
                assert(s_hook.node_of(c).props == s_cells.node_of(c).props);
                assert(s_hook.node_of(c).state.cell == s_cells.node_of(c).state.cell);
                assert(s_hook.node_of(c).updating);
                assert(s_prop.node_of(c).props == s_hook.node_of(c).props);
                assert(s_prop.node_of(c).state.cell == s_hook.node_of(c).state.cell);
                assert(s_prop.node_of(c).inserted == s_hook.node_of(c).inserted);
                assert(s_prop.node_of(c).binding_cell == s_hook.node_of(c).binding_cell);
                assert(s_prop.node_of(c).children == s_hook.node_of(c).children);
                assert(self.node_of(c).props == s_prop.node_of(c).props);
                assert(self.node_of(c).state.cell == s_prop.node_of(c).state.cell);
                if fuel >= 2 && old(self).node_of(c).desc@.len() == 0 && !(old(self).node_of(
                    c,
                ).kind is Slot) {
                    // the hook left the dependent list alone, so the
                    // propagation phase found every edge dead (there were
                    // none) and touched nothing
                    assert(s_hook.node_of(c).desc@ == old(self).node_of(c).desc@);
                    assert(s_hook.all_desc_dead(c));
                    assert(s_hook_doc.doc_same(s_prop_doc));
                    assert(s_cells.node_of(c).kind == old(self).node_of(c).kind);
                    assert(s_cells.props_of(c) == crate::cells::resolved_value(
                        old(self).node_of(c).props,
                        old(self).props_candidate(c, new_props),
                    ) || !old(self).props_candidate_stable(c, new_props));
                }
                if old(self).node_of(c).kind is Plain && old(self).node_of(c).desc@.len()
                    == 0 && fuel >= 2 {
                    assert(s_hook.all_desc_dead(c)) by {
                        assert(s_hook.node_of(c).desc@ == old(self).node_of(c).desc@);
                    }
                    assert(only_component_changed(*old(self), *final(self), c)) by {
                        assert(sys_same(s_cells, s_hook));
                        assert(only_component_changed(s_hook, s_prop, c));
                        assert forall|j: int|
                            0 <= j < old(self).n() && j != c as int implies self.components@[j]
                            == old(self).components@[j] by {
                            assert(s_guarded.components@[j] == old(self).components@[j]);
                            assert(s_cells.components@[j] == s_guarded.components@[j]);
                            assert(s_hook.components@[j] == s_cells.components@[j]);
                            assert(s_prop.components@[j] == s_hook.components@[j]);
                            assert(self.components@[j] == s_prop.components@[j]);
                        }
                    }
                    assert(self.node_of(c).nodes == old(self).node_of(c).nodes);
                    assert(self.node_of(c).rc == old(self).node_of(c).rc);
                }
                if old(self).node_of(c).kind is Plain && old(self).props_candidate_stable(
                    c,
                    new_props,
                ) {
                    if fuel >= 2 && old(self).all_desc_dead(c) {
                        assert(self.node_of(c).desc@.len() == 0) by {
                            assert(s_prop.node_of(c).desc@.len() == 0);
                        }
                    }
                    assert forall|k2: u32, f2: PullFn|
                        fuel >= 3 && old(self).single_consumer(c, k2, f2)
                            && #[trigger] trigger_consumer(k2, f2) implies self.live(k2)
                        && self.props_of(k2) == crate::cells::resolved_value(
                        old(self).node_of(k2).props,
                        eval_pull_spec(
                            f2,
                            crate::cells::resolved_value(
                                old(self).node_of(c).props,
                                old(self).props_candidate(c, new_props),
                            ),
                            crate::cells::resolved_value(
                                old(self).node_of(c).state.cell,
                                new_state,
                            ),
                        ),
                    ) by {
                        assert(s_hook.single_consumer(c, k2, f2));
                        assert(s_hook.props_of(c) == crate::cells::resolved_value(
                            old(self).node_of(c).props,
                            old(self).props_candidate(c, new_props),
                        ));
                        assert(s_hook.state_of(c) == crate::cells::resolved_value(
                            old(self).node_of(c).state.cell,
                            new_state,
                        ));
                        assert(s_prop.live(k2) && s_prop.props_of(k2)
                            == crate::cells::resolved_value(
                            s_hook.node_of(k2).props,
                            eval_pull_spec(f2, s_hook.props_of(c), s_hook.state_of(c)),
                        ));
                        assert(k2 != c);
                        assert(self.components@[k2 as int] == s_prop.components@[k2 as int]);
                    }
                }
            }
            return true;
        }
        self.set_updating(c, false);
        proof {
            assert(self.n() == old(self).n());
            assert forall|j: int|
                0 <= j < old(self).n() && j != c as int implies self.components@[j] == old(
                self,
            ).components@[j] by {
                assert(s_guarded.components@[j] == old(self).components@[j]);
                assert(s_cells.components@[j] == s_guarded.components@[j]);
            }
            lemma_guarded_from_confined(*old(self), *self, c);
            lemma_evolves_from_only(*old(self), s_guarded, c);
            lemma_evolves_from_only(s_guarded, s_cells, c);
            lemma_evolves_trans(*old(self), s_guarded, s_cells);
            lemma_evolves_from_only(s_cells, *self, c);
            lemma_evolves_trans(*old(self), s_cells, *self);
        }
        return false;
    }

    /// Every dependent edge of the component is dead: its cell was
    /// invalidated, or its consumer no longer resolves.
    pub open spec fn all_desc_dead(self, c: u32) -> bool {
        forall|i: int|
            0 <= i < self.node_of(c).desc@.len() ==> ({
                let cell = #[trigger] self.node_of(c).desc@[i];
                match self.binding_cells@[cell as int] {
                    Option::None => true,
                    Option::Some(k) => !self.live(k),
                }
            })
    }

    /// The component has exactly one dependent edge, alive and simple: its
    /// consumer `k` resolves, is not the component itself, is visible, is not
    /// mid-update, and pulls from the component through `f`.
    pub open spec fn single_consumer(self, c: u32, k: u32, f: PullFn) -> bool {
        &&& self.node_of(c).desc@.len() == 1
        &&& (self.node_of(c).desc@[0] as int) < self.binding_cells@.len()
        &&& self.binding_cells@[self.node_of(c).desc@[0] as int] == Some(k)
        &&& self.live(k)
        &&& k != c
        &&& !self.node_of(k).updating
        &&& self.visible_spec(k)
        &&& self.node_of(k).props.binding == Some(Binding { producer: c, f })
    }

    /// The configuration of the frame-level binding-propagation law: the
    /// only scheduled callback is a state drain for a plain, visible,
    /// unbound producer holding a pending value that its pass will report as
    /// a change, and the producer has exactly one live simple consumer.
    pub open spec fn single_drain_case(self, p: u32, k: u32, f: PullFn, v: Value, fuel: u32)
        -> bool {
        &&& fuel >= 3
        &&& self.frame_tasks@.len() == 1
        &&& self.frame_tasks@[0] == FrameTask::StateDrain(p)
        &&& self.live(p)
        &&& self.node_of(p).state.next_value == Some(v)
        &&& !self.node_of(p).updating
        &&& self.visible_spec(p)
        &&& self.node_of(p).kind is Plain
        &&& self.node_of(p).props.binding is None
        &&& self.update_changed_spec(p, Option::None, Option::Some(v))
        &&& self.single_consumer(p, k, f)
    }

    /// The propagation phase of an update pass: take the dependent-cell
    /// list, update every cell's consumer that still resolves (pruning the
    /// dead cells), enqueue the consumers that changed, and store the pruned
    /// list.
    fn propagate_desc(&mut self, doc: &mut HtmlDocument, c: u32, fuel: u32)
        requires
            old(self).wf(),
            old(doc).wf(),
            old(self).doc_ok(*old(doc)),
            old(self).live(c),
            old(self).node_of(c).updating,
        ensures
            final(self).wf(),
            final(doc).wf(),
            final(self).doc_ok(*final(doc)),
            evolves(*old(self), *final(self)),
            old(doc).structure_eq(*final(doc)),
            guarded_cells_stable(*old(self), *final(self)),
            final(self).live(c),
            fuel > 0 && old(self).all_desc_dead(c) ==> ({
                let node = old(self).node_of(c);
                let new_node = final(self).node_of(c);
                &&& new_node.desc@.len() == 0
                &&& old(doc).doc_same(*final(doc))
                &&& only_component_changed(*old(self), *final(self), c)
                &&& same_node_identity(node, new_node)
                &&& new_node.props == node.props
                &&& new_node.state == node.state
                &&& new_node.nodes == node.nodes
                &&& new_node.rc == node.rc
                &&& new_node.updating == node.updating
                &&& new_node.inserted == node.inserted
            }),
            forall|k: u32, f: PullFn|
                fuel >= 2 && old(self).single_consumer(c, k, f) && #[trigger] trigger_consumer(
                    k,
                    f,
                ) ==> final(self).live(k) && final(self).props_of(k)
                    == crate::cells::resolved_value(
                    old(self).node_of(k).props,
                    eval_pull_spec(f, old(self).props_of(c), old(self).state_of(c)),
                ),
        decreases fuel,
    {
        if fuel == 0 {
            return ;
        }
        let desc = self.take_desc(c);
        let ghost pre_loop = *self;
        let ghost pre_loop_doc = *doc;
        let mut new_desc: Vec<u32> = Vec::new();
        let mut k: usize = 0;
        while k < desc.len()
            invariant
                self.wf(),
                doc.wf(),
                self.doc_ok(*doc),
                pre_loop.wf(),
                evolves(pre_loop, *self),
                guarded_cells_stable(pre_loop, *self),
                pre_loop_doc.structure_eq(*doc),
                pre_loop.live(c),
                pre_loop.node_of(c).updating,
                old(self).wf(),
                old(self).live(c),
                desc@ == old(self).node_of(c).desc@,
                pre_loop.components@ == old(self).components@.update(
                    c as int,
                    pre_loop.components@[c as int],
                ),
                pre_loop.components@[c as int] is Some,
                pre_loop.node_of(c).props == old(self).node_of(c).props,
                pre_loop.node_of(c).state.cell == old(self).node_of(c).state.cell,
                pre_loop.binding_cells@ == old(self).binding_cells@,
                pre_loop.vis_cells@ == old(self).vis_cells@,
                forall|j: int|
                    0 <= j < desc@.len() ==> ((#[trigger] desc@[j]) as int)
                        < pre_loop.binding_cells@.len(),
                pre_loop.binding_cells@.len() <= self.binding_cells@.len(),
                forall|j: int|
                    0 <= j < new_desc@.len() ==> ((#[trigger] new_desc@[j]) as int)
                        < self.binding_cells@.len(),
                k <= desc@.len(),
                fuel >= 1,
                old(self).all_desc_dead(c) ==> ({
                    &&& new_desc@.len() == 0
                    &&& self.components@ == pre_loop.components@
                    &&& self.binding_cells@ == pre_loop.binding_cells@
                    &&& self.vis_cells@ == pre_loop.vis_cells@
                    &&& self.comp_lists@ == pre_loop.comp_lists@
                    &&& self.value_lists@ == pre_loop.value_lists@
                    &&& self.render_queue@ == pre_loop.render_queue@
                    &&& self.render_queue_frame == pre_loop.render_queue_frame
                    &&& self.frame_tasks@ == pre_loop.frame_tasks@
                    &&& self.dom_roots@ == pre_loop.dom_roots@
                    &&& self.frame_counter == pre_loop.frame_counter
                    &&& self.callback_counter == pre_loop.callback_counter
                    &&& pre_loop_doc.doc_same(*doc)
                }),
                forall|kk: u32, ff: PullFn|
                    fuel >= 2 && old(self).single_consumer(c, kk, ff) && #[trigger]
                    trigger_consumer(kk, ff) ==> (if k == 0 {
                        self.components@ == pre_loop.components@ && self.binding_cells@
                            == pre_loop.binding_cells@ && self.vis_cells@ == pre_loop.vis_cells@
                    } else {
                        self.live(kk) && self.props_of(kk) == crate::cells::resolved_value(
                            old(self).node_of(kk).props,
                            eval_pull_spec(ff, old(self).props_of(c), old(self).state_of(c)),
                        )
                    }),
            decreases desc@.len() - k,
        {
            let cell = desc[k];
            let consumer = self.read_binding_cell(cell);
            match consumer {
                Option::Some(kid) => {
                    if self.is_live(kid) {
                        let ghost pre_call = *self;
                        let ghost pre_call_doc = *doc;
                        proof {
                            if old(self).all_desc_dead(c) {
                                assert(old(self).node_of(c).desc@[k as int] == cell);
                                assert(pre_call.binding_cells@ == pre_loop.binding_cells@);
                                assert(pre_call.binding_cells@[cell as int] == old(
                                    self,
                                ).binding_cells@[cell as int]);
                                assert(!old(self).live(kid));
                                assert(kid != c);
                                assert(pre_call.components@ == pre_loop.components@);
                                assert(pre_call.components@[kid as int] == old(
                                    self,
                                ).components@[kid as int]);
                                assert(false);
                            }
                        }
                        let ch = self.update_component(
                            doc,
                            kid,
                            Option::None,
                            Option::None,
                            fuel - 1,
                        );
                        proof {
                            lemma_evolves_trans(pre_loop, pre_call, *self);
                            lemma_guarded_trans(pre_loop, pre_call, *self);
                            crate::html::structure_eq_trans(pre_loop_doc, pre_call_doc, *doc);
                            assert forall|kk: u32, ff: PullFn|
                                fuel >= 2 && old(self).single_consumer(c, kk, ff)
                                    && #[trigger] trigger_consumer(kk, ff) implies self.live(kk)
                                && self.props_of(kk) == crate::cells::resolved_value(
                                old(self).node_of(kk).props,
                                eval_pull_spec(ff, old(self).props_of(c), old(self).state_of(c)),
                            ) by {
                                assert(k == 0);
                                assert(cell == old(self).node_of(c).desc@[0]);
                                assert(pre_call.components@ == pre_loop.components@);
                                assert(pre_call.binding_cells@ == pre_loop.binding_cells@);
                                assert(pre_call.binding_cells@[cell as int] == old(
                                    self,
                                ).binding_cells@[cell as int]);
                                assert(kid == kk);
                                assert(kk != c);
                                assert(pre_loop.components@[kk as int] == old(
                                    self,
                                ).components@[kk as int]);
                                assert(pre_call.components@[kk as int] == old(
                                    self,
                                ).components@[kk as int]);
                                assert(pre_call.node_of(kk).props.binding == Some(
                                    Binding { producer: c, f: ff },
                                ));
                                assert(!pre_call.node_of(kk).updating);
                                assert(pre_call.visible_spec(kk) == old(self).visible_spec(kk));
                                assert(pre_call.props_candidate_stable(kk, Option::None::<Value>));
                                assert(pre_call.live(c)) by {
                                    assert(pre_call.components@[c as int]
                                        == pre_loop.components@[c as int]);
                                }
                                assert(pre_call.props_of(c) == old(self).props_of(c)) by {
                                    assert(pre_call.components@[c as int]
                                        == pre_loop.components@[c as int]);
                                }
                                assert(pre_call.state_of(c) == old(self).state_of(c)) by {
                                    assert(pre_call.components@[c as int]
                                        == pre_loop.components@[c as int]);
                                }
                                assert(pre_call.binding_pull_spec(kk) == eval_pull_spec(
                                    ff,
                                    old(self).props_of(c),
                                    old(self).state_of(c),
                                ));
                                assert(self.props_of(kk) == crate::cells::resolved_value(
                                    pre_call.node_of(kk).props,
                                    pre_call.props_candidate(kk, Option::None::<Value>),
                                ));
                            }
                        }
                        if ch {
                            self.request_render(&AnyComponent(kid));
                        }
                        new_desc.push(cell);
                    } else {
                        proof {
                            if k == 0 {
                                assert forall|kk: u32, ff: PullFn|
                                    fuel >= 2 && old(self).single_consumer(c, kk, ff)
                                        && #[trigger] trigger_consumer(kk, ff) implies false by {
                                    assert(cell == old(self).node_of(c).desc@[0]);
                                    assert(self.binding_cells@ == pre_loop.binding_cells@);
                                    assert(self.binding_cells@[cell as int] == old(
                                        self,
                                    ).binding_cells@[cell as int]);
                                    assert(kk != c);
                                    assert(self.components@ == pre_loop.components@);
                                    assert(self.components@[kk as int] == old(
                                        self,
                                    ).components@[kk as int]);
                                }
                            }
                        }
                    }
                },
                Option::None => {
                    proof {
                        if k == 0 {
                            assert forall|kk: u32, ff: PullFn|
                                fuel >= 2 && old(self).single_consumer(c, kk, ff)
                                    && #[trigger] trigger_consumer(kk, ff) implies false by {
                                assert(cell == old(self).node_of(c).desc@[0]);
                                assert(self.binding_cells@ == pre_loop.binding_cells@);
                                assert(self.binding_cells@[cell as int] == old(
                                    self,
                                ).binding_cells@[cell as int]);
                            }
                        }
                    }
                },
            }
            k = k + 1;
        }
        proof {
            assert(self.live(c)) by {
                assert(pre_loop.components@[c as int] is Some);
            }
        }
        let ghost s_loop = *self;
        self.put_desc(c, new_desc);
        proof {
            lemma_evolves_trans(*old(self), pre_loop, s_loop);
            lemma_evolves_from_only(s_loop, *self, c);
            lemma_evolves_trans(*old(self), s_loop, *self);
            crate::html::structure_eq_trans(*old(doc), pre_loop_doc, *doc);
            lemma_guarded_from_confined(s_loop, *self, c);
            lemma_guarded_trans(*old(self), pre_loop, s_loop);
            lemma_guarded_trans(*old(self), s_loop, *self);
            assert forall|kk: u32, ff: PullFn|
                fuel >= 2 && old(self).single_consumer(c, kk, ff) && #[trigger] trigger_consumer(
                kk,
                ff,
            ) implies self.live(kk) && self.props_of(kk) == crate::cells::resolved_value(
                old(self).node_of(kk).props,
                eval_pull_spec(ff, old(self).props_of(c), old(self).state_of(c)),
            ) by {
                assert(kk != c);
                assert(desc@.len() == 1);
                assert(s_loop.components@[kk as int] == self.components@[kk as int]);
            }
        }
    }

    /// Whether the component is a list item.
    fn kind_is_foreach_item(&self, c: u32) -> (r: bool)
        requires
            self.live(c),
        ensures
            r == (self.node_of(c).kind is ForeachItem),
    {
        match &self.components[c as usize] {
            Option::Some(node) => match node.kind {
                ComponentKind::ForeachItem => true,
                _ => false,
            },
            Option::None => {
                proof {
                    assert(false);
                }
                false
            },
        }
    }

    /// Run the kind's update hook.
    fn on_updated_impl(
        &mut self,
        doc: &mut HtmlDocument,
        c: u32,
        prev_props: Value,
        _prev_state: Value,
        fuel: u32,
    )
        requires
            old(self).wf(),
            old(doc).wf(),
            old(self).doc_ok(*old(doc)),
            old(self).live(c),
            old(self).node_of(c).updating,
        ensures
            final(self).wf(),
            final(doc).wf(),
            final(self).doc_ok(*final(doc)),
            evolves(*old(self), *final(self)),
            old(doc).structure_eq(*final(doc)),
            guarded_cells_stable(*old(self), *final(self)),
            final(self).live(c),
            final(self).props_of(c) == old(self).props_of(c),
            final(self).state_of(c) == old(self).state_of(c),
            final(self).node_of(c).props == old(self).node_of(c).props,
            final(self).node_of(c).state.cell == old(self).node_of(c).state.cell,
            final(self).node_of(c).updating == old(self).node_of(c).updating,
            final(self).node_of(c).inserted == old(self).node_of(c).inserted,
            final(self).node_of(c).binding_cell == old(self).node_of(c).binding_cell,
            final(self).node_of(c).children == old(self).node_of(c).children,
            (old(self).node_of(c).kind is Plain || old(self).node_of(c).kind is ForeachItem)
                ==> sys_same(*old(self), *final(self)) && old(doc).doc_same(*final(doc)),
            (fuel > 0 && old(self).node_of(c).kind is Text) ==> sys_same(*old(self), *final(self))
                && (match (old(self).props_of(c), old(self).node_of(c).kind) {
                (Value::TextProps(t), ComponentKind::Text(td)) => final(doc).nodes@ == old(
                    doc,
                ).nodes@.update(
                    td.dom_node.0 as int,
                    crate::html::DomNode {
                        text: t.text_content,
                        ..old(doc).nodes@[td.dom_node.0 as int]
                    },
                ) && final(doc).op_log() == old(doc).op_log().push(
                    crate::html::SurfaceOp::SetText { node: td.dom_node.0, text: t.text_content },
                ),
                _ => old(doc).doc_same(*final(doc)),
            }),
            forall|d0: HtmlData|
                (fuel > 0 && old(self).node_of(c).kind == ComponentKind::Html(d0) && d0.config
                    == HtmlConfig::Plain && #[trigger] trigger_element(d0)) ==> (match old(
                    self,
                ).props_of(c) {
                    Value::Html(h) => ({
                        let e = d0.dom_node.0;
                        let n0 = old(doc).nodes@[e as int];
                        let n1 = final(doc).nodes@[e as int];
                        let style_unchanged = match h.style {
                            Option::Some(s) => crate::values::style_eq_spec(s, d0.saved_style),
                            Option::None => false,
                        };
                        &&& old(doc).same_nodes_except(*final(doc), e as usize)
                        &&& n1.id_attr == h.id
                        &&& n1.class_attr == (match h.class {
                            Option::Some(cl) => Option::Some(cl),
                            Option::None => h.class_name,
                        })
                        &&& n1.listeners.click == (if h.on_click.id
                            != d0.attached_events.click.id {
                            h.on_click
                        } else {
                            n0.listeners.click
                        })
                        &&& n1.listeners.input == (if h.on_input.id
                            != d0.attached_events.input.id {
                            h.on_input
                        } else {
                            n0.listeners.input
                        })
                        &&& n1.listeners.change == (if h.on_change.id
                            != d0.attached_events.change.id {
                            h.on_change
                        } else {
                            n0.listeners.change
                        })
                        &&& n1.style == (if style_unchanged {
                            n0.style
                        } else {
                            match h.style {
                                Option::Some(s) => s,
                                Option::None => crate::values::HtmlStyle {
                                    color: Option::None,
                                    background: Option::None,
                                    border: Option::None,
                                    cursor: Option::None,
                                    font_size: Option::None,
                                },
                            }
                        })
                        &&& n1.text == n0.text
                        &&& n1.href_attr == n0.href_attr
                        &&& n1.target_attr == n0.target_attr
                        &&& n1.value_prop == n0.value_prop
                    }),
                    _ => sys_same(*old(self), *final(self)) && old(doc).doc_same(*final(doc)),
                }),
            (fuel > 0 && old(self).node_of(c).kind is Cond) ==> old(doc).doc_same(*final(doc))
                && (match (old(self).props_of(c), old(self).state_of(c)) {
                (Value::Bool(cond), Value::CondState(st)) => {
                    if cond && st.visible_children != st.if_children {
                        final(self).node_of(c).state.next_value == Some(
                            Value::CondState(
                                IfState {
                                    if_children: st.if_children,
                                    else_children: st.else_children,
                                    visible_children: st.if_children,
                                },
                            ),
                        )
                    } else if !cond && st.visible_children != st.else_children {
                        final(self).node_of(c).state.next_value == Some(
                            Value::CondState(
                                IfState {
                                    if_children: st.if_children,
                                    else_children: st.else_children,
                                    visible_children: st.else_children,
                                },
                            ),
                        )
                    } else {
                        sys_same(*old(self), *final(self))
                    }
                },
                _ => sys_same(*old(self), *final(self)),
            }),
            (fuel > 0 && old(self).node_of(c).kind is Foreach) ==> old(doc).doc_same(*final(doc))
                && (match (old(self).props_of(c), old(self).node_of(c).kind) {
                (Value::Foreach(fp), ComponentKind::Foreach(fd)) => final(self).value_list_of(
                    fd.items,
                ) == old(self).value_list_of(fp.items),
                _ => sys_same(*old(self), *final(self)),
            }),
            !(old(self).node_of(c).kind is Slot) ==> ({
                let node = old(self).node_of(c);
                let new_node = final(self).node_of(c);
                &&& new_node.desc == node.desc
                &&& new_node.nodes == node.nodes
                &&& new_node.rc == node.rc
                &&& final(self).render_queue@ == old(self).render_queue@
            }),
        decreases fuel,
    {
        if fuel == 0 {
            return ;
        }
        let kind_tag: u8 = match &self.components[c as usize] {
            Option::Some(node) => match &node.kind {
                ComponentKind::Plain => 0,
                ComponentKind::Slot => 1,
                ComponentKind::Cond => 2,
                ComponentKind::Text(_) => 3,
                ComponentKind::Html(h) => match h.config {
                    HtmlConfig::Plain => 4,
                    HtmlConfig::Input => 5,
                    HtmlConfig::Anchor => 6,
                },
                ComponentKind::Foreach(_) => 7,
                ComponentKind::ForeachItem => 8,
            },
            Option::None => {
                proof {
                    assert(false);
                }
                0
            },
        };
        if kind_tag == 1 {
            self.slot_on_updated(doc, c, prev_props, fuel - 1);
        } else if kind_tag == 2 {
            self.on_cond_updated(c);
        } else if kind_tag == 3 {
            self.on_text_updated(doc, c);
        } else if kind_tag == 4 {
            self.on_html_updated(doc, c);
        } else if kind_tag == 5 {
            self.on_html_updated(doc, c);
            let ghost mid = *self;
            let ghost mid_doc = *doc;
            self.on_input_updated(doc, c, &prev_props);
            proof {
                crate::html::structure_eq_trans(*old(doc), mid_doc, *doc);
            }
        } else if kind_tag == 6 {
            self.on_html_updated(doc, c);
            let ghost mid = *self;
            let ghost mid_doc = *doc;
            self.on_anchor_updated(doc, c);
            proof {
                crate::html::structure_eq_trans(*old(doc), mid_doc, *doc);
            }
        } else if kind_tag == 7 {
            self.on_foreach_updated(c);
        }
    }

    /// The slot's update hook: a rebinding to the same list reference is a
    /// no-op; a different reference hides and releases the previously
    /// rendered nodes, resets the cache and re-renders with the new list.
    pub fn slot_on_updated(&mut self, doc: &mut HtmlDocument, c: u32, prev_props: Value, fuel: u32)
        requires
            old(self).wf(),
            old(doc).wf(),
            old(self).doc_ok(*old(doc)),
            old(self).live(c),
            old(self).node_of(c).updating,
        ensures
            final(self).wf(),
            final(doc).wf(),
            final(self).doc_ok(*final(doc)),
            evolves(*old(self), *final(self)),
            old(doc).structure_eq(*final(doc)),
            guarded_cells_stable(*old(self), *final(self)),
            final(self).live(c),
            final(self).props_of(c) == old(self).props_of(c),
            final(self).state_of(c) == old(self).state_of(c),
            final(self).node_of(c).props == old(self).node_of(c).props,
            final(self).node_of(c).state.cell == old(self).node_of(c).state.cell,
            final(self).node_of(c).updating == old(self).node_of(c).updating,
            final(self).node_of(c).inserted == old(self).node_of(c).inserted,
            final(self).node_of(c).binding_cell == old(self).node_of(c).binding_cell,
            final(self).node_of(c).children == old(self).node_of(c).children,
            (match (old(self).props_of(c), prev_props) {
                (Value::Slot(sp), Value::Slot(prev)) => sp.components == prev.components,
                _ => false,
            }) ==> sys_same(*old(self), *final(self)) && old(doc).doc_same(*final(doc)),
            (fuel >= 2 && (match (old(self).props_of(c), prev_props) {
                (Value::Slot(sp), Value::Slot(prev)) => prev.components != sp.components,
                (Value::Slot(_), _) => true,
                _ => false,
            }) && old(self).node_of(c).nodes is Some) ==> ({
                &&& final(self).render_queue@.len() >= 1
                &&& final(self).render_queue@.last() == c
            }),
        decreases fuel,
    {
        if fuel == 0 {
            return ;
        }
        let sp: SlotProps = match self.props_value(c) {
            Value::Slot(sp) => sp,
            _ => {
                return ;
            },
        };
        let same_reference: bool = match &prev_props {
            Value::Slot(prev) => prev.components == sp.components,
            _ => false,
        };
        if same_reference {
            return ;
        }
        let nodes = self.nodes_copy(c);
        match nodes {
            Option::None => {},
            Option::Some(ns) => {
                let ghost entry = *self;
                let ghost entry_doc = *doc;
                let mut k: usize = 0;
                while k < ns.len()
                    invariant
                        self.wf(),
                        entry.wf(),
                        evolves(entry, *self),
                        guarded_cells_stable(entry, *self),
                        entry.live(c),
                        forall|j: int|
                            0 <= j < ns@.len() ==> ((#[trigger] ns@[j]) as int) < entry.n(),
                        self.components@ == entry.components@,
                        self.comp_lists@ == entry.comp_lists@,
                        self.value_lists@ == entry.value_lists@,
                        self.binding_cells@ == entry.binding_cells@,
                        k <= ns@.len(),
                    decreases ns@.len() - k,
                {
                    let node_id = ns[k];
                    if self.is_live(node_id) {
                        AnyComponent(node_id).set_visible(self, false, fuel);
                        self.request_render(&AnyComponent(node_id));
                    }
                    k = k + 1;
                }
                self.set_nodes(c, Option::None);
                let ghost pre_render = *self;
                let ghost pre_render_doc = *doc;
                self.render_component(doc, c, fuel - 1);
                proof {
                    lemma_evolves_trans(entry, pre_render, *self);
                    lemma_guarded_trans(entry, pre_render, *self);
                    crate::html::structure_eq_trans(entry_doc, pre_render_doc, *doc);
                    assert(self.live(c)) by {
                        assert(pre_render.components@[c as int] is Some);
                    }
                }
                self.request_render(&AnyComponent(c));
            },
        }
    }

    /// The render pass. An invisible node only runs its update pass (its
    /// children are never expanded). A visible node without a cached child
    /// list expands one: the kind's render rule produces the list, each child
    /// is given its DOM parent (the node's own element if it owns one, else
    /// the node's inherited parent), aliased to the node's visibility unless
    /// the node manages children itself, and — except under a list container
    /// — updated and recursively rendered. Every visible pass finishes with
    /// an update (the commit pass) and advances the render counter.
    pub fn render_component(&mut self, doc: &mut HtmlDocument, c: u32, fuel: u32)
        requires
            old(self).wf(),
            old(doc).wf(),
            old(self).doc_ok(*old(doc)),
            old(self).live(c),
        ensures
            final(self).wf(),
            final(doc).wf(),
            final(self).doc_ok(*final(doc)),
            evolves(*old(self), *final(self)),
            old(doc).structure_eq(*final(doc)),
            guarded_cells_stable(*old(self), *final(self)),
            fuel == 0 ==> sys_same(*old(self), *final(self)) && old(doc).doc_same(*final(doc)),
            fuel > 0 && !old(self).visible_spec(c) && old(self).node_of(c).updating ==> sys_same(
                *old(self),
                *final(self),
            ) && old(doc).doc_same(*final(doc)),
            fuel == 1 && !old(self).visible_spec(c) ==> sys_same(*old(self), *final(self))
                && old(doc).doc_same(*final(doc)),
            fuel >= 2 && !old(self).visible_spec(c) && !old(self).node_of(c).updating ==> ({
                let node = old(self).node_of(c);
                let new_node = final(self).node_of(c);
                &&& old(doc).doc_same(*final(doc))
                &&& only_component_changed(*old(self), *final(self), c)
                &&& same_node_identity(node, new_node)
                &&& new_node.desc == node.desc
                &&& new_node.nodes == node.nodes
                &&& new_node.rc == node.rc
                &&& !new_node.inserted
                &&& new_node.updating == node.updating
                &&& new_node.props == node.props
                &&& new_node.state == node.state
            }),
            (fuel >= 3 && old(self).visible_spec(c) && !old(self).node_of(c).updating && old(
                self,
            ).node_of(c).nodes is None && old(self).node_of(c).kind is Plain && old(self).node_of(
                c,
            ).desc@.len() == 0) ==> ({
                let node = old(self).node_of(c);
                let new_node = final(self).node_of(c);
                &&& only_component_changed(*old(self), *final(self), c)
                &&& old(doc).doc_same(*final(doc))
                &&& new_node.nodes matches Some(ns) && ns@.len() == 0
                &&& new_node.rc as int == (if node.rc < u32::MAX {
                    node.rc + 1
                } else {
                    node.rc as int
                })
                &&& new_node.inserted
            }),
            (fuel >= 2 && old(self).visible_spec(c) && old(self).node_of(c).nodes is Some && old(
                self,
            ).clean(c)) ==> ({
                let node = old(self).node_of(c);
                let new_node = final(self).node_of(c);
                &&& old(doc).doc_same(*final(doc))
                &&& only_component_changed(*old(self), *final(self), c)
                &&& (match (new_node.nodes, node.nodes) {
                    (Option::Some(a), Option::Some(b)) => a@ == b@,
                    _ => false,
                })
                &&& new_node.props.value == node.props.value
                &&& new_node.state.cell.value == node.state.cell.value
                &&& new_node.desc == node.desc
                &&& new_node.rc as int == (if node.rc < u32::MAX {
                    node.rc + 1
                } else {
                    node.rc as int
                })
            }),
        decreases fuel,
    {
        if fuel == 0 {
            return ;
        }
        if !self.any_visible(c) {
            let _ = self.update_component(doc, c, Option::None, Option::None, fuel - 1);
            return ;
        }
        let cached: bool = match &self.components[c as usize] {
            Option::Some(node) => match &node.nodes {
                Option::Some(_) => true,
                Option::None => false,
            },
            Option::None => {
                proof {
                    assert(false);
                }
                false
            },
        };
        if !cached {
            self.render_expand(doc, c, fuel - 1);
            let ghost post_expand = *self;
            let ghost post_expand_doc = *doc;
            let ns = match self.nodes_copy(c) {
                Option::Some(ns) => ns,
                Option::None => Vec::new(),
            };
            let own_element: Option<HtmlElement> = match &self.components[c as usize] {
                Option::Some(node) => match &node.kind {
                    ComponentKind::Html(h) => Option::Some(h.dom_node),
                    _ => Option::None,
                },
                Option::None => {
                    proof {
                        assert(false);
                    }
                    Option::None
                },
            };
            let inherited: Option<HtmlElement> = match &self.components[c as usize] {
                Option::Some(node) => node.dom_parent,
                Option::None => {
                    proof {
                        assert(false);
                    }
                    Option::None
                },
            };
            let child_parent: Option<HtmlElement> = match own_element {
                Option::Some(e) => Option::Some(e),
                Option::None => inherited,
            };
            let is_foreach = match &self.components[c as usize] {
                Option::Some(node) => node.kind.is_foreach(),
                Option::None => false,
            };
            let tracks = match &self.components[c as usize] {
                Option::Some(node) => node.kind.children_track_visibility(),
                Option::None => true,
            };
            proof {
                assert(self.doc_ok(*doc));
                match child_parent {
                    Some(e) => {
                        assert(old(self).node_ok(old(self).node_of(c)));
                    },
                    None => {},
                }
            }
            let mut k: usize = 0;
            while k < ns.len()
                invariant
                    self.wf(),
                    doc.wf(),
                    self.doc_ok(*doc),
                    post_expand.wf(),
                    evolves(post_expand, *self),
                    guarded_cells_stable(post_expand, *self),
                    post_expand_doc.structure_eq(*doc),
                    post_expand.live(c),
                    forall|j: int|
                        0 <= j < ns@.len() ==> ((#[trigger] ns@[j]) as int) < post_expand.n(),
                    match child_parent {
                        Some(e) => doc.valid(e.0) && !doc.is_text_node(e.0),
                        None => true,
                    },
                    k <= ns@.len(),
                    fuel >= 1,
                    ns@.len() == 0 ==> ({
                        &&& self.components@ == post_expand.components@
                        &&& self.vis_cells@ == post_expand.vis_cells@
                        &&& self.binding_cells@ == post_expand.binding_cells@
                        &&& self.comp_lists@ == post_expand.comp_lists@
                        &&& self.value_lists@ == post_expand.value_lists@
                        &&& self.render_queue@ == post_expand.render_queue@
                        &&& self.render_queue_frame == post_expand.render_queue_frame
                        &&& self.frame_tasks@ == post_expand.frame_tasks@
                        &&& self.dom_roots@ == post_expand.dom_roots@
                        &&& self.frame_counter == post_expand.frame_counter
                        &&& self.callback_counter == post_expand.callback_counter
                        &&& post_expand_doc.doc_same(*doc)
                    }),
                decreases ns@.len() - k,
            {
                let child = ns[k];
                if self.is_live(child) {
                    let ghost it0 = *self;
                    let ghost it0_doc = *doc;
                    match child_parent {
                        Option::Some(e) => {
                            self.set_dom_parent_impl(child, e, Ghost(*doc));
                        },
                        Option::None => {},
                    }
                    if tracks {
                        if self.is_live(c) {
                            self.track_visible_impl(child, c);
                        }
                    }
                    if !is_foreach {
                        let ghost it1 = *self;
                        let ghost it1_doc = *doc;
                        let _ = self.update_component(
                            doc,
                            child,
                            Option::None,
                            Option::None,
                            fuel - 1,
                        );
                        let ghost it2 = *self;
                        let ghost it2_doc = *doc;
                        if self.is_live(child) {
                            self.render_component(doc, child, fuel - 1);
                        }
                        proof {
                            lemma_evolves_trans(it0, it1, it2);
                            lemma_evolves_trans(it0, it2, *self);
                            lemma_guarded_trans(it0, it1, it2);
                            lemma_guarded_trans(it0, it2, *self);
                            crate::html::structure_eq_trans(it0_doc, it1_doc, it2_doc);
                            crate::html::structure_eq_trans(it0_doc, it2_doc, *doc);
                        }
                    }
                    proof {
                        lemma_evolves_trans(post_expand, it0, *self);
                        lemma_guarded_trans(post_expand, it0, *self);
                        crate::html::structure_eq_trans(post_expand_doc, it0_doc, *doc);
                    }
                }
                k = k + 1;
            }
            proof {
                assert(self.live(c)) by {
                    assert(post_expand.components@[c as int] is Some);
                }
            }
            let ghost pre_commit = *self;
            let ghost pre_commit_doc = *doc;
            let _ = self.update_component(doc, c, Option::None, Option::None, fuel - 1);
            let ghost post_commit = *self;
            proof {
                assert(self.live(c)) by {
                    assert(pre_commit.components@[c as int] is Some);
                }
                lemma_evolves_trans(*old(self), pre_commit, *self);
                lemma_guarded_trans(*old(self), pre_commit, *self);
                crate::html::structure_eq_trans(*old(doc), pre_commit_doc, *doc);
            }
            self.inc_rc(c);
            proof {
                if fuel >= 3 && !old(self).node_of(c).updating && old(self).node_of(c).kind
                    is Plain && old(self).node_of(c).desc@.len() == 0 {
                    // expansion was confined, the walk was empty, and the
                    // commit pass on a dependent-free plain node is confined
                    assert(post_expand.node_of(c).nodes is Some);
                    assert(post_expand.node_of(c).nodes->0@.len() == 0);
                    assert(pre_commit.components@ == post_expand.components@);
                    assert(pre_commit.vis_cells@ == post_expand.vis_cells@);
                    assert(pre_commit.visible_spec(c) == old(self).visible_spec(c)) by {
                        assert(post_expand.visible_spec(c) == old(self).visible_spec(c));
                    }
                    assert(!pre_commit.node_of(c).updating);
                    assert(pre_commit.node_of(c).kind is Plain);
                    assert(pre_commit.node_of(c).desc@.len() == 0);
                    assert(post_commit.node_of(c).nodes == pre_commit.node_of(c).nodes);
                    assert(post_commit.node_of(c).rc == pre_commit.node_of(c).rc);
                    assert(only_component_changed(*old(self), *self, c)) by {
                        assert forall|j: int|
                            0 <= j < old(self).n() && j != c as int implies self.components@[j]
                            == old(self).components@[j] by {
                            assert(post_expand.components@[j] == old(self).components@[j]);
                            assert(pre_commit.components@[j] == post_expand.components@[j]);
                            assert(post_commit.components@[j] == pre_commit.components@[j]);
                        }
                    }
                    assert(self.node_of(c).inserted) by {
                        assert(post_commit.node_of(c).inserted);
                    }
                }
            }
            return ;
        }
        let ghost pre_commit = *self;
        let ghost pre_commit_doc = *doc;
        let _ = self.update_component(doc, c, Option::None, Option::None, fuel - 1);
        let ghost post_commit = *self;
        proof {
            assert(self.live(c)) by {
                assert(pre_commit.components@[c as int] is Some);
            }
        }
        self.inc_rc(c);
        proof {
            if fuel >= 2 && old(self).clean(c) {
                assert(old(self).props_candidate_stable(c, Option::None::<Value>));
                assert(!old(self).update_changed_spec(
                    c,
                    Option::None::<Value>,
                    Option::None::<Value>,
                ));
                assert(post_commit.node_of(c).props.value == old(self).node_of(c).props.value);
            }
        }
    }

    /// The kind's render rule: compute and cache the fresh child-node list. A
    /// generic component, a text node and a list container render nothing; an
    /// element and a list item render their externally supplied children; a
    /// slot renders the components its props name, forwarding its own
    /// visibility to them; a conditional renders a single fresh slot bound to
    /// its active branch.
    pub fn render_expand(&mut self, doc: &mut HtmlDocument, c: u32, fuel: u32)
        requires
            old(self).wf(),
            old(doc).wf(),
            old(self).doc_ok(*old(doc)),
            old(self).live(c),
        ensures
            final(self).wf(),
            final(doc).wf(),
            final(self).doc_ok(*final(doc)),
            evolves(*old(self), *final(self)),
            old(doc).structure_eq(*final(doc)),
            guarded_cells_stable(*old(self), *final(self)),
            final(self).live(c),
            final(self).node_of(c).nodes is Some,
            !(old(self).node_of(c).kind is Cond) ==> ({
                &&& final(self).props_of(c) == old(self).props_of(c)
                &&& final(self).state_of(c) == old(self).state_of(c)
                &&& final(self).node_of(c).updating == old(self).node_of(c).updating
                &&& final(self).node_of(c).inserted == old(self).node_of(c).inserted
            }),
            fuel > 0 ==> (match old(self).node_of(c).kind {
                ComponentKind::Slot => (match old(self).props_of(c) {
                    Value::Slot(sp) => final(self).node_of(c).nodes->0@ == old(self).comp_list_of(
                        sp.components,
                    ),
                    _ => final(self).node_of(c).nodes->0@.len() == 0,
                }),
                ComponentKind::Html(_) | ComponentKind::ForeachItem => final(self).node_of(
                    c,
                ).nodes->0@ == old(self).node_of(c).children@,
                ComponentKind::Cond => true,
                _ => final(self).node_of(c).nodes->0@.len() == 0,
            }),
            !(old(self).node_of(c).kind is Cond || old(self).node_of(c).kind is Slot) ==> ({
                let node = old(self).node_of(c);
                let new_node = final(self).node_of(c);
                &&& only_component_changed(*old(self), *final(self), c)
                &&& old(doc).doc_same(*final(doc))
                &&& same_node_identity(node, new_node)
                &&& new_node.props == node.props
                &&& new_node.state == node.state
                &&& new_node.desc == node.desc
                &&& new_node.rc == node.rc
                &&& new_node.updating == node.updating
                &&& new_node.inserted == node.inserted
            }),
        decreases fuel,
    {
        if fuel == 0 {
            // Out of budget: cache an empty list so the pass still completes.
            self.set_nodes(c, Option::Some(Vec::new()));
            return ;
        }
        let kind_tag: u8 = match &self.components[c as usize] {
            Option::Some(node) => match &node.kind {
                ComponentKind::Plain => 0,
                ComponentKind::Slot => 1,
                ComponentKind::Cond => 2,
                ComponentKind::Text(_) => 3,
                ComponentKind::Html(_) => 4,
                ComponentKind::Foreach(_) => 7,
                ComponentKind::ForeachItem => 8,
            },
            Option::None => {
                proof {
                    assert(false);
                }
                0
            },
        };
        if kind_tag == 4 || kind_tag == 8 {
            let kids: Vec<u32> = match &self.components[c as usize] {
                Option::Some(node) => {
                    let mut copy: Vec<u32> = Vec::new();
                    let mut k: usize = 0;
                    while k < node.children.len()
                        invariant
                            k <= node.children@.len(),
                            copy@ == node.children@.subrange(0, k as int),
                        decreases node.children@.len() - k,
                    {
                        copy.push(node.children[k]);
                        proof {
                            assert(copy@ =~= node.children@.subrange(0, k as int + 1));
                        }
                        k = k + 1;
                    }
                    proof {
                        assert(copy@ =~= node.children@);
                    }
                    copy
                },
                Option::None => Vec::new(),
            };
            proof {
                assert(old(self).node_ok(old(self).node_of(c)));
            }
            self.set_nodes(c, Option::Some(kids));
        } else if kind_tag == 1 {
            let sp: Option<SlotProps> = match self.props_value(c) {
                Value::Slot(sp) => Option::Some(sp),
                _ => Option::None,
            };
            match sp {
                Option::Some(sp) => {
                    proof {
                        assert(old(self).node_ok(old(self).node_of(c)));
                    }
                    let list = self.read_component_list(sp.components);
                    let visible = self.any_visible(c);
                    let ghost entry = *self;
                    let mut k: usize = 0;
                    while k < list.len()
                        invariant
                            self.wf(),
                            entry.wf(),
                            entry.live(c),
                            self.components@ == entry.components@,
                            self.vis_cells@.len() == entry.vis_cells@.len(),
                            self.binding_cells@ == entry.binding_cells@,
                            self.comp_lists@ == entry.comp_lists@,
                            self.value_lists@ == entry.value_lists@,
                            self.render_queue@ == entry.render_queue@,
                            self.render_queue_frame == entry.render_queue_frame,
                            self.frame_tasks@ == entry.frame_tasks@,
                            forall|j: int|
                                0 <= j < list@.len() ==> ((#[trigger] list@[j]) as int) < entry.n(),
                            k <= list@.len(),
                        decreases list@.len() - k,
                    {
                        let node_id = list[k];
                        if self.is_live(node_id) {
                            AnyComponent(node_id).set_visible(self, visible, fuel);
                        }
                        k = k + 1;
                    }
                    proof {
                        assert(self.live(c)) by {
                            assert(entry.components@[c as int] is Some);
                        }
                    }
                    self.set_nodes(c, Option::Some(list));
                },
                Option::None => {
                    self.set_nodes(c, Option::Some(Vec::new()));
                },
            }
        } else if kind_tag == 2 {
            let can_alloc = self.components.len() < (u32::MAX - 1) as usize
                && self.vis_cells.len() < usize::MAX - 1 && self.comp_lists.len() < (u32::MAX
                - 4) as usize && self.binding_cells.len() < (u32::MAX - 1) as usize;
            if can_alloc {
                let slot = self.create_component(ConfigKind::Slot);
                let ghost post_create = *self;
                let ghost post_create_doc = *doc;
                proof {
                    assert(evolves(*old(self), post_create)) by {
                        assert forall|j: int|
                            0 <= j < old(self).n() && old(self).components@[j] is Some implies (
                        #[trigger] post_create.components@[j]) is Some by {
                            assert(post_create.components@[j] == old(self).components@[j]);
                        }
                    }
                    assert(guarded_cells_stable(*old(self), post_create)) by {
                        assert forall|j: int|
                            0 <= j < old(self).n() && old(self).components@[j] is Some && old(
                            self,
                        ).components@[j]->0.updating implies {
                            &&& (#[trigger] post_create.components@[j]) is Some
                            &&& post_create.components@[j]->0 == old(self).components@[j]->0
                        } by {
                            assert(post_create.components@[j] == old(self).components@[j]);
                        }
                    }
                    assert(!post_create.node_of(slot.0).updating);
                }
                self.bind_impl(doc, slot.0, c, PullFn::SlotOfCondState, fuel - 1);
                proof {
                    lemma_evolves_trans(*old(self), post_create, *self);
                    lemma_guarded_trans(*old(self), post_create, *self);
                    crate::html::structure_eq_trans(*old(doc), post_create_doc, *doc);
                    assert(self.live(c)) by {
                        assert(post_create.components@[c as int] is Some);
                    }
                }
                let mut single: Vec<u32> = Vec::new();
                single.push(slot.0);
                proof {
                    assert(self.live(slot.0)) by {
                        assert(post_create.components@[slot.0 as int] is Some);
                    }
                }
                self.set_nodes(c, Option::Some(single));
            } else {
                // Arena exhausted: the conditional renders nothing.
                self.set_nodes(c, Option::Some(Vec::new()));
            }
        } else {
            self.set_nodes(c, Option::Some(Vec::new()));
        }
    }

    /// Install a pull binding: detach the consumer's existing binding, point
    /// its props at the producer through `f`, register a fresh weak cell in
    /// the producer's dependents, and immediately update the consumer once so
    /// its initial value is populated synchronously.
    pub fn bind_impl(&mut self, doc: &mut HtmlDocument, consumer: u32, producer: u32, f: PullFn, fuel: u32)
        requires
            old(self).wf(),
            old(doc).wf(),
            old(self).doc_ok(*old(doc)),
            old(self).live(consumer),
            old(self).live(producer),
            !old(self).node_of(consumer).updating,
            !(old(self).node_of(producer).kind is ForeachItem),
            old(self).binding_cells@.len() < u32::MAX,
            pull_refs_ok(
                f,
                old(self).comp_lists@.len() as int,
                old(self).value_lists@.len() as int,
            ),
        ensures
            final(self).wf(),
            final(doc).wf(),
            final(self).doc_ok(*final(doc)),
            evolves(*old(self), *final(self)),
            old(doc).structure_eq(*final(doc)),
            guarded_cells_stable(*old(self), *final(self)),
            final(self).live(consumer),
            final(self).node_of(consumer).props.binding == Some(Binding { producer, f }),
            final(self).node_of(consumer).binding_cell == Some(
                old(self).binding_cells@.len() as u32,
            ),
            (fuel >= 3 && producer != consumer && old(self).node_of(consumer).kind is Plain && old(
                self,
            ).node_of(consumer).desc@.len() == 0) ==> ({
                let cell = old(self).binding_cells@.len() as u32;
                let pulled = eval_pull_spec(
                    f,
                    old(self).props_of(producer),
                    old(self).state_of(producer),
                );
                &&& final(self).binding_cells@.len() == old(self).binding_cells@.len() + 1
                &&& final(self).binding_cells@[cell as int] == Some(consumer)
                &&& final(self).node_of(producer).desc@ == old(self).node_of(
                    producer,
                ).desc@.push(cell)
                &&& (match old(self).node_of(consumer).binding_cell {
                    Some(oc) => ((oc as int) < old(self).binding_cells@.len())
                        && final(self).binding_cells@[oc as int] is None,
                    None => true,
                })
                &&& (old(self).visible_spec(consumer) ==> final(self).props_of(consumer) == (
                match pulled {
                    Some(v) => if !crate::values::value_eq_spec(
                        v,
                        old(self).props_of(consumer),
                    ) {
                        v
                    } else {
                        old(self).props_of(consumer)
                    },
                    None => old(self).props_of(consumer),
                }))
            }),
        decreases fuel,
    {
        // Detach any existing binding: its cell goes dead for its producer.
        let old_cell: Option<u32> = match &self.components[consumer as usize] {
            Option::Some(node) => node.binding_cell,
            Option::None => {
                proof {
                    assert(false);
                }
                Option::None
            },
        };
        proof {
            assert(old(self).node_ok(old(self).node_of(consumer)));
        }
        match old_cell {
            Option::Some(cell) => {
                self.invalidate_binding_cell(cell);
            },
            Option::None => {},
        }
        let cell = self.alloc_binding_cell(consumer);
        self.set_binding(consumer, Option::Some(Binding { producer, f }), Option::Some(cell));
        if producer == consumer {
            // A self-binding registers the cell on the consumer itself.
            self.push_desc(consumer, cell);
        } else {
            self.push_desc(producer, cell);
        }
        let ghost pre_update = *self;
        let ghost pre_update_doc = *doc;
        if fuel > 0 {
            let _ = self.update_component(doc, consumer, Option::None, Option::None, fuel - 1);
        }
        proof {
            assert(pre_update.node_of(consumer).props.binding == Some(Binding { producer, f }));
            assert(pre_update.node_of(consumer).binding_cell == Some(cell));
            assert(!pre_update.node_of(consumer).updating);
            assert(self.live(consumer)) by {
                assert(pre_update.components@[consumer as int] is Some);
            }
            assert(self.node_of(consumer).props.binding == Some(Binding { producer, f })
                && self.node_of(consumer).binding_cell == Some(cell)) by {
                if fuel == 0 {
                    assert(*self == pre_update);
                } else if !pre_update.visible_spec(consumer) {
                    assert(self.node_of(consumer).props.binding == pre_update.node_of(
                        consumer,
                    ).props.binding);
                } else {
                    assert(self.node_of(consumer).props.binding == pre_update.node_of(
                        consumer,
                    ).props.binding);
                }
            }
            if fuel >= 3 && producer != consumer && old(self).node_of(consumer).kind is Plain
                && old(self).node_of(consumer).desc@.len() == 0 {
                assert(pre_update.node_of(consumer).kind is Plain);
                assert(pre_update.node_of(consumer).desc@.len() == 0);
                assert(pre_update.visible_spec(consumer) == old(self).visible_spec(consumer));
                assert(pre_update.binding_cells@[cell as int] == Some(consumer));
                assert(pre_update.node_of(producer).desc@ == old(self).node_of(
                    producer,
                ).desc@.push(cell));
                assert(only_component_changed(pre_update, *self, consumer));
                assert(self.binding_cells@ == pre_update.binding_cells@);
                assert(self.node_of(producer).desc@ == pre_update.node_of(producer).desc@) by {
                    assert(self.components@[producer as int] == pre_update.components@[producer
                        as int]);
                }
                if old(self).visible_spec(consumer) {
                    assert(pre_update.props_candidate_stable(consumer, Option::None::<Value>));
                    assert(pre_update.binding_pull_spec(consumer) == eval_pull_spec(
                        f,
                        old(self).props_of(producer),
                        old(self).state_of(producer),
                    )) by {
                        assert(pre_update.live(producer));
                        assert(pre_update.props_of(producer) == old(self).props_of(producer));
                        assert(pre_update.state_of(producer) == old(self).state_of(producer));
                    }
                    assert(self.props_of(consumer) == crate::cells::resolved_value(
                        pre_update.node_of(consumer).props,
                        pre_update.props_candidate(consumer, Option::None::<Value>),
                    ));
                    assert(pre_update.node_of(consumer).props.value == old(self).props_of(
                        consumer,
                    ));
                }
            }
        }
    }

    /// Alias one component's visibility cell onto another's (internal form).
    fn track_visible_impl(&mut self, c: u32, other: u32)
        requires
            old(self).wf(),
            old(self).live(c),
            old(self).live(other),
        ensures
            final(self).wf(),
            final(self).live(c),
            only_component_changed(*old(self), *final(self), c),
            final(self).node_of(c).vis_cell == old(self).node_of(other).vis_cell,
            ({
                let node = old(self).node_of(c);
                let new_node = final(self).node_of(c);
                &&& new_node.props == node.props
                &&& new_node.state == node.state
                &&& new_node.kind == node.kind
                &&& new_node.children == node.children
                &&& new_node.nodes == node.nodes
                &&& new_node.desc == node.desc
                &&& new_node.rc == node.rc
                &&& new_node.dom_parent == node.dom_parent
                &&& new_node.updating == node.updating
                &&& new_node.inserted == node.inserted
                &&& new_node.binding_cell == node.binding_cell
            }),
    {
        let other_cell = match &self.components[other as usize] {
            Option::Some(node) => node.vis_cell,
            Option::None => {
                proof {
                    assert(false);
                }
                0
            },
        };
        proof {
            assert(old(self).node_ok(old(self).node_of(other)));
        }
        let mut node = self.take_node(c);
        node.vis_cell = other_cell;
        self.put_node(c, node);
        proof {
            self.lemma_restore_wf_any(*old(self), c);
        }
    }
}

impl ComponentSystem {
    /// A document whose nodes keep their kinds (and whose arena has not
    /// shrunk) satisfies the same DOM-reference conditions.
    proof fn lemma_doc_ok_kinds(self, doc0: HtmlDocument, doc1: HtmlDocument)
        requires
            self.doc_ok(doc0),
            doc1.n() >= doc0.n(),
            forall|i: usize| doc0.valid(i) ==> doc1.is_text_node(i) == doc0.is_text_node(i),
        ensures
            self.doc_ok(doc1),
    {
        assert forall|c: int|
            0 <= c < self.n() && self.components@[c] is Some implies ({
            let node = (#[trigger] self.components@[c])->0;
            &&& (match node.kind {
                ComponentKind::Text(t) => doc1.valid(t.dom_node.0) && doc1.is_text_node(
                    t.dom_node.0,
                ),
                ComponentKind::Html(h) => doc1.valid(h.dom_node.0) && !doc1.is_text_node(
                    h.dom_node.0,
                ),
                _ => true,
            })
            &&& (match node.dom_parent {
                Some(e) => doc1.valid(e.0) && !doc1.is_text_node(e.0),
                None => true,
            })
        }) by {
            let node = self.components@[c]->0;
            match node.kind {
                ComponentKind::Text(t) => {
                    assert(doc1.is_text_node(t.dom_node.0) == doc0.is_text_node(t.dom_node.0));
                },
                ComponentKind::Html(h) => {
                    assert(doc1.is_text_node(h.dom_node.0) == doc0.is_text_node(h.dom_node.0));
                },
                _ => {},
            }
            match node.dom_parent {
                Some(e) => {
                    assert(doc1.is_text_node(e.0) == doc0.is_text_node(e.0));
                },
                None => {},
            }
        }
    }

    /// Every DOM node owned within the component's rendered subtree, to the
    /// given depth, is detached: an owner's node has no parent, a non-owner's
    /// cached render list consists of detached subtrees.
    pub open spec fn subtree_detached(self, doc: HtmlDocument, c: u32, fuel: u32) -> bool
        decreases fuel,
    {
        if fuel == 0 {
            true
        } else if !self.live(c) {
            true
        } else {
            match self.node_of(c).kind {
                ComponentKind::Text(t) => doc.parent_of(t.dom_node.0) is None,
                ComponentKind::Html(h) => doc.parent_of(h.dom_node.0) is None,
                _ => match self.node_of(c).nodes {
                    Option::Some(ns) => forall|i: int|
                        0 <= i < ns@.len() ==> self.subtree_detached(
                            doc,
                            #[trigger] ns@[i],
                            (fuel - 1) as u32,
                        ),
                    Option::None => true,
                },
            }
        }
    }

    /// A pass that only detaches nodes cannot re-attach a detached subtree.
    proof fn lemma_subtree_detached_monotone(
        self,
        doc0: HtmlDocument,
        doc1: HtmlDocument,
        c: u32,
        fuel: u32,
    )
        requires
            self.subtree_detached(doc0, c, fuel),
            forall|i: usize|
                doc0.valid(i) ==> #[trigger] doc1.parent_of(i) == doc0.parent_of(i)
                    || doc1.parent_of(i) is None,
            doc1.n() == doc0.n(),
            self.doc_ok(doc0),
        ensures
            self.subtree_detached(doc1, c, fuel),
        decreases fuel,
    {
        if fuel > 0 && self.live(c) {
            match self.node_of(c).kind {
                ComponentKind::Text(t) => {
                    assert(self.node_ok_doc(doc0, c));
                    assert(doc1.parent_of(t.dom_node.0) is None);
                },
                ComponentKind::Html(h) => {
                    assert(self.node_ok_doc(doc0, c));
                    assert(doc1.parent_of(h.dom_node.0) is None);
                },
                _ => {
                    match self.node_of(c).nodes {
                        Option::Some(ns) => {
                            assert forall|i: int|
                                0 <= i < ns@.len() implies self.subtree_detached(
                                doc1,
                                #[trigger] ns@[i],
                                (fuel - 1) as u32,
                            ) by {
                                self.lemma_subtree_detached_monotone(
                                    doc0,
                                    doc1,
                                    ns@[i],
                                    (fuel - 1) as u32,
                                );
                            }
                        },
                        Option::None => {},
                    }
                },
            }
        }
    }

    /// The component's own DOM references resolve in the document.
    pub open spec fn node_ok_doc(self, doc: HtmlDocument, c: u32) -> bool {
        self.live(c) ==> (match self.node_of(c).kind {
            ComponentKind::Text(t) => doc.valid(t.dom_node.0),
            ComponentKind::Html(h) => doc.valid(h.dom_node.0),
            _ => true,
        })
    }

    /// Remove every real DOM node the component's rendered subtree owns: an
    /// owner detaches its own node (a no-op when already detached), a
    /// non-owner recurses over its cached render list.
    pub fn remove_node(&self, doc: &mut HtmlDocument, c: u32, fuel: u32)
        requires
            self.wf(),
            old(doc).wf(),
            self.doc_ok(*old(doc)),
            self.allocated(c),
        ensures
            final(doc).wf(),
            self.doc_ok(*final(doc)),
            final(doc).n() == old(doc).n(),
            final(doc).body == old(doc).body,
            forall|i: usize|
                old(doc).valid(i) ==> final(doc).is_text_node(i) == old(doc).is_text_node(i),
            forall|i: usize|
                old(doc).valid(i) ==> #[trigger] final(doc).parent_of(i) == old(doc).parent_of(i)
                    || final(doc).parent_of(i) is None,
            fuel == 0 || !self.live(c) ==> old(doc).doc_same(*final(doc)),
            fuel > 0 && self.live(c) ==> self.subtree_detached(*final(doc), c, fuel),
            fuel > 0 && self.live(c) ==> (match self.node_of(c).kind {
                ComponentKind::Text(t) => final(doc).parent_of(t.dom_node.0) is None && (old(
                    doc,
                ).parent_of(t.dom_node.0) is Some ==> final(doc).op_log() == old(
                    doc,
                ).op_log().push(crate::html::SurfaceOp::Remove { node: t.dom_node.0 })) && (old(
                    doc,
                ).parent_of(t.dom_node.0) is None ==> old(doc).doc_same(*final(doc))),
                ComponentKind::Html(h) => final(doc).parent_of(h.dom_node.0) is None && (old(
                    doc,
                ).parent_of(h.dom_node.0) is Some ==> final(doc).op_log() == old(
                    doc,
                ).op_log().push(crate::html::SurfaceOp::Remove { node: h.dom_node.0 })) && (old(
                    doc,
                ).parent_of(h.dom_node.0) is None ==> old(doc).doc_same(*final(doc))),
                _ => true,
            }),
        decreases fuel,
    {
        if fuel == 0 {
            return ;
        }
        if !self.is_live(c) {
            return ;
        }
        let own: Option<HtmlNode> = match &self.components[c as usize] {
            Option::Some(node) => node.kind.dom_node(),
            Option::None => Option::None,
        };
        proof {
            assert(self.node_ok(self.node_of(c)));
        }
        match own {
            Option::Some(HtmlNode::Element(e)) => {
                e.remove(doc);
            },
            Option::Some(HtmlNode::Text(t)) => {
                t.remove(doc);
            },
            Option::None => {
                let ns = self.nodes_copy(c);
                match ns {
                    Option::Some(ns) => {
                        let ghost entry_doc = *doc;
                        let mut k: usize = 0;
                        while k < ns.len()
                            invariant
                                doc.wf(),
                                self.wf(),
                                self.doc_ok(*doc),
                                self.allocated(c),
                                doc.n() == entry_doc.n(),
                                doc.body == entry_doc.body,
                                forall|i: usize|
                                    entry_doc.valid(i) ==> doc.is_text_node(i)
                                        == entry_doc.is_text_node(i),
                                forall|i: usize|
                                    entry_doc.valid(i) ==> #[trigger] doc.parent_of(i)
                                        == entry_doc.parent_of(i) || doc.parent_of(i) is None,
                                forall|j: int|
                                    0 <= j < k ==> self.subtree_detached(
                                        *doc,
                                        #[trigger] ns@[j],
                                        (fuel - 1) as u32,
                                    ),
                                forall|j: int|
                                    0 <= j < ns@.len() ==> ((#[trigger] ns@[j]) as int) < self.n(),
                                k <= ns@.len(),
                                fuel >= 1,
                            decreases ns@.len() - k,
                        {
                            let ghost before_doc = *doc;
                            self.remove_node(doc, ns[k], fuel - 1);
                            proof {
                                assert forall|j: int|
                                    0 <= j < k + 1 implies self.subtree_detached(
                                    *doc,
                                    #[trigger] ns@[j],
                                    (fuel - 1) as u32,
                                ) by {
                                    if j < k {
                                        self.lemma_subtree_detached_monotone(
                                            before_doc,
                                            *doc,
                                            ns@[j],
                                            (fuel - 1) as u32,
                                        );
                                    }
                                }
                            }
                            k = k + 1;
                        }
                    },
                    Option::None => {},
                }
            },
        }
    }

    /// The reconciliation walk. An invisible (or dropped) component's owned
    /// DOM nodes are removed and the anchor passes through unchanged. A
    /// visible owner is checked against its intended parent — and, when
    /// sibling checks are on, against the expected next sibling — and is
    /// (re)inserted before the anchor if either check fails. Children are
    /// walked back to front, each placed node becoming the next (earlier)
    /// sibling's anchor; the walk returns the node it placed for this
    /// subtree, so ancestors of transparent wrappers still compute anchors.
    pub fn update_html_impl(
        &self,
        doc: &mut HtmlDocument,
        c: u32,
        next_sibling: Option<HtmlNode>,
        check_siblings: bool,
        fuel: u32,
    ) -> (r: Option<HtmlNode>)
        requires
            self.wf(),
            old(doc).wf(),
            self.doc_ok(*old(doc)),
            self.allocated(c),
            match next_sibling {
                Some(s) => old(doc).valid(s.ptr_spec()),
                None => true,
            },
        ensures
            final(doc).wf(),
            self.doc_ok(*final(doc)),
            final(doc).n() == old(doc).n(),
            final(doc).body == old(doc).body,
            forall|i: usize|
                old(doc).valid(i) ==> final(doc).is_text_node(i) == old(doc).is_text_node(i),
            match r {
                Some(h) => final(doc).valid(h.ptr_spec()),
                None => true,
            },
            fuel == 0 || !self.live(c) ==> r == next_sibling && old(doc).doc_same(*final(doc)),
            fuel > 0 && self.live(c) && !self.visible_spec(c) ==> r == next_sibling
                && self.subtree_detached(*final(doc), c, (fuel - 1) as u32),
            fuel > 0 && self.live(c) && self.visible_spec(c) ==> (match self.node_of(
                c,
            ).kind.dom_node_spec() {
                Some(dn) => r == Some(dn),
                None => true,
            }),
            (fuel > 0 && self.live(c) && self.visible_spec(c) && !check_siblings && (match self
                .node_of(c).nodes {
                Option::Some(ns) => ns@.len() == 0,
                Option::None => true,
            })) ==> (match (self.node_of(c).kind.dom_node_spec(), self.node_of(c).dom_parent) {
                (Some(dn), Some(dp)) => (dn.ptr_spec() != dp.0) ==> ({
                    &&& final(doc).parent_of(dn.ptr_spec()) == Some(dp.0)
                    &&& (old(doc).parent_of(dn.ptr_spec()) == Some(dp.0) ==> old(doc).doc_same(
                        *final(doc),
                    ))
                    &&& (old(doc).parent_of(dn.ptr_spec()) != Some(dp.0) ==> final(doc).op_log()
                        == old(doc).op_log().push(
                        crate::html::SurfaceOp::InsertBefore {
                            parent: dp.0,
                            node: dn.ptr_spec(),
                            before: Option::None,
                        },
                    ))
                }),
                _ => true,
            }),
        decreases fuel,
    {
        if fuel == 0 {
            return next_sibling;
        }
        if !self.is_live(c) {
            return next_sibling;
        }
        if !self.any_visible(c) {
            self.remove_node(doc, c, fuel - 1);
            return next_sibling;
        }
        let dom_node: Option<HtmlNode> = match &self.components[c as usize] {
            Option::Some(node) => node.kind.dom_node(),
            Option::None => Option::None,
        };
        proof {
            assert(self.node_ok(self.node_of(c)));
        }
        match (dom_node, self.dom_parent_of(c)) {
            (Option::Some(dn), Option::Some(dp)) => {
                let contained = dp.contains(doc, &dn);
                let sibling_ok = if check_siblings {
                    let actual = dn.next_sibling(doc);
                    opt_node_eq(&actual, &next_sibling)
                } else {
                    true
                };
                if !contained || !sibling_ok {
                    let ghost pre = *doc;
                    if check_siblings {
                        match &next_sibling {
                            Option::Some(s) => dp.insert_before(doc, &dn, Option::Some(s)),
                            Option::None => dp.insert_before(doc, &dn, Option::None),
                        }
                    } else {
                        dp.insert_before(doc, &dn, Option::None);
                    }
                    proof {
                        self.lemma_doc_ok_kinds(pre, *doc);
                    }
                }
            },
            _ => {},
        }
        let child_check = dom_node.is_none() || check_siblings;
        let mut last_inserted: Option<HtmlNode> = if dom_node.is_some() {
            Option::None
        } else {
            next_sibling
        };
        let ns = match self.nodes_copy(c) {
            Option::Some(ns) => ns,
            Option::None => Vec::new(),
        };
        let ghost loop_entry_doc = *doc;
        let mut check = child_check;
        let mut k: usize = ns.len();
        while k > 0
            invariant
                doc.wf(),
                self.wf(),
                self.doc_ok(*doc),
                doc.n() == loop_entry_doc.n(),
                doc.body == loop_entry_doc.body,
                forall|i: usize|
                    loop_entry_doc.valid(i) ==> doc.is_text_node(i) == loop_entry_doc.is_text_node(
                        i,
                    ),
                forall|j: int| 0 <= j < ns@.len() ==> ((#[trigger] ns@[j]) as int) < self.n(),
                match last_inserted {
                    Some(h) => doc.valid(h.ptr_spec()),
                    None => true,
                },
                k <= ns@.len(),
                fuel >= 1,
                ns@.len() == 0 ==> loop_entry_doc.doc_same(*doc),
            decreases k,
        {
            k = k - 1;
            let res = self.update_html_impl(doc, ns[k], last_inserted, check, fuel - 1);
            last_inserted = match res {
                Option::Some(h) => Option::Some(h),
                Option::None => last_inserted,
            };
            check = true;
        }
        match dom_node {
            Option::Some(dn) => Option::Some(dn),
            Option::None => last_inserted,
        }
    }

    /// Read the component's assigned DOM parent.
    fn dom_parent_of(&self, c: u32) -> (r: Option<HtmlElement>)
        requires
            self.live(c),
        ensures
            r == self.node_of(c).dom_parent,
    {
        match &self.components[c as usize] {
            Option::Some(node) => node.dom_parent,
            Option::None => {
                proof {
                    assert(false);
                }
                Option::None
            },
        }
    }

    /// The reconciliation pass over one component's subtree: no sibling
    /// checks at the root, no initial anchor.
    pub fn update_html(&self, doc: &mut HtmlDocument, c: u32, fuel: u32)
        requires
            self.wf(),
            old(doc).wf(),
            self.doc_ok(*old(doc)),
            self.allocated(c),
        ensures
            final(doc).wf(),
            self.doc_ok(*final(doc)),
            final(doc).n() == old(doc).n(),
            final(doc).body == old(doc).body,
            fuel == 0 || !self.live(c) ==> old(doc).doc_same(*final(doc)),
            fuel > 0 && self.live(c) && !self.visible_spec(c) ==> self.subtree_detached(
                *final(doc),
                c,
                (fuel - 1) as u32,
            ),
            (fuel > 0 && self.live(c) && self.visible_spec(c) && (match self.node_of(c).nodes {
                Option::Some(ns) => ns@.len() == 0,
                Option::None => true,
            })) ==> (match (self.node_of(c).kind.dom_node_spec(), self.node_of(c).dom_parent) {
                (Some(dn), Some(dp)) => (dn.ptr_spec() != dp.0) ==> ({
                    &&& final(doc).parent_of(dn.ptr_spec()) == Some(dp.0)
                    &&& (old(doc).parent_of(dn.ptr_spec()) == Some(dp.0) ==> old(doc).doc_same(
                        *final(doc),
                    ))
                    &&& (old(doc).parent_of(dn.ptr_spec()) != Some(dp.0) ==> final(doc).op_log()
                        == old(doc).op_log().push(
                        crate::html::SurfaceOp::InsertBefore {
                            parent: dp.0,
                            node: dn.ptr_spec(),
                            before: Option::None,
                        },
                    ))
                }),
                _ => true,
            }),
    {
        let _ = self.update_html_impl(doc, c, Option::None, false, fuel);
    }
}

/// Structural equality of optional node handles.
fn opt_node_eq(a: &Option<HtmlNode>, b: &Option<HtmlNode>) -> (r: bool)
    ensures
        r == (a == b),
{
    match (a, b) {
        (Option::None, Option::None) => true,
        (Option::Some(x), Option::Some(y)) => {
            let xe = match x {
                HtmlNode::Element(_) => true,
                HtmlNode::Text(_) => false,
            };
            let ye = match y {
                HtmlNode::Element(_) => true,
                HtmlNode::Text(_) => false,
            };
            xe == ye && x.ptr() == y.ptr()
        },
        _ => false,
    }
}

/// A marker used to pick quantifier instances for the single-consumer
/// propagation clause.
pub open spec fn trigger_consumer(k: u32, f: PullFn) -> bool {
    true
}

/// A marker used to pick quantifier instances for the frame-level
/// propagation clause.
pub open spec fn trigger_drain(p: u32, k: u32, f: PullFn, v: Value) -> bool {
    true
}

/// A marker used to pick quantifier instances for the flush clause.
pub open spec fn trigger_flush(n: u32) -> bool {
    true
}

/// A marker used to pick quantifier instances for the text-sync clause.
pub open spec fn trigger_text(td: crate::component::TextData) -> bool {
    true
}

/// A marker used to pick quantifier instances for the item-refresh clause.
pub open spec fn trigger_foreach(fd: crate::component::ForeachData) -> bool {
    true
}

/// A marker used to pick quantifier instances for the element-sync clause.
pub open spec fn trigger_element(d0: crate::component::HtmlData) -> bool {
    true
}

/// Whether the vector holds the identifier.
fn vec_contains_u32(v: &Vec<u32>, x: u32) -> (r: bool)
    ensures
        r == v@.contains(x),
{
    let mut k: usize = 0;
    while k < v.len()
        invariant
            k <= v@.len(),
            forall|j: int| 0 <= j < k ==> v@[j] != x,
        decreases v@.len() - k,
    {
        if v[k] == x {
            proof {
                assert(v@[k as int] == x);
            }
            return true;
        }
        k = k + 1;
    }
    false
}

impl ComponentSystem {
    /// The configuration of the flush law: the queue holds one component —
    /// possibly enqueued several times — that is clean, visible and already
    /// rendered, so its passes are observable only in the render counter,
    /// which must advance exactly once however often it was enqueued.
    pub open spec fn flush_clean_case(self, n: u32) -> bool {
        &&& self.render_queue@.len() >= 1
        &&& (forall|j: int|
            0 <= j < self.render_queue@.len() ==> #[trigger] self.render_queue@[j] == n)
        &&& self.live(n)
        &&& self.visible_spec(n)
        &&& self.node_of(n).nodes is Some
        &&& self.clean(n)
    }

    /// Flush the render queue: walk it in insertion order, skipping
    /// identifiers already processed in this flush, running the render pass
    /// and then the reconciliation pass for each; finally clear the pending
    /// flush token. Work enqueued during the flush stays queued for a later
    /// one.
    pub fn flush_render_queue(&mut self, doc: &mut HtmlDocument, fuel: u32)
        requires
            old(self).wf(),
            old(doc).wf(),
            old(self).doc_ok(*old(doc)),
        ensures
            final(self).wf(),
            final(doc).wf(),
            final(self).doc_ok(*final(doc)),
            evolves(*old(self), *final(self)),
            final(doc).n() == old(doc).n(),
            final(doc).body == old(doc).body,
            final(self).render_queue_frame is None,
            forall|n: u32|
                (fuel >= 2 && old(self).flush_clean_case(n) && #[trigger] trigger_flush(n)) ==> ({
                &&& final(self).live(n)
                &&& final(self).node_of(n).rc as int == (if old(self).node_of(n).rc < u32::MAX {
                    old(self).node_of(n).rc + 1
                } else {
                    old(self).node_of(n).rc as int
                })
                &&& final(self).render_queue@.len() == 0
            }),
    {
        let mut queue: Vec<u32> = Vec::new();
        std::mem::swap(&mut queue, &mut self.render_queue);
        let ghost entry = *self;
        let ghost entry_doc = *doc;
        proof {
            assert forall|c2: int|
                0 <= c2 < self.n() && self.components@[c2] is Some implies self.node_ok(
                (#[trigger] self.components@[c2])->0,
            ) by {
                assert(old(self).node_ok(old(self).components@[c2]->0));
            }
        }
        let mut rendered: Vec<u32> = Vec::new();
        let mut k: usize = 0;
        while k < queue.len()
            invariant
                self.wf(),
                doc.wf(),
                self.doc_ok(*doc),
                entry.wf(),
                old(self).wf(),
                evolves(entry, *self),
                doc.n() == entry_doc.n(),
                doc.body == entry_doc.body,
                queue@ == old(self).render_queue@,
                entry.components@ == old(self).components@,
                entry.binding_cells@ == old(self).binding_cells@,
                entry.vis_cells@ == old(self).vis_cells@,
                entry.render_queue@.len() == 0,
                forall|j: int| 0 <= j < queue@.len() ==> ((#[trigger] queue@[j]) as int) < entry.n(),
                k <= queue@.len(),
                forall|n: u32|
                    (fuel >= 2 && old(self).flush_clean_case(n) && #[trigger] trigger_flush(n))
                        ==> (if k == 0 {
                        self.components@ == entry.components@ && self.binding_cells@
                            == entry.binding_cells@ && self.vis_cells@ == entry.vis_cells@
                            && self.render_queue@.len() == 0 && rendered@.len() == 0
                    } else {
                        self.live(n) && self.node_of(n).rc as int == (if old(self).node_of(
                            n,
                        ).rc < u32::MAX {
                            old(self).node_of(n).rc + 1
                        } else {
                            old(self).node_of(n).rc as int
                        }) && self.render_queue@.len() == 0 && rendered@.contains(n)
                    }),
            decreases queue@.len() - k,
        {
            let node = queue[k];
            if !vec_contains_u32(&rendered, node) {
                rendered.push(node);
                if self.is_live(node) {
                    let ghost it0 = *self;
                    let ghost it0_doc = *doc;
                    self.render_component(doc, node, fuel);
                    let ghost it1 = *self;
                    if self.is_live(node) {
                        self.update_html(doc, node, fuel);
                    }
                    proof {
                        lemma_evolves_trans(entry, it0, it1);
                        lemma_evolves_trans(entry, it1, *self);
                        assert forall|n: u32|
                            (fuel >= 2 && old(self).flush_clean_case(n) && #[trigger]
                            trigger_flush(n)) implies self.live(n) && self.node_of(n).rc as int
                            == (if old(self).node_of(n).rc < u32::MAX {
                            old(self).node_of(n).rc + 1
                        } else {
                            old(self).node_of(n).rc as int
                        }) && self.render_queue@.len() == 0 && rendered@.contains(n) by {
                            assert(k == 0);
                            assert(node == n);
                            assert(it0.components@[n as int] == old(self).components@[n as int]);
                            assert(it0.visible_spec(n) == old(self).visible_spec(n));
                            assert(it0.clean(n)) by {
                                match old(self).node_of(n).props.binding {
                                    Option::Some(b) => {
                                        assert(it0.components@[b.producer as int] == old(
                                            self,
                                        ).components@[b.producer as int]);
                                        assert(it0.binding_pull_spec(n) == old(
                                            self,
                                        ).binding_pull_spec(n));
                                    },
                                    Option::None => {},
                                }
                            }
                            assert(it1.node_of(n).rc as int == (if it0.node_of(n).rc < u32::MAX {
                                it0.node_of(n).rc + 1
                            } else {
                                it0.node_of(n).rc as int
                            }));
                            assert(self.components@ == it1.components@);
                            assert(rendered@.last() == n);
                        }
                    }
                } else {
                    proof {
                        assert forall|n: u32|
                            (fuel >= 2 && old(self).flush_clean_case(n) && #[trigger]
                            trigger_flush(n)) implies false by {
                            assert(k == 0);
                            assert(node == n);
                            assert(self.components@[n as int] == old(self).components@[n as int]);
                        }
                    }
                }
            } else {
                proof {
                    assert forall|n: u32|
                        (fuel >= 2 && old(self).flush_clean_case(n) && #[trigger] trigger_flush(
                        n)) implies rendered@.len() > 0 by {
                    }
                }
            }
            k = k + 1;
        }
        self.render_queue_frame = Option::None;
        proof {
            assert forall|c2: int|
                0 <= c2 < self.n() && self.components@[c2] is Some implies self.node_ok(
                (#[trigger] self.components@[c2])->0,
            ) by {
            }
        }
    }

    /// Run one rendering opportunity: every frame callback registered so far
    /// fires once, in registration order — each state drain applies the last
    /// pending value through a synchronous update pass, and each flush drains
    /// the render queue. Callbacks registered while the frame runs wait for
    /// the next one.
    pub fn run_frame(&mut self, doc: &mut HtmlDocument, fuel: u32)
        requires
            old(self).wf(),
            old(doc).wf(),
            old(self).doc_ok(*old(doc)),
        ensures
            final(self).wf(),
            final(doc).wf(),
            final(self).doc_ok(*final(doc)),
            evolves(*old(self), *final(self)),
            final(doc).n() == old(doc).n(),
            final(doc).body == old(doc).body,
            forall|p: u32|
                (old(self).frame_tasks@.len() == 1 && old(self).frame_tasks@[0]
                    == FrameTask::StateDrain(p) && !old(self).live(p) && #[trigger] trigger_flush(
                    p,
                )) ==> final(self).components@ == old(self).components@ && old(doc).doc_same(
                    *final(doc),
                ),
            forall|p: u32, k: u32, f: PullFn, v: Value|
                old(self).single_drain_case(p, k, f, v, fuel) && #[trigger] trigger_drain(
                    p,
                    k,
                    f,
                    v,
                ) ==> final(self).live(k) && final(self).props_of(k)
                    == crate::cells::resolved_value(
                    old(self).node_of(k).props,
                    eval_pull_spec(
                        f,
                        old(self).props_of(p),
                        crate::cells::resolved_value(
                            old(self).node_of(p).state.cell,
                            Option::Some(v),
                        ),
                    ),
                ),
    {
        let mut tasks: Vec<FrameTask> = Vec::new();
        std::mem::swap(&mut tasks, &mut self.frame_tasks);
        let ghost entry = *self;
        let ghost entry_doc = *doc;
        proof {
            assert forall|c2: int|
                0 <= c2 < self.n() && self.components@[c2] is Some implies self.node_ok(
                (#[trigger] self.components@[c2])->0,
            ) by {
                assert(old(self).node_ok(old(self).components@[c2]->0));
            }
            assert(forall|k: int|
                0 <= k < tasks@.len() ==> (match #[trigger] tasks@[k] {
                    FrameTask::StateDrain(c) => (c as int) < entry.n(),
                    FrameTask::RenderFlush => true,
                }));
        }
        proof {
            assert(entry.components@ == old(self).components@);
            assert(entry.binding_cells@ == old(self).binding_cells@);
            assert(entry.vis_cells@ == old(self).vis_cells@);
        }
        let mut k: usize = 0;
        while k < tasks.len()
            invariant
                self.wf(),
                doc.wf(),
                self.doc_ok(*doc),
                entry.wf(),
                old(self).wf(),
                evolves(entry, *self),
                doc.n() == entry_doc.n(),
                doc.body == entry_doc.body,
                tasks@ == old(self).frame_tasks@,
                entry.components@ == old(self).components@,
                entry.binding_cells@ == old(self).binding_cells@,
                entry.vis_cells@ == old(self).vis_cells@,
                forall|j: int|
                    0 <= j < tasks@.len() ==> (match #[trigger] tasks@[j] {
                        FrameTask::StateDrain(c) => (c as int) < entry.n(),
                        FrameTask::RenderFlush => true,
                    }),
                k <= tasks@.len(),
                forall|pp: u32|
                    (old(self).frame_tasks@.len() == 1 && old(self).frame_tasks@[0]
                        == FrameTask::StateDrain(pp) && !old(self).live(pp)
                        && #[trigger] trigger_flush(pp)) ==> self.components@ == old(
                        self,
                    ).components@ && entry_doc.doc_same(*doc),
                forall|pp: u32, kk: u32, ff: PullFn, vv: Value|
                    old(self).single_drain_case(pp, kk, ff, vv, fuel) && #[trigger] trigger_drain(
                        pp,
                        kk,
                        ff,
                        vv,
                    ) ==> (if k == 0 {
                        self.components@ == entry.components@ && self.binding_cells@
                            == entry.binding_cells@ && self.vis_cells@ == entry.vis_cells@
                    } else {
                        self.live(kk) && self.props_of(kk) == crate::cells::resolved_value(
                            old(self).node_of(kk).props,
                            eval_pull_spec(
                                ff,
                                old(self).props_of(pp),
                                crate::cells::resolved_value(
                                    old(self).node_of(pp).state.cell,
                                    Option::Some(vv),
                                ),
                            ),
                        )
                    }),
            decreases tasks@.len() - k,
        {
            let task = tasks[k];
            match task {
                FrameTask::StateDrain(c) => {
                    if self.is_live(c) {
                        let ghost pre_drain = *self;
                        let pending = self.drain_state_next(c);
                        let ghost it0 = *self;
                        let ghost it0_doc = *doc;
                        match pending {
                            Option::Some(v) => {
                                let _ = self.update_component(
                                    doc,
                                    c,
                                    Option::None,
                                    Option::Some(v),
                                    fuel,
                                );
                                proof {
                                    lemma_evolves_trans(entry, it0, *self);
                                    assert forall|pp: u32, kk: u32, ff: PullFn, vv: Value|
                                        old(self).single_drain_case(pp, kk, ff, vv, fuel)
                                            && #[trigger] trigger_drain(pp, kk, ff, vv) implies self
                                        .live(kk) && self.props_of(kk)
                                        == crate::cells::resolved_value(
                                        old(self).node_of(kk).props,
                                        eval_pull_spec(
                                            ff,
                                            old(self).props_of(pp),
                                            crate::cells::resolved_value(
                                                old(self).node_of(pp).state.cell,
                                                Option::Some(vv),
                                            ),
                                        ),
                                    ) by {
                                        assert(k == 0);
                                        assert(pp == c);
                                        assert(pre_drain.components@ == old(self).components@);
                                        assert(vv == v);
                                        assert(kk != pp);
                                        assert(it0.components@[kk as int] == old(
                                            self,
                                        ).components@[kk as int]);
                                        assert(it0.components@[pp as int] is Some);
                                        assert(it0.node_of(pp).props == old(self).node_of(
                                            pp,
                                        ).props);
                                        assert(it0.node_of(pp).state.cell == old(self).node_of(
                                            pp,
                                        ).state.cell);
                                        assert(it0.node_of(pp).desc@ == old(self).node_of(
                                            pp,
                                        ).desc@);
                                        assert(it0.binding_cells@ == old(self).binding_cells@);
                                        assert(it0.vis_cells@ == old(self).vis_cells@);
                                        assert(it0.single_consumer(pp, kk, ff));
                                        assert(!it0.node_of(pp).updating);
                                        assert(it0.visible_spec(pp) == old(self).visible_spec(pp));
                                        assert(it0.props_candidate_stable(
                                            pp,
                                            Option::None::<Value>,
                                        ));
                                        assert(it0.update_changed_spec(
                                            pp,
                                            Option::None::<Value>,
                                            Option::Some(vv),
                                        ));
                                        assert(it0.props_candidate(pp, Option::None::<Value>)
                                            is None);
                                        assert(crate::cells::resolved_value(
                                            it0.node_of(pp).props,
                                            it0.props_candidate(pp, Option::None::<Value>),
                                        ) == old(self).props_of(pp));
                                        assert(it0.node_of(pp).kind is Plain);
                                        assert(trigger_consumer(kk, ff));
                                        assert(self.live(kk) && self.props_of(kk)
                                            == crate::cells::resolved_value(
                                            it0.node_of(kk).props,
                                            eval_pull_spec(
                                                ff,
                                                crate::cells::resolved_value(
                                                    it0.node_of(pp).props,
                                                    it0.props_candidate(
                                                        pp,
                                                        Option::None::<Value>,
                                                    ),
                                                ),
                                                crate::cells::resolved_value(
                                                    it0.node_of(pp).state.cell,
                                                    Option::Some(vv),
                                                ),
                                            ),
                                        ));
                                    }
                                }
                            },
                            Option::None => {
                                proof {
                                    lemma_evolves_from_only(it0, *self, c);
                                    lemma_evolves_trans(entry, it0, *self);
                                    assert forall|pp: u32, kk: u32, ff: PullFn, vv: Value|
                                        old(self).single_drain_case(pp, kk, ff, vv, fuel)
                                            && #[trigger] trigger_drain(pp, kk, ff, vv)
                                        implies false by {
                                        assert(k == 0);
                                        assert(pp == c);
                                        assert(pre_drain.components@[pp as int] == old(
                                            self,
                                        ).components@[pp as int]);
                                    }
                                }
                            },
                        }
                    } else {
                        proof {
                            assert forall|pp: u32, kk: u32, ff: PullFn, vv: Value|
                                old(self).single_drain_case(pp, kk, ff, vv, fuel)
                                    && #[trigger] trigger_drain(pp, kk, ff, vv) implies false by {
                                assert(k == 0);
                                assert(pp == c);
                                assert(self.components@[pp as int] == old(
                                    self,
                                ).components@[pp as int]);
                            }
                        }
                    }
                },
                FrameTask::RenderFlush => {
                    let ghost it0 = *self;
                    self.flush_render_queue(doc, fuel);
                    proof {
                        lemma_evolves_trans(entry, it0, *self);
                        assert forall|pp: u32, kk: u32, ff: PullFn, vv: Value|
                            old(self).single_drain_case(pp, kk, ff, vv, fuel)
                                && #[trigger] trigger_drain(pp, kk, ff, vv) implies false by {
                            assert(tasks@[0] == FrameTask::StateDrain(pp));
                            assert(tasks@[k as int] == FrameTask::RenderFlush);
                            assert(k == 0);
                        }
                    }
                },
            }
            k = k + 1;
        }
    }

    /// Mount a component onto a real document element: register the root,
    /// make the target the component's DOM parent, make it visible and
    /// request its first render.
    pub fn mount_component(
        &mut self,
        doc: &mut HtmlDocument,
        dom_target: &HtmlElement,
        node: AnyComponent,
        fuel: u32,
    )
        requires
            old(self).wf(),
            old(doc).wf(),
            old(self).doc_ok(*old(doc)),
            old(self).live(node.0),
            old(doc).valid(dom_target.0),
            !old(doc).is_text_node(dom_target.0),
        ensures
            final(self).wf(),
            final(doc).wf(),
            final(self).doc_ok(*final(doc)),
            final(self).live(node.0),
            fuel > 0 ==> final(self).visible_spec(node.0),
            final(self).node_of(node.0).dom_parent == Some(*dom_target),
            final(self).render_queue@.len() == old(self).render_queue@.len() + 1,
            final(self).render_queue@.last() == node.0,
            final(self).render_queue_frame is Some,
            final(self).dom_roots@ == old(self).dom_roots@.push((*dom_target, node.0)),
            old(doc).doc_same(*final(doc)),
    {
        self.dom_roots.push((*dom_target, node.0));
        proof {
            assert forall|c2: int|
                0 <= c2 < self.n() && self.components@[c2] is Some implies self.node_ok(
                (#[trigger] self.components@[c2])->0,
            ) by {
                assert(old(self).node_ok(old(self).components@[c2]->0));
            }
        }
        self.set_dom_parent_impl(node.0, *dom_target, Ghost(*doc));
        self.set_visible_impl(node.0, true, fuel);
        self.request_render(&node);
    }

    /// Deliver an event to a listener: interpret the callback's action. An
    /// absent action does nothing.
    pub fn dispatch_callback(&mut self, doc: &HtmlDocument, cb: &Callback, event: &HtmlEvent)
        requires
            old(self).wf(),
            doc.wf(),
            doc.valid(event.target.0),
        ensures
            final(self).wf(),
            final(self).n() == old(self).n(),
            match cb.action {
                Option::None => sys_same(*old(self), *final(self)),
                Option::Some(EventAction::SetStateFromTarget { component }) => {
                    if old(self).live(component) {
                        final(self).node_of(component).state.next_value == Some(
                            Value::Str(doc.nodes@[event.target.0 as int].value_prop),
                        )
                    } else {
                        sys_same(*old(self), *final(self))
                    }
                },
                Option::Some(EventAction::SetStateText { component, text }) => {
                    if old(self).live(component) {
                        final(self).node_of(component).state.next_value == Some(Value::Str(text))
                    } else {
                        sys_same(*old(self), *final(self))
                    }
                },
            },
    {
        match &cb.action {
            Option::None => {},
            Option::Some(EventAction::SetStateFromTarget { component }) => {
                let component = *component;
                if ((component as usize) < self.components.len()) && self.is_live(component) {
                    let v = event.target.get_value(doc);
                    self.set_state(component, Value::Str(v));
                } else {
                }
            },
            Option::Some(EventAction::SetStateText { component, text }) => {
                let component = *component;
                if ((component as usize) < self.components.len()) && self.is_live(component) {
                    let text = text.clone();
                    self.set_state(component, Value::Str(text));
                } else {
                }
            },
        }
    }

    /// Fire a named event at an element: its attached listener (if any)
    /// receives an event targeting the element.
    pub fn fire_event(&mut self, doc: &HtmlDocument, target: &HtmlElement, event_name: EventName)
        requires
            old(self).wf(),
            doc.wf(),
            doc.valid(target.0),
        ensures
            final(self).wf(),
            final(self).n() == old(self).n(),
            ({
                let listener = match event_name {
                    EventName::Click => doc.nodes@[target.0 as int].listeners.click,
                    EventName::Input => doc.nodes@[target.0 as int].listeners.input,
                    EventName::Change => doc.nodes@[target.0 as int].listeners.change,
                };
                match listener.action {
                    Option::None => sys_same(*old(self), *final(self)),
                    Option::Some(EventAction::SetStateFromTarget { component }) => {
                        if old(self).live(component) {
                            final(self).node_of(component).state.next_value == Some(
                                Value::Str(doc.nodes@[target.0 as int].value_prop),
                            )
                        } else {
                            sys_same(*old(self), *final(self))
                        }
                    },
                    Option::Some(EventAction::SetStateText { component, text }) => {
                        if old(self).live(component) {
                            final(self).node_of(component).state.next_value == Some(
                                Value::Str(text),
                            )
                        } else {
                            sys_same(*old(self), *final(self))
                        }
                    },
                }
            }),
    {
        let cb: Callback = match event_name {
            EventName::Click => doc.nodes[target.0].listeners.click.clone(),
            EventName::Input => doc.nodes[target.0].listeners.input.clone(),
            EventName::Change => doc.nodes[target.0].listeners.change.clone(),
        };
        let event = HtmlEvent { target: *target, default_prevented: false };
        self.dispatch_callback(doc, &cb, &event);
    }
}

impl AnyComponent {
    /// Run one update pass with no explicit values; see
    /// [`ComponentSystem::update_component`].
    pub fn update(&self, sys: &mut ComponentSystem, doc: &mut HtmlDocument, fuel: u32) -> (changed:
        bool)
        requires
            old(sys).wf(),
            old(doc).wf(),
            old(sys).doc_ok(*old(doc)),
            old(sys).live(self.0),
        ensures
            final(sys).wf(),
            final(doc).wf(),
            final(sys).doc_ok(*final(doc)),
            evolves(*old(sys), *final(sys)),
            old(doc).structure_eq(*final(doc)),
            fuel == 0 ==> !changed && sys_same(*old(sys), *final(sys)) && old(doc).doc_same(
                *final(doc),
            ),
            fuel > 0 && old(sys).node_of(self.0).updating ==> !changed && sys_same(
                *old(sys),
                *final(sys),
            ) && old(doc).doc_same(*final(doc)),
            fuel > 0 && !old(sys).node_of(self.0).updating && !old(sys).visible_spec(self.0)
                ==> ({
                &&& !changed
                &&& old(doc).doc_same(*final(doc))
                &&& only_component_changed(*old(sys), *final(sys), self.0)
                &&& final(sys).node_of(self.0).props == old(sys).node_of(self.0).props
                &&& final(sys).node_of(self.0).state == old(sys).node_of(self.0).state
                &&& !final(sys).node_of(self.0).inserted
            }),
            fuel > 0 && !old(sys).node_of(self.0).updating && old(sys).visible_spec(self.0) ==> ({
                let node = old(sys).node_of(self.0);
                let new_node = final(sys).node_of(self.0);
                &&& final(sys).live(self.0)
                &&& new_node.state.cell.value == node.state.cell.value
                &&& new_node.inserted
                &&& !new_node.updating
                &&& (old(sys).props_candidate_stable(self.0, Option::None) ==> {
                    &&& new_node.props.value == crate::cells::resolved_value(
                        node.props,
                        old(sys).props_candidate(self.0, Option::None),
                    )
                    &&& changed == old(sys).update_changed_spec(
                        self.0,
                        Option::None,
                        Option::None,
                    )
                })
            }),
    {
        sys.update_component(doc, self.0, Option::None, Option::None, fuel)
    }

    /// Run the component's render rule, caching and returning the fresh
    /// child-node list; see [`ComponentSystem::render_component`] for the
    /// full pass.
    pub fn render(&self, sys: &mut ComponentSystem, doc: &mut HtmlDocument, fuel: u32) -> (r: Vec<
        AnyComponent,
    >)
        requires
            old(sys).wf(),
            old(doc).wf(),
            old(sys).doc_ok(*old(doc)),
            old(sys).live(self.0),
        ensures
            final(sys).wf(),
            final(doc).wf(),
            final(sys).doc_ok(*final(doc)),
            evolves(*old(sys), *final(sys)),
            final(sys).live(self.0),
            final(sys).node_of(self.0).nodes is Some,
            r@.len() == final(sys).node_of(self.0).nodes->0@.len(),
            forall|k: int|
                0 <= k < r@.len() ==> (#[trigger] r@[k]).0 == final(sys).node_of(
                    self.0,
                ).nodes->0@[k],
            fuel > 0 ==> (match old(sys).node_of(self.0).kind {
                ComponentKind::Slot => (match old(sys).props_of(self.0) {
                    Value::Slot(sp) => final(sys).node_of(self.0).nodes->0@ == old(
                        sys,
                    ).comp_list_of(sp.components),
                    _ => final(sys).node_of(self.0).nodes->0@.len() == 0,
                }),
                ComponentKind::Html(_) | ComponentKind::ForeachItem => final(sys).node_of(
                    self.0,
                ).nodes->0@ == old(sys).node_of(self.0).children@,
                ComponentKind::Cond => true,
                _ => final(sys).node_of(self.0).nodes->0@.len() == 0,
            }),
    {
        sys.render_expand(doc, self.0, fuel);
        let ns = match sys.nodes_copy(self.0) {
            Option::Some(ns) => ns,
            Option::None => Vec::new(),
        };
        let mut r: Vec<AnyComponent> = Vec::new();
        let mut k: usize = 0;
        while k < ns.len()
            invariant
                k <= ns@.len(),
                r@.len() == k as int,
                forall|j: int| 0 <= j < k ==> (#[trigger] r@[j]).0 == ns@[j],
            decreases ns@.len() - k,
        {
            r.push(AnyComponent(ns[k]));
            k = k + 1;
        }
        r
    }
}

impl Component {
    /// Pull this component's props from `producer` through `f`: any existing
    /// binding is detached, the new edge is registered, and the component is
    /// updated once immediately so its initial value is populated
    /// synchronously.
    pub fn bind(
        &self,
        sys: &mut ComponentSystem,
        doc: &mut HtmlDocument,
        producer: &Component,
        f: PullFn,
        fuel: u32,
    )
        requires
            old(sys).wf(),
            old(doc).wf(),
            old(sys).doc_ok(*old(doc)),
            old(sys).live(self.0),
            old(sys).live(producer.0),
            !old(sys).node_of(self.0).updating,
            !(old(sys).node_of(producer.0).kind is ForeachItem),
            old(sys).binding_cells@.len() < u32::MAX,
            pull_refs_ok(
                f,
                old(sys).comp_lists@.len() as int,
                old(sys).value_lists@.len() as int,
            ),
        ensures
            final(sys).wf(),
            final(doc).wf(),
            final(sys).doc_ok(*final(doc)),
            evolves(*old(sys), *final(sys)),
            final(sys).live(self.0),
            final(sys).node_of(self.0).props.binding == Some(
                Binding { producer: producer.0, f },
            ),
            final(sys).node_of(self.0).binding_cell == Some(
                old(sys).binding_cells@.len() as u32,
            ),
            (fuel >= 3 && producer.0 != self.0 && old(sys).node_of(self.0).kind is Plain && old(
                sys,
            ).node_of(self.0).desc@.len() == 0) ==> ({
                let cell = old(sys).binding_cells@.len() as u32;
                let pulled = eval_pull_spec(
                    f,
                    old(sys).props_of(producer.0),
                    old(sys).state_of(producer.0),
                );
                &&& final(sys).binding_cells@[cell as int] == Some(self.0)
                &&& final(sys).node_of(producer.0).desc@ == old(sys).node_of(
                    producer.0,
                ).desc@.push(cell)
                &&& (old(sys).visible_spec(self.0) ==> final(sys).props_of(self.0) == (
                match pulled {
                    Some(v) => if !crate::values::value_eq_spec(v, old(sys).props_of(self.0)) {
                        v
                    } else {
                        old(sys).props_of(self.0)
                    },
                    None => old(sys).props_of(self.0),
                }))
            }),
    {
        sys.bind_impl(doc, self.0, producer.0, f, fuel);
    }

    /// Detach the component's binding: the cell registered with its producer
    /// goes dead and is pruned on the producer's next update pass.
    pub fn unbind(&self, sys: &mut ComponentSystem)
        requires
            old(sys).wf(),
            old(sys).live(self.0),
        ensures
            final(sys).wf(),
            final(sys).live(self.0),
            final(sys).n() == old(sys).n(),
            final(sys).node_of(self.0).props.binding is None,
            final(sys).node_of(self.0).binding_cell is None,
            match old(sys).node_of(self.0).binding_cell {
                Some(cell) => final(sys).binding_cells@ == old(sys).binding_cells@.update(
                    cell as int,
                    None::<u32>,
                ),
                None => final(sys).binding_cells@ == old(sys).binding_cells@,
            },
            forall|j: int|
                0 <= j < old(sys).n() && j != self.0 as int ==> final(sys).components@[j] == old(
                    sys,
                ).components@[j],
    {
        let old_cell: Option<u32> = match &sys.components[self.0 as usize] {
            Option::Some(node) => node.binding_cell,
            Option::None => {
                proof {
                    assert(false);
                }
                Option::None
            },
        };
        proof {
            assert(old(sys).node_ok(old(sys).node_of(self.0)));
        }
        match old_cell {
            Option::Some(cell) => {
                sys.invalidate_binding_cell(cell);
            },
            Option::None => {},
        }
        sys.set_binding(self.0, Option::None, Option::None);
    }

    /// Run one update pass with explicit values; see
    /// [`ComponentSystem::update_component`].
    pub fn update(
        &self,
        sys: &mut ComponentSystem,
        doc: &mut HtmlDocument,
        new_props: Option<Value>,
        new_state: Option<Value>,
        fuel: u32,
    ) -> (changed: bool)
        requires
            old(sys).wf(),
            old(doc).wf(),
            old(sys).doc_ok(*old(doc)),
            old(sys).live(self.0),
            match new_props {
                Some(v) => value_refs_ok(
                    v,
                    old(sys).comp_lists@.len() as int,
                    old(sys).value_lists@.len() as int,
                ),
                None => true,
            },
            match new_state {
                Some(v) => value_refs_ok(
                    v,
                    old(sys).comp_lists@.len() as int,
                    old(sys).value_lists@.len() as int,
                ),
                None => true,
            },
        ensures
            final(sys).wf(),
            final(doc).wf(),
            final(sys).doc_ok(*final(doc)),
            evolves(*old(sys), *final(sys)),
    {
        sys.update_component(doc, self.0, new_props, new_state, fuel)
    }
}

/// Confinement to one component whose guarded-relevant fields survive gives
/// stability of every guarded component.
pub proof fn lemma_guarded_from_confined(a: ComponentSystem, b: ComponentSystem, c: u32)
    requires
        b.n() == a.n(),
        forall|j: int| 0 <= j < a.n() && j != c as int ==> b.components@[j] == a.components@[j],
        (a.allocated(c) && a.components@[c as int] is Some
            && a.components@[c as int]->0.updating) ==> {
            &&& b.components@[c as int] is Some
            &&& b.components@[c as int]->0.props == a.components@[c as int]->0.props
            &&& b.components@[c as int]->0.state.cell == a.components@[c as int]->0.state.cell
            &&& b.components@[c as int]->0.updating
            &&& b.components@[c as int]->0.inserted == a.components@[c as int]->0.inserted
            &&& b.components@[c as int]->0.binding_cell == a.components@[c as int]->0.binding_cell
            &&& b.components@[c as int]->0.children == a.components@[c as int]->0.children
        },
    ensures
        guarded_cells_stable(a, b),
{
    assert forall|j: int|
        0 <= j < a.n() && a.components@[j] is Some && a.components@[j]->0.updating implies {
        &&& (#[trigger] b.components@[j]) is Some
        &&& b.components@[j]->0.props == a.components@[j]->0.props
        &&& b.components@[j]->0.state.cell == a.components@[j]->0.state.cell
        &&& b.components@[j]->0.updating
        &&& b.components@[j]->0.inserted == a.components@[j]->0.inserted
        &&& b.components@[j]->0.binding_cell == a.components@[j]->0.binding_cell
        &&& b.components@[j]->0.children == a.components@[j]->0.children
    } by {
        if j != c as int {
            assert(b.components@[j] == a.components@[j]);
        }
    }
}

/// Confinement to one still-live component gives allocation-only evolution.
pub proof fn lemma_evolves_from_only(a: ComponentSystem, b: ComponentSystem, c: u32)
    requires
        only_component_changed(a, b, c),
        a.components@[c as int] is Some ==> b.components@[c as int] is Some,
    ensures
        evolves(a, b),
{
    assert forall|j: int|
        0 <= j < a.n() && a.components@[j] is Some implies (#[trigger] b.components@[j]) is Some by {
        if j != c as int {
            assert(b.components@[j] == a.components@[j]);
        }
    }
}

/// Allocation-only evolution composes.
pub proof fn lemma_evolves_trans(a: ComponentSystem, b: ComponentSystem, c: ComponentSystem)
    requires
        evolves(a, b),
        evolves(b, c),
    ensures
        evolves(a, c),
{
    assert forall|j: int|
        0 <= j < a.n() && a.components@[j] is Some implies (#[trigger] c.components@[j]) is Some by {
        assert(b.components@[j] is Some);
    }
}

/// Stability of guarded components composes.
pub proof fn lemma_guarded_trans(a: ComponentSystem, b: ComponentSystem, c: ComponentSystem)
    requires
        guarded_cells_stable(a, b),
        guarded_cells_stable(b, c),
        a.n() <= b.n(),
    ensures
        guarded_cells_stable(a, c),
{
    assert forall|j: int|
        0 <= j < a.n() && a.components@[j] is Some && a.components@[j]->0.updating implies {
        &&& (#[trigger] c.components@[j]) is Some
        &&& c.components@[j]->0.props == a.components@[j]->0.props
        &&& c.components@[j]->0.state.cell == a.components@[j]->0.state.cell
        &&& c.components@[j]->0.updating
        &&& c.components@[j]->0.inserted == a.components@[j]->0.inserted
        &&& c.components@[j]->0.binding_cell == a.components@[j]->0.binding_cell
        &&& c.components@[j]->0.children == a.components@[j]->0.children
    } by {
        assert(b.components@[j] is Some && b.components@[j]->0.updating);
    }
}

/// The two systems agree on everything but the component-list table, which
/// has only grown.
pub open spec fn same_but_comp_lists(a: ComponentSystem, b: ComponentSystem) -> bool {
    &&& b.components@ == a.components@
    &&& b.vis_cells@ == a.vis_cells@
    &&& b.binding_cells@ == a.binding_cells@
    &&& b.comp_lists@.len() >= a.comp_lists@.len()
    &&& forall|l: int| 0 <= l < a.comp_lists@.len() ==> b.comp_lists@[l] == a.comp_lists@[l]
    &&& b.value_lists@ == a.value_lists@
    &&& b.render_queue@ == a.render_queue@
    &&& b.render_queue_frame == a.render_queue_frame
    &&& b.frame_tasks@ == a.frame_tasks@
    &&& b.dom_roots@ == a.dom_roots@
    &&& b.frame_counter == a.frame_counter
    &&& b.callback_counter == a.callback_counter
}

/// The two systems agree on everything but the value-list table, which has
/// only grown.
pub open spec fn same_but_value_lists(a: ComponentSystem, b: ComponentSystem) -> bool {
    &&& b.components@ == a.components@
    &&& b.vis_cells@ == a.vis_cells@
    &&& b.binding_cells@ == a.binding_cells@
    &&& b.comp_lists@ == a.comp_lists@
    &&& b.value_lists@.len() >= a.value_lists@.len()
    &&& forall|l: int| 0 <= l < a.value_lists@.len() ==> b.value_lists@[l] == a.value_lists@[l]
    &&& b.render_queue@ == a.render_queue@
    &&& b.render_queue_frame == a.render_queue_frame
    &&& b.frame_tasks@ == a.frame_tasks@
    &&& b.dom_roots@ == a.dom_roots@
    &&& b.frame_counter == a.frame_counter
    &&& b.callback_counter == a.callback_counter
}

/// In-range references stay in range when the tables only grow and nothing
/// else moves.
proof fn lemma_grown_tables_wf(a: ComponentSystem, b: ComponentSystem)
    requires
        a.wf(),
        b.components@ == a.components@,
        b.vis_cells@ == a.vis_cells@,
        b.binding_cells@ == a.binding_cells@,
        b.comp_lists@.len() >= a.comp_lists@.len(),
        forall|l: int| 0 <= l < a.comp_lists@.len() ==> b.comp_lists@[l] == a.comp_lists@[l],
        forall|l: int, k: int|
            a.comp_lists@.len() <= l < b.comp_lists@.len() && 0 <= k < b.comp_lists@[l].len()
                ==> ((#[trigger] b.comp_lists@[l][k]) as int) < a.n(),
        b.value_lists@.len() >= a.value_lists@.len(),
        forall|l: int| 0 <= l < a.value_lists@.len() ==> b.value_lists@[l] == a.value_lists@[l],
        forall|l: int, k: int|
            a.value_lists@.len() <= l < b.value_lists@.len() && 0 <= k < b.value_lists@[l].len()
                ==> value_refs_ok(
                #[trigger] b.value_lists@[l][k],
                a.comp_lists@.len() as int,
                a.value_lists@.len() as int,
            ),
        b.render_queue@ == a.render_queue@,
        b.frame_tasks@ == a.frame_tasks@,
    ensures
        b.wf(),
{
    assert(b.n() == a.n());
    lemma_value_refs_ok_monotone(a.comp_lists@.len() as int, a.value_lists@.len() as int);
    assert forall|c: int|
        0 <= c < b.n() && b.components@[c] is Some implies b.node_ok(
        (#[trigger] b.components@[c])->0,
    ) by {
        assert(a.components@[c] is Some);
        let node = a.components@[c]->0;
        assert(a.node_ok(node));
        assert(b.node_ok(node));
    }
}

/// A value whose references resolve in tables of some size still resolves in
/// larger tables; stated as an ambient fact over all values.
proof fn lemma_value_refs_ok_monotone(cl: int, vl: int)
    ensures
        forall|v: Value, cl2: int, vl2: int|
            value_refs_ok(v, cl, vl) && cl2 >= cl && vl2 >= vl ==> #[trigger] value_refs_ok(
                v,
                cl2,
                vl2,
            ),
        forall|f: PullFn, cl2: int, vl2: int|
            pull_refs_ok(f, cl, vl) && cl2 >= cl && vl2 >= vl ==> #[trigger] pull_refs_ok(
                f,
                cl2,
                vl2,
            ),
{
}

} // verus!
