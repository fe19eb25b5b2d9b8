//! The rendering surface: an in-memory document tree.
//!
//! The engine treats the surface as an abstract capability; this module gives
//! it a concrete, fully specified model. Nodes live in an arena; `HtmlElement`
//! and `HtmlTextNode` are handles (indices) into it. Every mutating operation
//! appends a record to the document's operation log, so contracts and tests
//! can speak about exactly which surface mutations a pass performed.
//!
//! Model choices, stated once here: containment is the direct parent
//! relation (the engine always places an owned node directly under its
//! intended parent, so the direct check coincides with the document's
//! inclusive-descendant query on every tree the engine produces); an
//! insertion that a real document would reject (inserting an element into
//! itself, or before a sibling that is not a child of the target) leaves the
//! document unchanged; removing a detached node is a no-op and is not logged.

use vstd::prelude::*;

use crate::values::{Callback, HtmlEvents, HtmlStyle};

verus! {

/// Handle of an element node.
#[derive(Clone, Copy, PartialEq, Eq, Structural, Debug)]
pub struct HtmlElement(pub usize);

/// Handle of a text node.
#[derive(Clone, Copy, PartialEq, Eq, Structural, Debug)]
pub struct HtmlTextNode(pub usize);

/// Handle of either kind of node.
#[derive(Clone, Copy, PartialEq, Eq, Structural, Debug)]
pub enum HtmlNode {
    Text(HtmlTextNode),
    Element(HtmlElement),
}

/// Token of one scheduled frame callback.
#[derive(Clone, Copy, PartialEq, Eq, Structural, Debug)]
pub struct AnimationFrame(pub usize);

/// An event delivered to a listener: the element it targets and whether its
/// default behaviour has been suppressed.
#[derive(Clone, Copy, PartialEq, Eq, Structural, Debug)]
pub struct HtmlEvent {
    pub target: HtmlElement,
    pub default_prevented: bool,
}

/// A named attribute an element component manages.
#[derive(Clone, Copy, PartialEq, Eq, Structural, Debug)]
pub enum Attr {
    Id,
    Class,
    Style,
    Href,
    Target,
}

/// An inline style property.
#[derive(Clone, Copy, PartialEq, Eq, Structural, Debug)]
pub enum StyleProp {
    Color,
    Background,
    Border,
    Cursor,
    FontSize,
}

/// An event name listeners can be attached under.
#[derive(Clone, Copy, PartialEq, Eq, Structural, Debug)]
pub enum EventName {
    Click,
    Input,
    Change,
}

/// One recorded surface mutation.
#[derive(Clone, PartialEq, Eq, Debug)]
pub enum SurfaceOp {
    CreateElement { node: usize },
    CreateText { node: usize },
    SetText { node: usize, text: String },
    SetAttr { node: usize, attr: Attr, value: String },
    RemoveAttr { node: usize, attr: Attr },
    SetStyleProperty { node: usize, property: StyleProp, value: String },
    SetValue { node: usize, value: String },
    AddListener { node: usize, event: EventName, listener: usize },
    RemoveListener { node: usize, event: EventName, listener: usize },
    InsertBefore { parent: usize, node: usize, before: Option<usize> },
    Remove { node: usize },
}

/// One node of the document tree.
#[derive(Debug)]
#[verifier::ext_equal]
pub struct DomNode {
    pub is_text: bool,
    pub tag: String,
    pub text: String,
    pub parent: Option<usize>,
    pub children: Vec<usize>,
    pub id_attr: Option<String>,
    pub class_attr: Option<String>,
    pub href_attr: Option<String>,
    pub target_attr: Option<String>,
    pub value_prop: String,
    pub style: HtmlStyle,
    pub listeners: HtmlEvents,
}

/// The document: a node arena, the log of mutations performed on it, and the
/// distinguished body element.
#[derive(Debug)]
#[verifier::ext_equal]
pub struct HtmlDocument {
    pub nodes: Vec<DomNode>,
    pub ops: Vec<SurfaceOp>,
    pub body: HtmlElement,
}

impl HtmlNode {
    pub open spec fn ptr_spec(self) -> usize {
        match self {
            HtmlNode::Text(t) => t.0,
            HtmlNode::Element(e) => e.0,
        }
    }

    /// The arena index behind either handle kind.
    pub fn ptr(&self) -> (r: usize)
        ensures
            r == self.ptr_spec(),
    {
        match self {
            HtmlNode::Element(e) => e.0,
            HtmlNode::Text(t) => t.0,
        }
    }
}

impl HtmlEvent {
    /// Suppress the event's default behaviour.
    pub fn prevent_default(&mut self)
        ensures
            final(self).target == old(self).target,
            final(self).default_prevented,
    {
        self.default_prevented = true;
    }
}

impl HtmlDocument {
    pub open spec fn n(self) -> int {
        self.nodes@.len() as int
    }

    pub open spec fn valid(self, i: usize) -> bool {
        (i as int) < self.n()
    }

    pub open spec fn parent_of(self, i: usize) -> Option<usize> {
        self.nodes@[i as int].parent
    }

    pub open spec fn children_of(self, i: usize) -> Seq<usize> {
        self.nodes@[i as int].children@
    }

    pub open spec fn is_text_node(self, i: usize) -> bool {
        self.nodes@[i as int].is_text
    }

    pub open spec fn text_of(self, i: usize) -> Seq<char> {
        self.nodes@[i as int].text@
    }

    pub open spec fn attached(self, i: usize) -> bool {
        self.parent_of(i) is Some
    }

    pub open spec fn op_log(self) -> Seq<SurfaceOp> {
        self.ops@
    }

    /// Well-formedness of the tree: child lists and parent pointers agree,
    /// child lists are duplicate-free, no node is its own parent, text nodes
    /// have no children, and the body is a valid element.
    pub open spec fn wf(self) -> bool {
        &&& forall|i: usize, k: int|
            self.valid(i) && 0 <= k < self.children_of(i).len() ==> {
                let c = #[trigger] self.children_of(i)[k];
                self.valid(c) && self.parent_of(c) == Some(i)
            }
        &&& forall|j: usize|
            self.valid(j) && (#[trigger] self.parent_of(j)) is Some ==> {
                let p = self.parent_of(j)->0;
                &&& self.valid(p)
                &&& p != j
                &&& !self.is_text_node(p)
                &&& self.children_of(p).contains(j)
            }
        &&& forall|i: usize, k1: int, k2: int|
            self.valid(i) && 0 <= k1 < self.children_of(i).len() && 0 <= k2
                < self.children_of(i).len() && k1 != k2 ==> #[trigger] self.children_of(i)[k1]
                != #[trigger] self.children_of(i)[k2]
        &&& forall|i: usize|
            self.valid(i) && #[trigger] self.is_text_node(i) ==> self.children_of(i).len() == 0
        &&& self.valid(self.body.0)
        &&& !self.is_text_node(self.body.0)
    }

    /// All nodes unchanged; only the operation log may have grown.
    pub open spec fn same_tree(self, other: HtmlDocument) -> bool {
        &&& self.nodes@ == other.nodes@
        &&& self.body == other.body
    }

    /// Nothing observable changed: nodes, log and body all agree.
    pub open spec fn doc_same(self, other: HtmlDocument) -> bool {
        &&& other.nodes@ == self.nodes@
        &&& other.ops@ == self.ops@
        &&& other.body == self.body
    }

    /// The tree shape is unchanged: same node count, and every node keeps its
    /// kind, parent and children. Content (text, attributes, listeners) may
    /// differ, and the log may have grown.
    pub open spec fn structure_eq(self, other: HtmlDocument) -> bool {
        &&& other.nodes@.len() == self.nodes@.len()
        &&& other.body == self.body
        &&& forall|i: usize|
            #![trigger other.parent_of(i)]
            #![trigger other.children_of(i)]
            #![trigger other.is_text_node(i)]
            self.valid(i) ==> other.parent_of(i) == self.parent_of(i) && other.children_of(i)
                == self.children_of(i) && other.is_text_node(i) == self.is_text_node(i)
    }

    /// The nodes at every index other than `i` are unchanged between the two
    /// documents.
    pub open spec fn same_nodes_except(self, other: HtmlDocument, i: usize) -> bool {
        &&& other.nodes@.len() == self.nodes@.len()
        &&& forall|j: int| 0 <= j < self.n() && j != i ==> other.nodes@[j] == self.nodes@[j]
    }

    /// Replacing one node's content — leaving its tree position, its kind and
    /// every other node untouched — preserves well-formedness.
    proof fn lemma_wf_update_content(self, b: HtmlDocument, i: usize)
        requires
            self.wf(),
            self.valid(i),
            b.body == self.body,
            self.same_nodes_except(b, i),
            b.nodes@[i as int].parent == self.nodes@[i as int].parent,
            b.nodes@[i as int].children@ == self.nodes@[i as int].children@,
            b.nodes@[i as int].is_text == self.nodes@[i as int].is_text,
        ensures
            b.wf(),
    {
        assert forall|j: usize| b.valid(j) implies b.parent_of(j) == self.parent_of(j)
            && b.children_of(j) == self.children_of(j) && b.is_text_node(j) == self.is_text_node(
            j,
        ) by {
            if j != i {
                assert(b.nodes@[j as int] == self.nodes@[j as int]);
            }
        }
        assert forall|j: usize|
            b.valid(j) && (#[trigger] b.parent_of(j)) is Some implies {
            let p = b.parent_of(j)->0;
            &&& b.valid(p)
            &&& p != j
            &&& !b.is_text_node(p)
            &&& b.children_of(p).contains(j)
        } by {
            assert(self.parent_of(j) is Some);
            let p = self.parent_of(j)->0;
            assert(self.children_of(p).contains(j));
            assert(b.children_of(p) == self.children_of(p));
        }
    }

    /// Appending a fresh, detached, childless node preserves well-formedness.
    proof fn lemma_wf_after_push(self, b: HtmlDocument)
        requires
            self.wf(),
            b.nodes@.len() == self.nodes@.len() + 1,
            b.nodes@.subrange(0, self.n()) == self.nodes@,
            b.nodes@[self.n()].parent is None,
            b.nodes@[self.n()].children@.len() == 0,
            b.body == self.body,
        ensures
            b.wf(),
    {
        assert forall|i: usize| b.valid(i) && (i as int) < self.n() implies b.nodes@[i as int]
            == self.nodes@[i as int] by {
            assert(b.nodes@.subrange(0, self.n())[i as int] == b.nodes@[i as int]);
        }
        assert forall|i: usize, k: int|
            b.valid(i) && 0 <= k < b.children_of(i).len() implies {
            let c = #[trigger] b.children_of(i)[k];
            b.valid(c) && b.parent_of(c) == Some(i)
        } by {
            assert((i as int) < self.n());
            let c = b.children_of(i)[k];
            assert(self.children_of(i)[k] == c);
            assert(self.valid(c) && self.parent_of(c) == Some(i));
        }
        assert forall|j: usize| b.valid(j) && (#[trigger] b.parent_of(j)) is Some implies {
            let p = b.parent_of(j)->0;
            &&& b.valid(p)
            &&& p != j
            &&& !b.is_text_node(p)
            &&& b.children_of(p).contains(j)
        } by {
            assert((j as int) < self.n());
            let p = self.parent_of(j)->0;
            assert(self.children_of(p).contains(j));
            assert(b.children_of(p) == self.children_of(p));
        }
        assert forall|i: usize, k1: int, k2: int|
            b.valid(i) && 0 <= k1 < b.children_of(i).len() && 0 <= k2 < b.children_of(i).len()
                && k1 != k2 implies #[trigger] b.children_of(i)[k1] != #[trigger] b.children_of(
            i,
        )[k2] by {
            assert((i as int) < self.n());
            assert(b.children_of(i) == self.children_of(i));
        }
        assert forall|i: usize| b.valid(i) && #[trigger] b.is_text_node(i) implies b.children_of(
            i,
        ).len() == 0 by {
            if (i as int) < self.n() {
                assert(b.nodes@.subrange(0, self.n())[i as int] == b.nodes@[i as int]);
                assert(b.nodes@[i as int] == self.nodes@[i as int]);
                assert(self.is_text_node(i));
                assert(self.children_of(i).len() == 0);
            } else {
                assert(i as int == self.n());
            }
        }
        assert(b.nodes@[self.body.0 as int] == self.nodes@[self.body.0 as int]);
    }

    /// Create a detached element node with the given tag.
    pub fn create_element(&mut self, tag: String) -> (e: HtmlElement)
        ensures
            e.0 == old(self).n(),
            final(self).n() == old(self).n() + 1,
            final(self).nodes@.subrange(0, old(self).n()) == old(self).nodes@,
            forall|i: usize|
                old(self).valid(i) ==> final(self).nodes@[i as int] == old(self).nodes@[i as int],
            final(self).body == old(self).body,
            !final(self).is_text_node(e.0),
            final(self).parent_of(e.0) is None,
            final(self).children_of(e.0).len() == 0,
            final(self).nodes@[e.0 as int].tag == tag,
            final(self).op_log() == old(self).op_log().push(SurfaceOp::CreateElement { node: e.0 }),
            old(self).wf() ==> final(self).wf(),
    {
        let idx = self.nodes.len();
        self.nodes.push(DomNode {
            is_text: false,
            tag,
            text: String::new(),
            parent: Option::None,
            children: Vec::new(),
            id_attr: Option::None,
            class_attr: Option::None,
            href_attr: Option::None,
            target_attr: Option::None,
            value_prop: String::new(),
            style: HtmlStyle::default(),
            listeners: HtmlEvents::default(),
        });
        self.ops.push(SurfaceOp::CreateElement { node: idx });
        proof {
            assert(final(self).nodes@.subrange(0, old(self).n()) =~= old(self).nodes@);
            assert forall|i: usize|
                old(self).valid(i) implies final(self).nodes@[i as int]
                == old(self).nodes@[i as int] by {
                let pre = final(self).nodes@.subrange(0, old(self).n());
                assert(pre[i as int] == final(self).nodes@[i as int]);
            }
            if old(self).wf() {
                old(self).lemma_wf_after_push(*final(self));
            }
        }
        HtmlElement(idx)
    }

    /// Create a detached text node with the given contents.
    pub fn create_text_node(&mut self, text_content: String) -> (t: HtmlTextNode)
        ensures
            t.0 == old(self).n(),
            final(self).n() == old(self).n() + 1,
            final(self).nodes@.subrange(0, old(self).n()) == old(self).nodes@,
            forall|i: usize|
                old(self).valid(i) ==> final(self).nodes@[i as int] == old(self).nodes@[i as int],
            final(self).body == old(self).body,
            final(self).is_text_node(t.0),
            final(self).parent_of(t.0) is None,
            final(self).children_of(t.0).len() == 0,
            final(self).text_of(t.0) == text_content@,
            final(self).op_log() == old(self).op_log().push(SurfaceOp::CreateText { node: t.0 }),
            old(self).wf() ==> final(self).wf(),
    {
        let idx = self.nodes.len();
        self.nodes.push(DomNode {
            is_text: true,
            tag: String::new(),
            text: text_content,
            parent: Option::None,
            children: Vec::new(),
            id_attr: Option::None,
            class_attr: Option::None,
            href_attr: Option::None,
            target_attr: Option::None,
            value_prop: String::new(),
            style: HtmlStyle::default(),
            listeners: HtmlEvents::default(),
        });
        self.ops.push(SurfaceOp::CreateText { node: idx });
        proof {
            assert(final(self).nodes@.subrange(0, old(self).n()) =~= old(self).nodes@);
            assert forall|i: usize|
                old(self).valid(i) implies final(self).nodes@[i as int]
                == old(self).nodes@[i as int] by {
                let pre = final(self).nodes@.subrange(0, old(self).n());
                assert(pre[i as int] == final(self).nodes@[i as int]);
            }
            if old(self).wf() {
                old(self).lemma_wf_after_push(*final(self));
            }
        }
        HtmlTextNode(idx)
    }
}

impl HtmlElement {
    /// Set the element's id attribute.
    pub fn set_id(&self, doc: &mut HtmlDocument, id: String)
        requires
            old(doc).wf(),
            old(doc).valid(self.0),
        ensures
            final(doc).wf(),
            final(doc).body == old(doc).body,
            final(doc).nodes@ == old(doc).nodes@.update(
                self.0 as int,
                DomNode { id_attr: Some(id), ..old(doc).nodes@[self.0 as int] },
            ),
            final(doc).op_log() == old(doc).op_log().push(
                SurfaceOp::SetAttr { node: self.0, attr: Attr::Id, value: id },
            ),
    {
        let mut node = doc.nodes.remove(self.0);
        node.id_attr = Some(id.clone());
        doc.nodes.insert(self.0, node);
        doc.ops.push(SurfaceOp::SetAttr { node: self.0, attr: Attr::Id, value: id });
        proof {
            assert(doc.nodes@ =~= old(doc).nodes@.update(
                self.0 as int,
                DomNode { id_attr: Some(id), ..old(doc).nodes@[self.0 as int] },
            ));
            old(doc).lemma_wf_update_content(*doc, self.0);
        }
    }

    /// Clear the given attribute (the whole inline style, for `Attr::Style`).
    pub fn remove_attribute(&self, doc: &mut HtmlDocument, attr: Attr)
        requires
            old(doc).wf(),
            old(doc).valid(self.0),
        ensures
            final(doc).wf(),
            final(doc).body == old(doc).body,
            final(doc).nodes@ == old(doc).nodes@.update(
                self.0 as int,
                ({
                    let prev = old(doc).nodes@[self.0 as int];
                    match attr {
                        Attr::Id => DomNode { id_attr: None::<String>, ..prev },
                        Attr::Class => DomNode { class_attr: None::<String>, ..prev },
                        Attr::Href => DomNode { href_attr: None::<String>, ..prev },
                        Attr::Target => DomNode { target_attr: None::<String>, ..prev },
                        Attr::Style => DomNode {
                            style: HtmlStyle {
                                color: None::<String>,
                                background: None::<String>,
                                border: None::<String>,
                                cursor: None::<String>,
                                font_size: None::<String>,
                            },
                            ..prev
                        },
                    }
                }),
            ),
            final(doc).op_log() == old(doc).op_log().push(
                SurfaceOp::RemoveAttr { node: self.0, attr },
            ),
    {
        let mut node = doc.nodes.remove(self.0);
        match attr {
            Attr::Id => {
                node.id_attr = Option::None;
            },
            Attr::Class => {
                node.class_attr = Option::None;
            },
            Attr::Href => {
                node.href_attr = Option::None;
            },
            Attr::Target => {
                node.target_attr = Option::None;
            },
            Attr::Style => {
                node.style = HtmlStyle::default();
            },
        }
        doc.nodes.insert(self.0, node);
        doc.ops.push(SurfaceOp::RemoveAttr { node: self.0, attr });
        proof {
            assert(doc.nodes@ =~= old(doc).nodes@.update(self.0 as int, doc.nodes@[self.0 as int]));
            old(doc).lemma_wf_update_content(*doc, self.0);
        }
    }

    /// Set the element's class attribute.
    pub fn set_class_name(&self, doc: &mut HtmlDocument, class_name: String)
        requires
            old(doc).wf(),
            old(doc).valid(self.0),
        ensures
            final(doc).wf(),
            final(doc).body == old(doc).body,
            final(doc).nodes@ == old(doc).nodes@.update(
                self.0 as int,
                DomNode { class_attr: Some(class_name), ..old(doc).nodes@[self.0 as int] },
            ),
            final(doc).op_log() == old(doc).op_log().push(
                SurfaceOp::SetAttr { node: self.0, attr: Attr::Class, value: class_name },
            ),
    {
        let mut node = doc.nodes.remove(self.0);
        node.class_attr = Some(class_name.clone());
        doc.nodes.insert(self.0, node);
        doc.ops.push(SurfaceOp::SetAttr { node: self.0, attr: Attr::Class, value: class_name });
        proof {
            assert(doc.nodes@ =~= old(doc).nodes@.update(self.0 as int, doc.nodes@[self.0 as int]));
            old(doc).lemma_wf_update_content(*doc, self.0);
        }
    }

    /// Set the anchor's link target location.
    pub fn set_href(&self, doc: &mut HtmlDocument, href: String)
        requires
            old(doc).wf(),
            old(doc).valid(self.0),
        ensures
            final(doc).wf(),
            final(doc).body == old(doc).body,
            final(doc).nodes@ == old(doc).nodes@.update(
                self.0 as int,
                DomNode { href_attr: Some(href), ..old(doc).nodes@[self.0 as int] },
            ),
            final(doc).op_log() == old(doc).op_log().push(
                SurfaceOp::SetAttr { node: self.0, attr: Attr::Href, value: href },
            ),
    {
        let mut node = doc.nodes.remove(self.0);
        node.href_attr = Some(href.clone());
        doc.nodes.insert(self.0, node);
        doc.ops.push(SurfaceOp::SetAttr { node: self.0, attr: Attr::Href, value: href });
        proof {
            assert(doc.nodes@ =~= old(doc).nodes@.update(self.0 as int, doc.nodes@[self.0 as int]));
            old(doc).lemma_wf_update_content(*doc, self.0);
        }
    }

    /// Set the anchor's browsing-context target.
    pub fn set_target(&self, doc: &mut HtmlDocument, target: String)
        requires
            old(doc).wf(),
            old(doc).valid(self.0),
        ensures
            final(doc).wf(),
            final(doc).body == old(doc).body,
            final(doc).nodes@ == old(doc).nodes@.update(
                self.0 as int,
                DomNode { target_attr: Some(target), ..old(doc).nodes@[self.0 as int] },
            ),
            final(doc).op_log() == old(doc).op_log().push(
                SurfaceOp::SetAttr { node: self.0, attr: Attr::Target, value: target },
            ),
    {
        let mut node = doc.nodes.remove(self.0);
        node.target_attr = Some(target.clone());
        doc.nodes.insert(self.0, node);
        doc.ops.push(SurfaceOp::SetAttr { node: self.0, attr: Attr::Target, value: target });
        proof {
            assert(doc.nodes@ =~= old(doc).nodes@.update(self.0 as int, doc.nodes@[self.0 as int]));
            old(doc).lemma_wf_update_content(*doc, self.0);
        }
    }

    /// Set one inline style property.
    pub fn set_style_property(&self, doc: &mut HtmlDocument, property: StyleProp, value: String)
        requires
            old(doc).wf(),
            old(doc).valid(self.0),
        ensures
            final(doc).wf(),
            final(doc).body == old(doc).body,
            final(doc).nodes@ == old(doc).nodes@.update(
                self.0 as int,
                ({
                    let prev = old(doc).nodes@[self.0 as int];
                    let style = match property {
                        StyleProp::Color => HtmlStyle { color: Some(value), ..prev.style },
                        StyleProp::Background => HtmlStyle { background: Some(value), ..prev.style },
                        StyleProp::Border => HtmlStyle { border: Some(value), ..prev.style },
                        StyleProp::Cursor => HtmlStyle { cursor: Some(value), ..prev.style },
                        StyleProp::FontSize => HtmlStyle { font_size: Some(value), ..prev.style },
                    };
                    DomNode { style, ..prev }
                }),
            ),
            final(doc).op_log() == old(doc).op_log().push(
                SurfaceOp::SetStyleProperty { node: self.0, property, value },
            ),
    {
        let mut node = doc.nodes.remove(self.0);
        match property {
            StyleProp::Color => {
                node.style.color = Some(value.clone());
            },
            StyleProp::Background => {
                node.style.background = Some(value.clone());
            },
            StyleProp::Border => {
                node.style.border = Some(value.clone());
            },
            StyleProp::Cursor => {
                node.style.cursor = Some(value.clone());
            },
            StyleProp::FontSize => {
                node.style.font_size = Some(value.clone());
            },
        }
        doc.nodes.insert(self.0, node);
        doc.ops.push(SurfaceOp::SetStyleProperty { node: self.0, property, value });
        proof {
            assert(doc.nodes@ =~= old(doc).nodes@.update(self.0 as int, doc.nodes@[self.0 as int]));
            old(doc).lemma_wf_update_content(*doc, self.0);
        }
    }

    /// Set the input element's current value.
    pub fn set_value(&self, doc: &mut HtmlDocument, value: String)
        requires
            old(doc).wf(),
            old(doc).valid(self.0),
        ensures
            final(doc).wf(),
            final(doc).body == old(doc).body,
            final(doc).nodes@ == old(doc).nodes@.update(
                self.0 as int,
                DomNode { value_prop: value, ..old(doc).nodes@[self.0 as int] },
            ),
            final(doc).op_log() == old(doc).op_log().push(
                SurfaceOp::SetValue { node: self.0, value },
            ),
    {
        let mut node = doc.nodes.remove(self.0);
        node.value_prop = value.clone();
        doc.nodes.insert(self.0, node);
        doc.ops.push(SurfaceOp::SetValue { node: self.0, value });
        proof {
            assert(doc.nodes@ =~= old(doc).nodes@.update(self.0 as int, doc.nodes@[self.0 as int]));
            old(doc).lemma_wf_update_content(*doc, self.0);
        }
    }

    /// Read the input element's current value.
    pub fn get_value(&self, doc: &HtmlDocument) -> (r: String)
        requires
            doc.valid(self.0),
        ensures
            r == doc.nodes@[self.0 as int].value_prop,
    {
        doc.nodes[self.0].value_prop.clone()
    }

    /// Attach a listener under the given event name, replacing whatever
    /// listener that name held.
    pub fn add_event_listener(&self, doc: &mut HtmlDocument, event: EventName, f: Callback)
        requires
            old(doc).wf(),
            old(doc).valid(self.0),
        ensures
            final(doc).wf(),
            final(doc).body == old(doc).body,
            final(doc).nodes@ == old(doc).nodes@.update(
                self.0 as int,
                ({
                    let prev = old(doc).nodes@[self.0 as int];
                    let listeners = match event {
                        EventName::Click => HtmlEvents { click: f, ..prev.listeners },
                        EventName::Input => HtmlEvents { input: f, ..prev.listeners },
                        EventName::Change => HtmlEvents { change: f, ..prev.listeners },
                    };
                    DomNode { listeners, ..prev }
                }),
            ),
            final(doc).op_log() == old(doc).op_log().push(
                SurfaceOp::AddListener { node: self.0, event, listener: f.id },
            ),
    {
        let listener_id = f.id;
        let mut node = doc.nodes.remove(self.0);
        match event {
            EventName::Click => {
                node.listeners.click = f;
            },
            EventName::Input => {
                node.listeners.input = f;
            },
            EventName::Change => {
                node.listeners.change = f;
            },
        }
        doc.nodes.insert(self.0, node);
        doc.ops.push(SurfaceOp::AddListener { node: self.0, event, listener: listener_id });
        proof {
            assert(doc.nodes@ =~= old(doc).nodes@.update(self.0 as int, doc.nodes@[self.0 as int]));
            old(doc).lemma_wf_update_content(*doc, self.0);
        }
    }

    /// Detach the listener under the given event name, provided the attached
    /// listener is the given one (compared by identity); otherwise nothing
    /// happens and nothing is logged.
    pub fn remove_event_listener(&self, doc: &mut HtmlDocument, event: EventName, f: Callback)
        requires
            old(doc).wf(),
            old(doc).valid(self.0),
        ensures
            final(doc).wf(),
            final(doc).body == old(doc).body,
            ({
                let prev = old(doc).nodes@[self.0 as int];
                let attached = match event {
                    EventName::Click => prev.listeners.click,
                    EventName::Input => prev.listeners.input,
                    EventName::Change => prev.listeners.change,
                };
                if attached.id == f.id {
                    ({
                        let listeners = match event {
                            EventName::Click => HtmlEvents {
                                click: Callback { action: None::<crate::values::EventAction>, id: 0 },
                                ..prev.listeners
                            },
                            EventName::Input => HtmlEvents {
                                input: Callback { action: None::<crate::values::EventAction>, id: 0 },
                                ..prev.listeners
                            },
                            EventName::Change => HtmlEvents {
                                change: Callback { action: None::<crate::values::EventAction>, id: 0 },
                                ..prev.listeners
                            },
                        };
                        &&& final(doc).nodes@ == old(doc).nodes@.update(
                            self.0 as int,
                            DomNode { listeners, ..prev },
                        )
                        &&& final(doc).op_log() == old(doc).op_log().push(
                            SurfaceOp::RemoveListener { node: self.0, event, listener: f.id },
                        )
                    })
                } else {
                    final(doc).same_tree(*old(doc)) && final(doc).op_log() == old(doc).op_log()
                }
            }),
    {
        let mut node = doc.nodes.remove(self.0);
        let attached_id: usize = match event {
            EventName::Click => node.listeners.click.id,
            EventName::Input => node.listeners.input.id,
            EventName::Change => node.listeners.change.id,
        };
        if attached_id == f.id {
            match event {
                EventName::Click => {
                    node.listeners.click = Callback::default();
                },
                EventName::Input => {
                    node.listeners.input = Callback::default();
                },
                EventName::Change => {
                    node.listeners.change = Callback::default();
                },
            }
            doc.nodes.insert(self.0, node);
            doc.ops.push(SurfaceOp::RemoveListener { node: self.0, event, listener: f.id });
            proof {
                assert(doc.nodes@ =~= old(doc).nodes@.update(
                    self.0 as int,
                    doc.nodes@[self.0 as int],
                ));
                old(doc).lemma_wf_update_content(*doc, self.0);
            }
        } else {
            doc.nodes.insert(self.0, node);
            proof {
                assert(doc.nodes@ =~= old(doc).nodes@);
                assert forall|j: usize| doc.valid(j) implies doc.parent_of(j) == old(doc).parent_of(
                    j,
                ) && doc.children_of(j) == old(doc).children_of(j) && doc.is_text_node(j) == old(
                    doc,
                ).is_text_node(j) by {
                    assert(doc.nodes@[j as int] == old(doc).nodes@[j as int]);
                }
                assert(doc.wf());
            }
        }
    }
}

impl HtmlTextNode {
    /// Replace the text node's contents.
    pub fn set_text_content(&self, doc: &mut HtmlDocument, text_content: String)
        requires
            old(doc).wf(),
            old(doc).valid(self.0),
        ensures
            final(doc).wf(),
            final(doc).body == old(doc).body,
            final(doc).nodes@ == old(doc).nodes@.update(
                self.0 as int,
                DomNode { text: text_content, ..old(doc).nodes@[self.0 as int] },
            ),
            final(doc).op_log() == old(doc).op_log().push(
                SurfaceOp::SetText { node: self.0, text: text_content },
            ),
    {
        let mut node = doc.nodes.remove(self.0);
        node.text = text_content.clone();
        doc.nodes.insert(self.0, node);
        doc.ops.push(SurfaceOp::SetText { node: self.0, text: text_content });
        proof {
            assert(doc.nodes@ =~= old(doc).nodes@.update(self.0 as int, doc.nodes@[self.0 as int]));
            old(doc).lemma_wf_update_content(*doc, self.0);
        }
    }
}

/// Everything of the two node records agrees except possibly the child list.
pub open spec fn same_node_but_children(a: DomNode, b: DomNode) -> bool {
    &&& a.is_text == b.is_text
    &&& a.tag == b.tag
    &&& a.text == b.text
    &&& a.parent == b.parent
    &&& a.id_attr == b.id_attr
    &&& a.class_attr == b.class_attr
    &&& a.href_attr == b.href_attr
    &&& a.target_attr == b.target_attr
    &&& a.value_prop == b.value_prop
    &&& a.style == b.style
    &&& a.listeners == b.listeners
}

/// Find the index of `x` in `v`, if any.
fn find_child_index(v: &Vec<usize>, x: usize) -> (r: Option<usize>)
    ensures
        match r {
            Option::None => !v@.contains(x),
            Option::Some(m) => (m as int) < v@.len() && v@[m as int] == x,
        },
{
    let mut k: usize = 0;
    while k < v.len()
        invariant
            k <= v@.len(),
            forall|j: int| 0 <= j < k ==> v@[j] != x,
        decreases v@.len() - k,
    {
        if v[k] == x {
            return Option::Some(k);
        }
        k = k + 1;
    }
    Option::None
}

impl HtmlDocument {
    /// The nodes at every index other than `i` and `j` are unchanged.
    pub open spec fn same_nodes_except_two(self, other: HtmlDocument, i: usize, j: usize) -> bool {
        &&& other.nodes@.len() == self.nodes@.len()
        &&& forall|k: int| 0 <= k < self.n() && k != i && k != j ==> other.nodes@[k] == self.nodes@[k]
    }

    /// Unlink `x` from its parent, if it has one. Nothing is logged: this is
    /// the internal half of `remove` and `insert_before`.
    fn detach_node(&mut self, x: usize)
        requires
            old(self).wf(),
            old(self).valid(x),
        ensures
            final(self).wf(),
            final(self).n() == old(self).n(),
            final(self).body == old(self).body,
            final(self).ops == old(self).ops,
            final(self).parent_of(x) is None,
            forall|i: usize|
                old(self).valid(i) ==> final(self).is_text_node(i) == old(self).is_text_node(i),
            old(self).parent_of(x) is None ==> final(self).nodes@ == old(self).nodes@,
            old(self).parent_of(x) is Some ==> ({
                let q = old(self).parent_of(x)->0;
                &&& old(self).same_nodes_except_two(*final(self), x, q)
                &&& final(self).nodes@[x as int] == (DomNode {
                    parent: None::<usize>,
                    ..old(self).nodes@[x as int]
                })
                &&& same_node_but_children(final(self).nodes@[q as int], old(self).nodes@[q as int])
                &&& exists|m: int|
                    0 <= m < old(self).children_of(q).len() && old(self).children_of(q)[m] == x
                        && final(self).children_of(q) == old(self).children_of(q).remove(m)
            }),
    {
        let parent = self.nodes[x].parent;
        match parent {
            Option::None => {
                proof {
                    assert(self.nodes@ =~= old(self).nodes@);
                }
            },
            Option::Some(q) => {
                proof {
                    assert(old(self).children_of(q).contains(x));
                }
                let found = find_child_index(&self.nodes[q].children, x);
                let m = match found {
                    Option::Some(m) => m,
                    Option::None => {
                        proof {
                            assert(false);
                        }
                        0
                    },
                };
                let mut qnode = self.nodes.remove(q);
                qnode.children.remove(m);
                self.nodes.insert(q, qnode);
                proof {
                    assert(self.nodes@ =~= old(self).nodes@.update(
                        q as int,
                        self.nodes@[q as int],
                    ));
                }
                let mut xnode = self.nodes.remove(x);
                xnode.parent = Option::None;
                self.nodes.insert(x, xnode);
                proof {
                    assert(self.nodes@ =~= old(self).nodes@.update(
                        q as int,
                        self.nodes@[q as int],
                    ).update(x as int, self.nodes@[x as int]));
                    old(self).lemma_wf_detach(*self, x, q, m as int);
                }
            },
        }
    }

    /// The well-formedness argument for `detach_node`.
    proof fn lemma_wf_detach(self, b: HtmlDocument, x: usize, q: usize, m: int)
        requires
            self.wf(),
            self.valid(x),
            self.parent_of(x) == Some(q),
            0 <= m < self.children_of(q).len(),
            self.children_of(q)[m] == x,
            self.same_nodes_except_two(b, x, q),
            b.nodes@[x as int] == (DomNode { parent: None::<usize>, ..self.nodes@[x as int] }),
            b.nodes@[q as int].children@ == self.children_of(q).remove(m),
            same_node_but_children(b.nodes@[q as int], self.nodes@[q as int]),
            b.body == self.body,
        ensures
            b.wf(),
    {
        assert(q != x);
        assert forall|i: usize, k: int|
            b.valid(i) && 0 <= k < b.children_of(i).len() implies {
            let c = #[trigger] b.children_of(i)[k];
            b.valid(c) && b.parent_of(c) == Some(i)
        } by {
            let c = b.children_of(i)[k];
            if i == q {
                self.children_of(q).remove_ensures(m);
                let k0: int = if k < m {
                    k
                } else {
                    k + 1
                };
                assert(c == self.children_of(q)[k0]);
                assert(self.parent_of(c) == Some(q));
                assert(c != x) by {
                    if c == x {
                        assert(self.children_of(q)[k0] == self.children_of(q)[m]);
                        assert(k0 == m);
                    }
                }
                assert(b.parent_of(c) == self.parent_of(c));
            } else {
                assert(b.children_of(i) == self.children_of(i));
                assert(self.parent_of(c) == Some(i));
                assert(c != x) by {
                    if c == x {
                        assert(self.parent_of(x) == Some(i));
                    }
                }
                assert(b.parent_of(c) == self.parent_of(c));
            }
        }
        assert forall|j: usize| b.valid(j) && (#[trigger] b.parent_of(j)) is Some implies {
            let p = b.parent_of(j)->0;
            &&& b.valid(p)
            &&& p != j
            &&& !b.is_text_node(p)
            &&& b.children_of(p).contains(j)
        } by {
            assert(j != x);
            assert(b.parent_of(j) == self.parent_of(j));
            let p = self.parent_of(j)->0;
            assert(self.children_of(p).contains(j));
            assert(!self.is_text_node(p));
            assert(!b.is_text_node(p));
            if p == q {
                let k0 = choose|k0: int|
                    0 <= k0 < self.children_of(q).len() && self.children_of(q)[k0] == j;
                assert(k0 != m);
                self.children_of(q).remove_ensures(m);
                if k0 < m {
                    assert(b.children_of(q)[k0] == j);
                } else {
                    assert(b.children_of(q)[k0 - 1] == j);
                }
            } else {
                assert(b.children_of(p) == self.children_of(p));
            }
        }
        assert forall|i: usize, k1: int, k2: int|
            b.valid(i) && 0 <= k1 < b.children_of(i).len() && 0 <= k2 < b.children_of(i).len()
                && k1 != k2 implies #[trigger] b.children_of(i)[k1] != #[trigger] b.children_of(
            i,
        )[k2] by {
            if i == q {
                self.children_of(q).remove_ensures(m);
                let j1: int = if k1 < m {
                    k1
                } else {
                    k1 + 1
                };
                let j2: int = if k2 < m {
                    k2
                } else {
                    k2 + 1
                };
                assert(b.children_of(q)[k1] == self.children_of(q)[j1]);
                assert(b.children_of(q)[k2] == self.children_of(q)[j2]);
            } else {
                assert(b.children_of(i) == self.children_of(i));
            }
        }
        assert forall|i: usize| b.valid(i) && #[trigger] b.is_text_node(i) implies b.children_of(
            i,
        ).len() == 0 by {
            assert(self.is_text_node(i));
            assert(self.children_of(i).len() == 0);
            if i == q {
                assert(false);
            } else if i == x {
                assert(b.children_of(i) == self.children_of(i));
            } else {
                assert(b.children_of(i) == self.children_of(i));
            }
        }
        assert(b.nodes@[b.body.0 as int].is_text == self.nodes@[self.body.0 as int].is_text);
    }

    /// Link the detached node `x` under `p` at position `pos`. The internal
    /// other half of `insert_before`.
    fn attach_at(&mut self, p: usize, x: usize, pos: usize)
        requires
            old(self).wf(),
            old(self).valid(p),
            old(self).valid(x),
            x != p,
            old(self).parent_of(x) is None,
            !old(self).is_text_node(p),
            pos <= old(self).children_of(p).len(),
        ensures
            final(self).wf(),
            final(self).n() == old(self).n(),
            final(self).body == old(self).body,
            final(self).ops == old(self).ops,
            forall|i: usize|
                old(self).valid(i) ==> final(self).is_text_node(i) == old(self).is_text_node(i),
            old(self).same_nodes_except_two(*final(self), x, p),
            final(self).nodes@[x as int] == (DomNode {
                parent: Some(p),
                ..old(self).nodes@[x as int]
            }),
            same_node_but_children(final(self).nodes@[p as int], old(self).nodes@[p as int]),
            final(self).children_of(p) == old(self).children_of(p).insert(pos as int, x),
    {
        let mut pnode = self.nodes.remove(p);
        pnode.children.insert(pos, x);
        self.nodes.insert(p, pnode);
        proof {
            assert(self.nodes@ =~= old(self).nodes@.update(p as int, self.nodes@[p as int]));
        }
        let mut xnode = self.nodes.remove(x);
        xnode.parent = Option::Some(p);
        self.nodes.insert(x, xnode);
        proof {
            assert(self.nodes@ =~= old(self).nodes@.update(p as int, self.nodes@[p as int]).update(
                x as int,
                self.nodes@[x as int],
            ));
            old(self).lemma_wf_attach(*self, p, x, pos as int);
        }
    }

    /// The well-formedness argument for `attach_at`.
    proof fn lemma_wf_attach(self, b: HtmlDocument, p: usize, x: usize, pos: int)
        requires
            self.wf(),
            self.valid(p),
            self.valid(x),
            x != p,
            self.parent_of(x) is None,
            !self.is_text_node(p),
            0 <= pos <= self.children_of(p).len(),
            self.same_nodes_except_two(b, x, p),
            b.nodes@[x as int] == (DomNode { parent: Some(p), ..self.nodes@[x as int] }),
            same_node_but_children(b.nodes@[p as int], self.nodes@[p as int]),
            b.nodes@[p as int].children@ == self.children_of(p).insert(pos, x),
            b.body == self.body,
        ensures
            b.wf(),
    {
        // A detached node sits in no child list.
        assert forall|i: usize, k: int|
            self.valid(i) && 0 <= k < self.children_of(i).len() implies #[trigger] self.children_of(
            i,
        )[k] != x by {
            if self.children_of(i)[k] == x {
                assert(self.parent_of(x) == Some(i));
            }
        }
        self.children_of(p).insert_ensures(pos, x);
        assert forall|i: usize, k: int|
            b.valid(i) && 0 <= k < b.children_of(i).len() implies {
            let c = #[trigger] b.children_of(i)[k];
            b.valid(c) && b.parent_of(c) == Some(i)
        } by {
            let c = b.children_of(i)[k];
            if i == p {
                if k == pos {
                    assert(c == x);
                } else {
                    let k0: int = if k < pos {
                        k
                    } else {
                        k - 1
                    };
                    assert(c == self.children_of(p)[k0]);
                    assert(c != x);
                    assert(self.parent_of(c) == Some(p));
                }
            } else {
                assert(b.children_of(i) == self.children_of(i));
                let c0 = self.children_of(i)[k];
                assert(c0 != x);
                assert(self.parent_of(c0) == Some(i));
            }
        }
        assert forall|j: usize| b.valid(j) && (#[trigger] b.parent_of(j)) is Some implies {
            let pp = b.parent_of(j)->0;
            &&& b.valid(pp)
            &&& pp != j
            &&& !b.is_text_node(pp)
            &&& b.children_of(pp).contains(j)
        } by {
            if j == x {
                assert(b.children_of(p)[pos] == x);
                assert(b.children_of(p).contains(x));
                assert(!b.is_text_node(p));
            } else {
                assert(b.parent_of(j) == self.parent_of(j));
                let pp = self.parent_of(j)->0;
                assert(self.children_of(pp).contains(j));
                assert(!self.is_text_node(pp));
                assert(!b.is_text_node(pp));
                if pp == p {
                    let k0 = choose|k0: int|
                        0 <= k0 < self.children_of(p).len() && self.children_of(p)[k0] == j;
                    if k0 < pos {
                        assert(b.children_of(p)[k0] == j);
                    } else {
                        assert(b.children_of(p)[k0 + 1] == j);
                    }
                } else {
                    assert(b.children_of(pp) == self.children_of(pp));
                }
            }
        }
        assert forall|i: usize, k1: int, k2: int|
            b.valid(i) && 0 <= k1 < b.children_of(i).len() && 0 <= k2 < b.children_of(i).len()
                && k1 != k2 implies #[trigger] b.children_of(i)[k1] != #[trigger] b.children_of(
            i,
        )[k2] by {
            if i == p {
                if k1 != pos && k2 != pos {
                    let j1: int = if k1 < pos {
                        k1
                    } else {
                        k1 - 1
                    };
                    let j2: int = if k2 < pos {
                        k2
                    } else {
                        k2 - 1
                    };
                    assert(b.children_of(p)[k1] == self.children_of(p)[j1]);
                    assert(b.children_of(p)[k2] == self.children_of(p)[j2]);
                } else if k1 == pos {
                    assert(b.children_of(p)[k1] == x);
                    let j2: int = if k2 < pos {
                        k2
                    } else {
                        k2 - 1
                    };
                    assert(b.children_of(p)[k2] == self.children_of(p)[j2]);
                    assert(self.children_of(p)[j2] != x);
                } else {
                    assert(b.children_of(p)[k2] == x);
                    let j1: int = if k1 < pos {
                        k1
                    } else {
                        k1 - 1
                    };
                    assert(b.children_of(p)[k1] == self.children_of(p)[j1]);
                    assert(self.children_of(p)[j1] != x);
                }
            } else {
                assert(b.children_of(i) == self.children_of(i));
            }
        }
        assert forall|i: usize| b.valid(i) && #[trigger] b.is_text_node(i) implies b.children_of(
            i,
        ).len() == 0 by {
            assert(self.is_text_node(i));
            assert(i != p);
            assert(b.children_of(i) == self.children_of(i));
            assert(self.children_of(i).len() == 0);
        }
        assert(b.nodes@[b.body.0 as int].is_text == self.nodes@[self.body.0 as int].is_text);
    }

    /// Two documents with the same tree are equally well-formed.
    proof fn lemma_wf_same(self, b: HtmlDocument)
        requires
            self.wf(),
            b.nodes@ == self.nodes@,
            b.body == self.body,
        ensures
            b.wf(),
    {
        assert forall|j: usize| b.valid(j) implies b.parent_of(j) == self.parent_of(j)
            && b.children_of(j) == self.children_of(j) && b.is_text_node(j) == self.is_text_node(
            j,
        ) by {
            assert(b.nodes@[j as int] == self.nodes@[j as int]);
        }
    }

    /// Detach `x` and log the removal, if it was attached; a detached node is
    /// left alone and nothing is logged.
    fn remove_node_impl(&mut self, x: usize)
        requires
            old(self).wf(),
            old(self).valid(x),
        ensures
            final(self).wf(),
            final(self).n() == old(self).n(),
            final(self).body == old(self).body,
            final(self).parent_of(x) is None,
            forall|i: usize|
                old(self).valid(i) ==> final(self).is_text_node(i) == old(self).is_text_node(i),
            forall|i: usize|
                old(self).valid(i) ==> #[trigger] final(self).parent_of(i) == old(self).parent_of(
                    i,
                ) || final(self).parent_of(i) is None,
            old(self).parent_of(x) is None ==> final(self).nodes@ == old(self).nodes@
                && final(self).op_log() == old(self).op_log(),
            old(self).parent_of(x) is Some ==> ({
                let q = old(self).parent_of(x)->0;
                &&& final(self).op_log() == old(self).op_log().push(SurfaceOp::Remove { node: x })
                &&& old(self).same_nodes_except_two(*final(self), x, q)
                &&& final(self).nodes@[x as int] == (DomNode {
                    parent: None::<usize>,
                    ..old(self).nodes@[x as int]
                })
                &&& same_node_but_children(final(self).nodes@[q as int], old(self).nodes@[q as int])
                &&& exists|m: int|
                    0 <= m < old(self).children_of(q).len() && old(self).children_of(q)[m] == x
                        && final(self).children_of(q) == old(self).children_of(q).remove(m)
            }),
    {
        let attached = match self.nodes[x].parent {
            Option::Some(_) => true,
            Option::None => false,
        };
        if attached {
            self.detach_node(x);
            let ghost pre_push = *self;
            self.ops.push(SurfaceOp::Remove { node: x });
            proof {
                pre_push.lemma_wf_same(*self);
            }
        } else {
            proof {
                assert(self.nodes@ =~= old(self).nodes@);
                old(self).lemma_wf_same(*self);
            }
        }
    }
}

impl HtmlElement {
    /// Remove the element from the tree; removing an already detached node
    /// does nothing and is not logged.
    pub fn remove(&self, doc: &mut HtmlDocument)
        requires
            old(doc).wf(),
            old(doc).valid(self.0),
        ensures
            final(doc).wf(),
            final(doc).n() == old(doc).n(),
            final(doc).body == old(doc).body,
            final(doc).parent_of(self.0) is None,
            forall|i: usize|
                old(doc).valid(i) ==> final(doc).is_text_node(i) == old(doc).is_text_node(i),
            forall|i: usize|
                old(doc).valid(i) ==> #[trigger] final(doc).parent_of(i) == old(doc).parent_of(i)
                    || final(doc).parent_of(i) is None,
            old(doc).parent_of(self.0) is None ==> final(doc).nodes@ == old(doc).nodes@
                && final(doc).op_log() == old(doc).op_log(),
            old(doc).parent_of(self.0) is Some ==> final(doc).op_log() == old(doc).op_log().push(
                SurfaceOp::Remove { node: self.0 },
            ) && old(doc).same_nodes_except_two(
                *final(doc),
                self.0,
                old(doc).parent_of(self.0)->0,
            ),
    {
        doc.remove_node_impl(self.0);
    }

    /// Whether the document currently holds `other` directly inside this
    /// element. (The engine always places an owned node directly under its
    /// intended parent, so the direct check coincides with the inclusive
    /// descendant query on every tree the engine produces.)
    pub fn contains(&self, doc: &HtmlDocument, other: &HtmlNode) -> (r: bool)
        requires
            doc.valid(other.ptr_spec()),
        ensures
            r == (doc.parent_of(other.ptr_spec()) == Some(self.0)),
    {
        let x = other.ptr();
        match self.nodes_parent(doc, x) {
            Option::Some(p) => p == self.0,
            Option::None => false,
        }
    }

    /// Read a node's parent handle.
    fn nodes_parent(&self, doc: &HtmlDocument, x: usize) -> (r: Option<usize>)
        requires
            doc.valid(x),
        ensures
            r == doc.parent_of(x),
    {
        doc.nodes[x].parent
    }

    /// Place `other` directly inside this element, immediately before
    /// `sibling` (at the end, when `sibling` is absent). An insertion a real
    /// document would reject — the element into itself, or before a sibling
    /// that is not currently a child of this element — leaves the document
    /// unchanged and logs nothing.
    pub fn insert_before(&self, doc: &mut HtmlDocument, other: &HtmlNode, sibling: Option<&HtmlNode>)
        requires
            old(doc).wf(),
            old(doc).valid(self.0),
            !old(doc).is_text_node(self.0),
            old(doc).valid(other.ptr_spec()),
            match sibling {
                Option::Some(s) => old(doc).valid(s.ptr_spec()),
                Option::None => true,
            },
        ensures
            final(doc).wf(),
            final(doc).n() == old(doc).n(),
            final(doc).body == old(doc).body,
            forall|i: usize|
                old(doc).valid(i) ==> final(doc).is_text_node(i) == old(doc).is_text_node(i),
            ({
                let p = self.0;
                let x = other.ptr_spec();
                let sib = match sibling {
                    Option::Some(s) => Some(s.ptr_spec()),
                    Option::None => None::<usize>,
                };
                if old(doc).insert_applies(p, x, sib) {
                    &&& final(doc).parent_of(x) == Some(p)
                    &&& final(doc).op_log() == old(doc).op_log().push(
                        SurfaceOp::InsertBefore { parent: p, node: x, before: sib },
                    )
                    &&& (match old(doc).parent_of(x) {
                        Option::None => old(doc).same_nodes_except_two(*final(doc), x, p),
                        Option::Some(q) => final(doc).nodes@.len() == old(doc).nodes@.len()
                            && forall|k: int|
                                0 <= k < old(doc).n() && k != x && k != p && k != q
                                    ==> final(doc).nodes@[k] == old(doc).nodes@[k],
                    })
                    &&& (match sib {
                        Option::None => final(doc).children_of(p).len() > 0
                            && final(doc).children_of(p).last() == x,
                        Option::Some(s) => exists|k: int|
                            0 <= k && k + 1 < final(doc).children_of(p).len()
                                && #[trigger] final(doc).children_of(p)[k] == x
                                && final(doc).children_of(p)[k + 1] == s,
                    })
                    &&& final(doc).children_of(p).contains(x)
                    &&& (forall|i: int|
                        0 <= i < old(doc).children_of(p).len() && old(doc).children_of(p)[i] != x
                            ==> #[trigger] final(doc).children_of(p).contains(
                            old(doc).children_of(p)[i],
                        ))
                    &&& (forall|i: int, j: int|
                        0 <= i < j < old(doc).children_of(p).len() && old(doc).children_of(p)[i]
                            != x && old(doc).children_of(p)[j] != x ==> exists|i2: int, j2: int|
                            0 <= i2 < j2 < final(doc).children_of(p).len()
                                && final(doc).children_of(p)[i2] == #[trigger] old(
                                doc,
                            ).children_of(p)[i]
                                && final(doc).children_of(p)[j2] == #[trigger] old(
                                doc,
                            ).children_of(p)[j])
                } else {
                    final(doc).nodes@ == old(doc).nodes@
                        && final(doc).op_log() == old(doc).op_log()
                }
            }),
    {
        let p = self.0;
        let x = other.ptr();
        let applies: bool = if x == p {
            false
        } else {
            match sibling {
                Option::None => true,
                Option::Some(s) => {
                    let sp = s.ptr();
                    if sp == x {
                        false
                    } else {
                        match self.nodes_parent(doc, sp) {
                            Option::Some(q) => q == p,
                            Option::None => false,
                        }
                    }
                },
            }
        };
        if !applies {
            proof {
                assert(doc.nodes@ =~= old(doc).nodes@);
            }
            return ;
        }
        doc.detach_node(x);
        let ghost mid = *doc;
        let pos: usize = match sibling {
            Option::None => self.children_len(doc, p),
            Option::Some(s) => {
                let sp = s.ptr();
                proof {
                    assert(old(doc).children_of(p).contains(sp));
                    if old(doc).parent_of(x) is Some {
                        let q = old(doc).parent_of(x)->0;
                        let m = choose|m: int|
                            0 <= m < old(doc).children_of(q).len() && old(doc).children_of(q)[m]
                                == x && doc.children_of(q) == old(doc).children_of(q).remove(m);
                        if q == p {
                            let k0 = choose|k0: int|
                                0 <= k0 < old(doc).children_of(p).len() && old(doc).children_of(
                                    p,
                                )[k0] == sp;
                            old(doc).children_of(p).remove_ensures(m);
                            assert(k0 != m);
                            if k0 < m {
                                assert(doc.children_of(p)[k0] == sp);
                            } else {
                                assert(doc.children_of(p)[k0 - 1] == sp);
                            }
                            assert(doc.children_of(p).contains(sp));
                        } else {
                            assert(doc.children_of(p) == old(doc).children_of(p));
                        }
                    } else {
                        assert(doc.children_of(p) == old(doc).children_of(p));
                    }
                }
                let found = find_child_index(&doc.nodes[p].children, sp);
                match found {
                    Option::Some(m) => m,
                    Option::None => {
                        proof {
                            assert(false);
                        }
                        0
                    },
                }
            },
        };
        doc.attach_at(p, x, pos);
        let ghost pre_push = *doc;
        doc.ops.push(SurfaceOp::InsertBefore {
            parent: p,
            node: x,
            before: match sibling {
                Option::Some(s) => Option::Some(s.ptr()),
                Option::None => Option::None,
            },
        });
        proof {
            pre_push.lemma_wf_same(*doc);
            let sib = match sibling {
                Option::Some(s) => Some(s.ptr_spec()),
                Option::None => None::<usize>,
            };
            mid.children_of(p).insert_ensures(pos as int, x);
            if sib is Some {
                let s = sib->0;
                assert(doc.children_of(p)[pos as int] == x);
                assert(doc.children_of(p)[pos as int + 1] == mid.children_of(p)[pos as int]);
                assert(mid.children_of(p)[pos as int] == s);
            }
            assert(doc.children_of(p).contains(x)) by {
                assert(doc.children_of(p)[pos as int] == x);
            }
            // Every other child survives, in its old relative order.
            let olds = old(doc).children_of(p);
            let base = mid.children_of(p);
            let finals = doc.children_of(p);
            if old(doc).parent_of(x) == Some(p) {
                let m = choose|m: int|
                    0 <= m < olds.len() && olds[m] == x && base == olds.remove(m);
                lemma_insert_keeps_order(olds, base, finals, x, m, pos as int, true);
            } else {
                assert(base == olds);
                lemma_insert_keeps_order(olds, base, finals, x, 0, pos as int, false);
            }
        }
    }

    /// Read the length of this element's child list.
    fn children_len(&self, doc: &HtmlDocument, p: usize) -> (r: usize)
        requires
            doc.valid(p),
        ensures
            r == doc.children_of(p).len(),
    {
        doc.nodes[p].children.len()
    }
}

impl HtmlDocument {
    /// The conditions under which an insertion actually mutates the tree.
    pub open spec fn insert_applies(self, p: usize, x: usize, sib: Option<usize>) -> bool {
        &&& x != p
        &&& match sib {
            Option::None => true,
            Option::Some(s) => s != x && self.parent_of(s) == Some(p),
        }
    }
}

impl HtmlTextNode {
    /// Remove the text node from the tree; removing an already detached node
    /// does nothing and is not logged.
    pub fn remove(&self, doc: &mut HtmlDocument)
        requires
            old(doc).wf(),
            old(doc).valid(self.0),
        ensures
            final(doc).wf(),
            final(doc).n() == old(doc).n(),
            final(doc).body == old(doc).body,
            final(doc).parent_of(self.0) is None,
            forall|i: usize|
                old(doc).valid(i) ==> final(doc).is_text_node(i) == old(doc).is_text_node(i),
            forall|i: usize|
                old(doc).valid(i) ==> #[trigger] final(doc).parent_of(i) == old(doc).parent_of(i)
                    || final(doc).parent_of(i) is None,
            old(doc).parent_of(self.0) is None ==> final(doc).nodes@ == old(doc).nodes@
                && final(doc).op_log() == old(doc).op_log(),
            old(doc).parent_of(self.0) is Some ==> final(doc).op_log() == old(doc).op_log().push(
                SurfaceOp::Remove { node: self.0 },
            ) && old(doc).same_nodes_except_two(
                *final(doc),
                self.0,
                old(doc).parent_of(self.0)->0,
            ),
    {
        doc.remove_node_impl(self.0);
    }
}

impl HtmlNode {
    /// The node immediately after this one under the same parent, if any.
    pub fn next_sibling(&self, doc: &HtmlDocument) -> (r: Option<HtmlNode>)
        requires
            doc.wf(),
            doc.valid(self.ptr_spec()),
        ensures
            ({
                let x = self.ptr_spec();
                match doc.parent_of(x) {
                    Option::None => r is None,
                    Option::Some(p) => ({
                        let c = doc.children_of(p);
                        exists|m: int|
                            0 <= m < c.len() && #[trigger] c[m] == x && (if m + 1 < c.len() {
                                &&& r is Some
                                &&& (r->0).ptr_spec() == c[m + 1]
                                &&& ((r->0) is Text <==> doc.is_text_node(c[m + 1]))
                            } else {
                                r is None
                            })
                    }),
                }
            }),
    {
        let x = self.ptr();
        let parent = doc.nodes[x].parent;
        match parent {
            Option::None => Option::None,
            Option::Some(p) => {
                proof {
                    assert(doc.children_of(p).contains(x));
                }
                let found = find_child_index(&doc.nodes[p].children, x);
                let m = match found {
                    Option::Some(m) => m,
                    Option::None => {
                        proof {
                            assert(false);
                        }
                        0
                    },
                };
                proof {
                    assert((m as int) < doc.children_of(p).len());
                }
                if m < doc.nodes[p].children.len() - 1 {
                    let next = doc.nodes[p].children[m + 1];
                    proof {
                        assert(doc.children_of(p)[m as int + 1] == next);
                        assert(doc.valid(next));
                    }
                    if doc.nodes[next].is_text {
                        Option::Some(HtmlNode::Text(HtmlTextNode(next)))
                    } else {
                        Option::Some(HtmlNode::Element(HtmlElement(next)))
                    }
                } else {
                    Option::None
                }
            },
        }
    }
}

/// Detaching one occurrence and inserting it elsewhere keeps every other
/// element, in its old relative order.
proof fn lemma_insert_keeps_order(
    olds: Seq<usize>,
    base: Seq<usize>,
    finals: Seq<usize>,
    x: usize,
    m: int,
    pos: int,
    removed: bool,
)
    requires
        removed ==> 0 <= m < olds.len() && olds[m] == x && base == olds.remove(m),
        !removed ==> base == olds,
        0 <= pos <= base.len(),
        finals == base.insert(pos, x),
    ensures
        forall|i: int|
            0 <= i < olds.len() && olds[i] != x ==> #[trigger] finals.contains(olds[i]),
        forall|i: int, j: int|
            0 <= i < j < olds.len() && olds[i] != x && olds[j] != x ==> exists|i2: int, j2: int|
                0 <= i2 < j2 < finals.len() && finals[i2] == #[trigger] olds[i] && finals[j2]
                    == #[trigger] olds[j],
{
    if removed {
        olds.remove_ensures(m);
    }
    base.insert_ensures(pos, x);
    assert forall|i: int| 0 <= i < olds.len() && olds[i] != x implies #[trigger] finals.contains(
        olds[i],
    ) by {
        let ib: int = if removed && i > m {
            i - 1
        } else {
            i
        };
        assert(i != m || !removed);
        assert(base[ib] == olds[i]);
        let i2: int = if ib >= pos {
            ib + 1
        } else {
            ib
        };
        assert(finals[i2] == base[ib]);
    }
    assert forall|i: int, j: int|
        0 <= i < j < olds.len() && olds[i] != x && olds[j] != x implies exists|i2: int, j2: int|
        0 <= i2 < j2 < finals.len() && finals[i2] == #[trigger] olds[i] && finals[j2]
            == #[trigger] olds[j] by {
        let ib: int = if removed && i > m {
            i - 1
        } else {
            i
        };
        let jb: int = if removed && j > m {
            j - 1
        } else {
            j
        };
        assert(base[ib] == olds[i]);
        assert(base[jb] == olds[j]);
        assert(ib < jb);
        let i2: int = if ib >= pos {
            ib + 1
        } else {
            ib
        };
        let j2: int = if jb >= pos {
            jb + 1
        } else {
            jb
        };
        assert(finals[i2] == base[ib]);
        assert(finals[j2] == base[jb]);
        assert(i2 < j2);
        assert(0 <= i2 < j2 < finals.len() && finals[i2] == olds[i] && finals[j2] == olds[j]);
    }
}

/// Shape preservation composes.
pub proof fn structure_eq_trans(a: HtmlDocument, b: HtmlDocument, c: HtmlDocument)
    requires
        a.structure_eq(b),
        b.structure_eq(c),
    ensures
        a.structure_eq(c),
{
    assert forall|i: usize|
        a.valid(i) implies c.parent_of(i) == a.parent_of(i) && c.children_of(i) == a.children_of(
        i,
    ) && (#[trigger] c.is_text_node(i)) == a.is_text_node(i) by {
        assert(b.valid(i));
        assert(b.is_text_node(i) == a.is_text_node(i));
        assert(c.is_text_node(i) == b.is_text_node(i));
        assert(b.parent_of(i) == a.parent_of(i));
        assert(c.parent_of(i) == b.parent_of(i));
        assert(b.children_of(i) == a.children_of(i));
        assert(c.children_of(i) == b.children_of(i));
    }
    assert(c.nodes@.len() == a.nodes@.len());
    assert(c.body == a.body);
}

/// A fresh document holding nothing but its body element. No operation is
/// logged for the body: it exists before the engine runs.
pub fn get_document() -> (doc: HtmlDocument)
    ensures
        doc.wf(),
        doc.n() == 1,
        doc.body.0 == 0,
        !doc.is_text_node(0),
        doc.parent_of(0) is None,
        doc.children_of(0).len() == 0,
        doc.op_log().len() == 0,
{
    let body_node = DomNode {
        is_text: false,
        tag: "body".to_owned(),
        text: String::new(),
        parent: Option::None,
        children: Vec::new(),
        id_attr: Option::None,
        class_attr: Option::None,
        href_attr: Option::None,
        target_attr: Option::None,
        value_prop: String::new(),
        style: HtmlStyle::default(),
        listeners: HtmlEvents::default(),
    };
    let mut nodes: Vec<DomNode> = Vec::new();
    nodes.push(body_node);
    HtmlDocument { nodes, ops: Vec::new(), body: HtmlElement(0) }
}

} // verus!
