use jazz::cells::{eval_pull, PullFn};
use jazz::html::{get_document, Attr, HtmlNode, StyleProp, SurfaceOp};
use jazz::values::{
    value_eq, Callback, EventAction, HtmlProps, HtmlTextProps, IfState, SlotProps, Value,
};

#[test]
fn document_insert_before_orders_siblings() {
    let mut doc = get_document();
    let parent = doc.create_element("ul".to_string());
    let a = doc.create_text_node("a".to_string());
    let b = doc.create_text_node("b".to_string());
    let c = doc.create_text_node("c".to_string());
    // Append a and c, then squeeze b in before c.
    parent.insert_before(&mut doc, &HtmlNode::Text(a), None);
    parent.insert_before(&mut doc, &HtmlNode::Text(c), None);
    parent.insert_before(&mut doc, &HtmlNode::Text(b), Some(&HtmlNode::Text(c)));
    assert_eq!(doc.nodes[parent.0].children, vec![a.0, b.0, c.0]);
    assert!(parent.contains(&doc, &HtmlNode::Text(b)));
    // next_sibling follows the child order.
    assert_eq!(
        HtmlNode::Text(a).next_sibling(&doc),
        Some(HtmlNode::Text(b))
    );
    assert_eq!(HtmlNode::Text(c).next_sibling(&doc), None);
}

#[test]
fn document_insert_moves_an_attached_node() {
    let mut doc = get_document();
    let p1 = doc.create_element("p".to_string());
    let p2 = doc.create_element("p".to_string());
    let t = doc.create_text_node("move me".to_string());
    p1.insert_before(&mut doc, &HtmlNode::Text(t), None);
    assert_eq!(doc.nodes[t.0].parent, Some(p1.0));
    p2.insert_before(&mut doc, &HtmlNode::Text(t), None);
    assert_eq!(doc.nodes[t.0].parent, Some(p2.0));
    assert!(doc.nodes[p1.0].children.is_empty());
}

#[test]
fn document_remove_detached_is_silent() {
    let mut doc = get_document();
    let t = doc.create_text_node("x".to_string());
    let ops_before = doc.ops.len();
    t.remove(&mut doc);
    // Removing a detached node mutates nothing and logs nothing.
    assert_eq!(doc.ops.len(), ops_before);
    assert_eq!(doc.nodes[t.0].parent, None);
}

#[test]
fn document_rejected_insertions_leave_it_unchanged() {
    let mut doc = get_document();
    let p = doc.create_element("div".to_string());
    let stray = doc.create_text_node("s".to_string());
    let t = doc.create_text_node("t".to_string());
    let ops_before = doc.ops.len();
    // Inserting before a node that is not a child of the target is refused.
    p.insert_before(&mut doc, &HtmlNode::Text(t), Some(&HtmlNode::Text(stray)));
    assert_eq!(doc.ops.len(), ops_before);
    assert_eq!(doc.nodes[t.0].parent, None);
}

#[test]
fn attributes_and_style_round_trip() {
    let mut doc = get_document();
    let e = doc.create_element("a".to_string());
    e.set_id(&mut doc, "link".to_string());
    e.set_href(&mut doc, "#top".to_string());
    e.set_target(&mut doc, "_blank".to_string());
    e.set_style_property(&mut doc, StyleProp::Color, "red".to_string());
    assert_eq!(doc.nodes[e.0].id_attr, Some("link".to_string()));
    assert_eq!(doc.nodes[e.0].href_attr, Some("#top".to_string()));
    assert_eq!(doc.nodes[e.0].style.color, Some("red".to_string()));
    e.remove_attribute(&mut doc, Attr::Style);
    assert_eq!(doc.nodes[e.0].style.color, None);
    e.remove_attribute(&mut doc, Attr::Id);
    assert_eq!(doc.nodes[e.0].id_attr, None);
    // Every mutation was logged.
    assert_eq!(doc.ops.len(), 7);
    assert!(matches!(doc.ops[0], SurfaceOp::CreateElement { .. }));
}

#[test]
fn text_content_and_value_round_trip() {
    let mut doc = get_document();
    let t = doc.create_text_node("before".to_string());
    t.set_text_content(&mut doc, "after".to_string());
    assert_eq!(doc.nodes[t.0].text, "after".to_string());
    let e = doc.create_element("input".to_string());
    e.set_value(&mut doc, "v1".to_string());
    assert_eq!(e.get_value(&doc), "v1".to_string());
}

#[test]
fn listener_identity_governs_removal() {
    let mut doc = get_document();
    let e = doc.create_element("button".to_string());
    let cb = Callback::new(
        Some(EventAction::SetStateText {
            component: 0,
            text: "hi".to_string(),
        }),
        7,
    );
    e.add_event_listener(&mut doc, jazz::html::EventName::Click, cb.clone());
    assert_eq!(doc.nodes[e.0].listeners.click.id, 7);
    // Removing under a different identity does nothing.
    let other = Callback::new(None, 8);
    e.remove_event_listener(&mut doc, jazz::html::EventName::Click, other);
    assert_eq!(doc.nodes[e.0].listeners.click.id, 7);
    // Removing under the attached identity clears the slot.
    e.remove_event_listener(&mut doc, jazz::html::EventName::Click, cb);
    assert_eq!(doc.nodes[e.0].listeners.click.id, 0);
}

#[test]
fn value_equality_is_by_contents_and_identity() {
    // Strings compare by contents.
    assert!(value_eq(
        &Value::Str("ab".to_string()),
        &Value::Str("ab".to_string())
    ));
    assert!(!value_eq(
        &Value::Str("ab".to_string()),
        &Value::Str("ba".to_string())
    ));
    // Callbacks compare by identifier, not by the action they carry.
    let p1 = HtmlProps {
        on_click: Callback::new(None, 3),
        ..HtmlProps::default()
    };
    let p2 = HtmlProps {
        on_click: Callback::new(
            Some(EventAction::SetStateText {
                component: 9,
                text: "x".to_string(),
            }),
            3,
        ),
        ..HtmlProps::default()
    };
    assert!(value_eq(&Value::Html(p1), &Value::Html(p2)));
    // List references compare by identity, never by contents.
    assert!(!value_eq(
        &Value::Slot(SlotProps { components: 0 }),
        &Value::Slot(SlotProps { components: 1 })
    ));
    // Different variants never compare equal.
    assert!(!value_eq(&Value::Unit, &Value::Bool(false)));
}

#[test]
fn pull_rules_evaluate_as_specified() {
    let props = Value::Int(1);
    let state = Value::Str("s".to_string());
    assert_eq!(
        eval_pull(&PullFn::PropsOf, &props, &state),
        Some(Value::Int(1))
    );
    assert_eq!(
        eval_pull(&PullFn::StateOf, &props, &state),
        Some(Value::Str("s".to_string()))
    );
    assert_eq!(eval_pull(&PullFn::Nothing, &props, &state), None);
    assert_eq!(
        eval_pull(&PullFn::TextOfState, &props, &state),
        Some(Value::TextProps(HtmlTextProps {
            text_content: "s".to_string()
        }))
    );
    // A textual pull on a non-textual state yields nothing.
    assert_eq!(eval_pull(&PullFn::TextOfState, &props, &Value::Int(2)), None);
    let st = Value::CondState(IfState {
        if_children: 4,
        else_children: 5,
        visible_children: 5,
    });
    assert_eq!(
        eval_pull(&PullFn::SlotOfCondState, &props, &st),
        Some(Value::Slot(SlotProps { components: 5 }))
    );
}
