use jazz::cells::PullFn;
use jazz::component::{AnyComponent, ComponentKind};
use jazz::html::{get_document, EventName, SurfaceOp};
use jazz::system::{ComponentSystem, ConfigKind};
use jazz::values::{SlotProps, Value};

const FUEL: u32 = 64;

fn dom_of(sys: &ComponentSystem, c: u32) -> usize {
    match &sys.components[c as usize].as_ref().unwrap().kind {
        ComponentKind::Text(t) => t.dom_node.0,
        ComponentKind::Html(h) => h.dom_node.0,
        _ => panic!("component owns no DOM node"),
    }
}

#[test]
fn binding_propagation_through_one_frame() {
    // Producer P with state S, consumer C bound via a pull of the state:
    // setting the state and flushing one frame leaves C's props at the
    // pulled value.
    let mut doc = get_document();
    let mut sys = ComponentSystem::new();
    let p = sys.create_component(ConfigKind::Plain);
    let c = sys.create_component(ConfigKind::Plain);
    p.set_visible(&mut sys, true, FUEL);
    c.set_visible(&mut sys, true, FUEL);
    c.bind(&mut sys, &mut doc, &p, PullFn::StateOf, FUEL);
    p.state().set(&mut sys, Value::Str("s1".to_string()));
    sys.run_frame(&mut doc, FUEL);
    assert_eq!(c.props(&sys), Value::Str("s1".to_string()));
    // The producer's own state took the pending value.
    assert_eq!(p.state().value(&sys), Value::Str("s1".to_string()));
}

#[test]
fn binding_returning_nothing_keeps_value() {
    let mut doc = get_document();
    let mut sys = ComponentSystem::new();
    let p = sys.create_component(ConfigKind::Plain);
    let c = sys.create_component(ConfigKind::Plain);
    p.set_visible(&mut sys, true, FUEL);
    c.set_visible(&mut sys, true, FUEL);
    // Populate the consumer once, then rebind to a pull that yields nothing.
    c.update(
        &mut sys,
        &mut doc,
        Some(Value::Str("kept".to_string())),
        None,
        FUEL,
    );
    c.bind(&mut sys, &mut doc, &p, PullFn::Nothing, FUEL);
    p.state().set(&mut sys, Value::Int(5));
    sys.run_frame(&mut doc, FUEL);
    assert_eq!(c.props(&sys), Value::Str("kept".to_string()));
}

#[test]
fn visibility_aliasing_both_directions() {
    let mut sys = ComponentSystem::new();
    let parent = sys.create_component(ConfigKind::Plain);
    let child = sys.create_component(ConfigKind::Plain);
    parent.set_visible(&mut sys, true, FUEL);
    child.any().track_visible(&mut sys, &parent.any());
    assert!(child.visible(&sys));
    parent.set_visible(&mut sys, false, FUEL);
    assert!(!child.visible(&sys));
    // Toggling the child's own cell flips the parent too.
    child.set_visible(&mut sys, true, FUEL);
    assert!(parent.visible(&sys));
}

#[test]
fn idempotent_rerender_performs_no_surface_mutations() {
    let mut doc = get_document();
    let mut sys = ComponentSystem::new();
    let div = sys.create_html_component(
        &mut doc,
        "div".to_string(),
        jazz::component::HtmlConfig::Plain,
    );
    let text = sys.create_text_component(&mut doc, "hello".to_string());
    div.set_children(&mut sys, vec![text.any()]);
    let body = doc.body;
    sys.mount_component(&mut doc, &body, div.any(), FUEL);
    sys.run_frame(&mut doc, FUEL);
    let ops_after_first = doc.ops.len();
    // A second render pass on the unchanged, already-rendered node performs
    // zero additional surface mutations.
    sys.render_component(&mut doc, div.0, FUEL);
    assert_eq!(doc.ops.len(), ops_after_first);
}

#[test]
fn reconciliation_orders_three_texts_with_one_insert_each() {
    let mut doc = get_document();
    let mut sys = ComponentSystem::new();
    let div = sys.create_html_component(
        &mut doc,
        "div".to_string(),
        jazz::component::HtmlConfig::Plain,
    );
    let t1 = sys.create_text_component(&mut doc, "t1".to_string());
    let t2 = sys.create_text_component(&mut doc, "t2".to_string());
    let t3 = sys.create_text_component(&mut doc, "t3".to_string());
    let w1 = sys.create_foreach_item_component(div.any(), "item".to_string(), None);
    let w2 = sys.create_foreach_item_component(div.any(), "item".to_string(), None);
    let w3 = sys.create_foreach_item_component(div.any(), "item".to_string(), None);
    w1.set_children(&mut sys, vec![t1.any()]);
    w2.set_children(&mut sys, vec![t2.any()]);
    w3.set_children(&mut sys, vec![t3.any()]);
    div.set_children(&mut sys, vec![w1.any(), w2.any(), w3.any()]);
    let body = doc.body;
    sys.mount_component(&mut doc, &body, div.any(), FUEL);
    sys.run_frame(&mut doc, FUEL);

    let d1 = dom_of(&sys, t1.0);
    let d2 = dom_of(&sys, t2.0);
    let d3 = dom_of(&sys, t3.0);
    let dd = dom_of(&sys, div.0);
    // Exactly one insertion per text node, all directly inside the div.
    for d in [d1, d2, d3] {
        let inserts = doc
            .ops
            .iter()
            .filter(|op| matches!(op, SurfaceOp::InsertBefore { node, .. } if *node == d))
            .count();
        assert_eq!(inserts, 1);
    }
    // Sibling order inside the div is t1, t2, t3.
    assert_eq!(doc.nodes[dd].children, vec![d1, d2, d3]);
    // A second reconciliation pass with unchanged children performs zero
    // redundant moves.
    let ops_before = doc.ops.len();
    sys.update_html(&mut doc, div.0, FUEL);
    assert_eq!(doc.ops.len(), ops_before);
}

#[test]
fn invisible_subtree_removal_removes_each_node_once() {
    let mut doc = get_document();
    let mut sys = ComponentSystem::new();
    let w = sys.create_foreach_item_component(AnyComponent(0), "item".to_string(), None);
    let t1 = sys.create_text_component(&mut doc, "a".to_string());
    let t2 = sys.create_text_component(&mut doc, "b".to_string());
    w.set_children(&mut sys, vec![t1.any(), t2.any()]);
    let body = doc.body;
    sys.mount_component(&mut doc, &body, w.any(), FUEL);
    sys.run_frame(&mut doc, FUEL);
    let d1 = dom_of(&sys, t1.0);
    let d2 = dom_of(&sys, t2.0);
    assert_eq!(doc.nodes[d1].parent, Some(doc.body.0));
    assert_eq!(doc.nodes[d2].parent, Some(doc.body.0));

    w.any().set_visible(&mut sys, false, FUEL);
    sys.update_html(&mut doc, w.0, FUEL);
    assert_eq!(doc.nodes[d1].parent, None);
    assert_eq!(doc.nodes[d2].parent, None);
    for d in [d1, d2] {
        let removes = doc
            .ops
            .iter()
            .filter(|op| matches!(op, SurfaceOp::Remove { node } if *node == d))
            .count();
        assert_eq!(removes, 1);
    }
    // Reconciling again removes nothing twice.
    let ops_before = doc.ops.len();
    sys.update_html(&mut doc, w.0, FUEL);
    assert_eq!(doc.ops.len(), ops_before);
    // A render of the now invisible subtree performs no child expansion and
    // no surface work.
    sys.render_component(&mut doc, w.0, FUEL);
    assert_eq!(doc.ops.len(), ops_before);
}

#[test]
fn slot_identity_short_circuit() {
    let mut doc = get_document();
    let mut sys = ComponentSystem::new();
    let slot = sys.create_component(ConfigKind::Slot);
    let t1 = sys.create_text_component(&mut doc, "x".to_string());
    let body = doc.body;
    sys.mount_component(&mut doc, &body, slot.any(), FUEL);
    sys.run_frame(&mut doc, FUEL);

    // Bind the slot to a fresh list holding the text component.
    let l1 = sys.new_component_list(vec![t1.0]);
    slot.update(
        &mut sys,
        &mut doc,
        Some(Value::Slot(SlotProps { components: l1 })),
        None,
        FUEL,
    );
    sys.run_frame(&mut doc, FUEL);
    let nodes_after_l1 = sys.components[slot.0 as usize]
        .as_ref()
        .unwrap()
        .nodes
        .clone();
    assert_eq!(nodes_after_l1, Some(vec![t1.0]));

    // Rebinding to the same list reference performs no teardown or rebuild.
    let ops_before = doc.ops.len();
    let changed = slot.update(
        &mut sys,
        &mut doc,
        Some(Value::Slot(SlotProps { components: l1 })),
        None,
        FUEL,
    );
    assert!(!changed);
    assert_eq!(doc.ops.len(), ops_before);

    // A new list reference of equal contents still rebuilds, by design.
    let l2 = sys.new_component_list(vec![t1.0]);
    assert_ne!(l1, l2);
    let changed = slot.update(
        &mut sys,
        &mut doc,
        Some(Value::Slot(SlotProps { components: l2 })),
        None,
        FUEL,
    );
    assert!(changed);
    let nodes_after_l2 = sys.components[slot.0 as usize]
        .as_ref()
        .unwrap()
        .nodes
        .clone();
    assert_eq!(nodes_after_l2, Some(vec![t1.0]));
}

#[test]
fn dead_edge_pruning_after_consumer_dropped() {
    let mut doc = get_document();
    let mut sys = ComponentSystem::new();
    let p = sys.create_component(ConfigKind::Plain);
    let c = sys.create_component(ConfigKind::Plain);
    p.set_visible(&mut sys, true, FUEL);
    c.set_visible(&mut sys, true, FUEL);
    c.bind(&mut sys, &mut doc, &p, PullFn::StateOf, FUEL);
    assert_eq!(sys.components[p.0 as usize].as_ref().unwrap().desc.len(), 1);

    // Drop the consumer, then update its former producer: the dead edge is
    // pruned silently and nothing panics.
    sys.drop_component(c.any());
    p.update(
        &mut sys,
        &mut doc,
        None,
        Some(Value::Str("tick".to_string())),
        FUEL,
    );
    assert_eq!(sys.components[p.0 as usize].as_ref().unwrap().desc.len(), 0);
    assert!(sys.components[c.0 as usize].is_none());
}

#[test]
fn input_event_mirrors_value_into_state() {
    let mut doc = get_document();
    let mut sys = ComponentSystem::new();
    let input = sys.create_html_component(
        &mut doc,
        "input".to_string(),
        jazz::component::HtmlConfig::Input,
    );
    input.set_visible(&mut sys, true, FUEL);
    let e = match &sys.components[input.0 as usize].as_ref().unwrap().kind {
        ComponentKind::Html(h) => h.dom_node,
        _ => unreachable!(),
    };
    e.set_value(&mut doc, "typed".to_string());
    sys.fire_event(&doc, &e, EventName::Input);
    sys.run_frame(&mut doc, FUEL);
    assert_eq!(
        input.state().value(&sys),
        Value::Str("typed".to_string())
    );
}

#[test]
fn conditional_switches_active_branch() {
    let mut doc = get_document();
    let mut sys = ComponentSystem::new();
    let ta = sys.create_text_component(&mut doc, "then".to_string());
    let tb = sys.create_text_component(&mut doc, "else".to_string());
    let cond = sys.create_component(ConfigKind::Cond);
    // Give the conditional populated branch lists through its state.
    let l_if = sys.new_component_list(vec![ta.0]);
    let l_else = sys.new_component_list(vec![tb.0]);
    cond.state().set(
        &mut sys,
        Value::CondState(jazz::values::IfState {
            if_children: l_if,
            else_children: l_else,
            visible_children: l_else,
        }),
    );
    let body = doc.body;
    sys.mount_component(&mut doc, &body, cond.any(), FUEL);
    sys.run_frame(&mut doc, FUEL);
    // The conditional rendered one slot bound to its visible branch.
    let nodes = sys.components[cond.0 as usize]
        .as_ref()
        .unwrap()
        .nodes
        .clone()
        .unwrap();
    assert_eq!(nodes.len(), 1);

    // Flip the condition: the visible branch becomes the then-branch.
    cond.update(&mut sys, &mut doc, Some(Value::Bool(true)), None, FUEL);
    sys.run_frame(&mut doc, FUEL);
    sys.run_frame(&mut doc, FUEL);
    match cond.state().value(&sys) {
        Value::CondState(st) => assert_eq!(st.visible_children, l_if),
        other => panic!("unexpected state {:?}", other),
    }
}

#[test]
fn foreach_rebuilds_item_cache_on_update() {
    let mut doc = get_document();
    let mut sys = ComponentSystem::new();
    let fe = sys.create_foreach_component("item".to_string(), None, AnyComponent(0));
    fe.set_visible(&mut sys, true, FUEL);
    let cache_list = match &sys.components[fe.0 as usize].as_ref().unwrap().kind {
        ComponentKind::Foreach(fd) => fd.items,
        _ => unreachable!(),
    };
    // Hand the container a fresh item list through its props.
    let items = sys.new_value_list(vec![Value::Int(1), Value::Int(2)]);
    fe.update(
        &mut sys,
        &mut doc,
        Some(Value::Foreach(jazz::values::ForeachProps { items })),
        None,
        FUEL,
    );
    assert_eq!(
        sys.value_lists[cache_list as usize],
        vec![Value::Int(1), Value::Int(2)]
    );
}

#[test]
fn update_on_invisible_node_applies_no_values() {
    let mut doc = get_document();
    let mut sys = ComponentSystem::new();
    let c = sys.create_component(ConfigKind::Plain);
    // Components start invisible; an update applies no new values at all.
    let changed = c.update(
        &mut sys,
        &mut doc,
        Some(Value::Int(7)),
        None,
        FUEL,
    );
    assert!(!changed);
    assert_eq!(c.props(&sys), Value::Unit);
    assert!(!c.visible(&sys));
}

#[test]
fn html_attribute_sync_writes_id_and_class() {
    let mut doc = get_document();
    let mut sys = ComponentSystem::new();
    let div = sys.create_html_component(
        &mut doc,
        "div".to_string(),
        jazz::component::HtmlConfig::Plain,
    );
    div.set_visible(&mut sys, true, FUEL);
    let mut props = jazz::values::HtmlProps::default();
    props.id = Some("main".to_string());
    props.class_name = Some("wide".to_string());
    div.update(&mut sys, &mut doc, Some(Value::Html(props)), None, FUEL);
    let d = dom_of(&sys, div.0);
    assert_eq!(doc.nodes[d].id_attr, Some("main".to_string()));
    assert_eq!(doc.nodes[d].class_attr, Some("wide".to_string()));
}

#[test]
fn reentrant_update_reports_no_change() {
    let mut doc = get_document();
    let mut sys = ComponentSystem::new();
    let c = sys.create_component(ConfigKind::Plain);
    c.set_visible(&mut sys, true, FUEL);
    // A self-binding makes the update pass reach the node again through its
    // own dependent list; the reentrancy guard breaks the cycle.
    c.bind(&mut sys, &mut doc, &c, PullFn::StateOf, FUEL);
    let changed = c.update(
        &mut sys,
        &mut doc,
        None,
        Some(Value::Int(3)),
        FUEL,
    );
    assert!(changed);
    assert_eq!(c.state().value(&sys), Value::Int(3));
}

#[test]
fn render_returns_and_caches_child_list() {
    let mut doc = get_document();
    let mut sys = ComponentSystem::new();
    let w = sys.create_foreach_item_component(AnyComponent(0), "item".to_string(), None);
    let t = sys.create_text_component(&mut doc, "leaf".to_string());
    w.set_children(&mut sys, vec![t.any()]);
    let rendered = w.any().render(&mut sys, &mut doc, FUEL);
    assert_eq!(rendered.len(), 1);
    assert_eq!(rendered[0].0, t.0);
    assert_eq!(
        sys.components[w.0 as usize].as_ref().unwrap().nodes,
        Some(vec![t.0])
    );
}

#[test]
fn unbind_invalidates_the_edge() {
    let mut doc = get_document();
    let mut sys = ComponentSystem::new();
    let p = sys.create_component(ConfigKind::Plain);
    let c = sys.create_component(ConfigKind::Plain);
    p.set_visible(&mut sys, true, FUEL);
    c.set_visible(&mut sys, true, FUEL);
    c.bind(&mut sys, &mut doc, &p, PullFn::StateOf, FUEL);
    c.unbind(&mut sys);
    // The producer's next pass prunes the invalidated cell and leaves the
    // former consumer untouched.
    p.update(&mut sys, &mut doc, None, Some(Value::Int(1)), FUEL);
    assert_eq!(sys.components[p.0 as usize].as_ref().unwrap().desc.len(), 0);
    assert_eq!(c.props(&sys), Value::Unit);
}
