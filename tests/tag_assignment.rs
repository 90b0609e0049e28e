use azul_core::dom::{
    DefaultCallbackId, Dom, DomId, EventFilter, FocusEventFilter, HoverEventFilter, NodeId,
    NotEventFilter, On, ParentDom, TabIndex, WindowEventFilter,
};
use azul_core::css::{CssProperty, CssPropertyType};
use azul_core::ids::IdCounter;
use azul_core::ui_state::{
    ui_state_create_tags_for_hover_nodes, ui_state_from_dom, ActiveHover, HoverGroup, UiState,
};

fn consistent<C>(s: &UiState<C>) -> bool {
    s.node_ids_to_tag_ids.iter().all(|(n, t)| s.tag_ids_to_node_ids.contains(&(*t, *n)))
        && s.tag_ids_to_node_ids.iter().all(|(t, n)| s.node_ids_to_tag_ids.contains(&(*n, *t)))
}

#[test]
fn only_the_button_of_a_small_tree_gets_a_tag() {
    let button: Dom<u32> = Dom::div().with_callback(On::MouseUp.event_filter(), 7);
    let dom: Dom<u32> = Dom::div()
        .with_child(Dom::label(String::from("label")))
        .with_child(button);
    let mut dom_ids = IdCounter::new();
    let s = ui_state_from_dom(dom, None, &mut dom_ids);
    assert_eq!(s.tag_ids_to_node_ids, vec![(0, NodeId::new(2))]);
    assert_eq!(s.node_ids_to_tag_ids, vec![(NodeId::new(2), 0)]);
    assert_eq!(s.hover_callbacks.len(), 1);
    assert_eq!(s.hover_callbacks[0].0, NodeId::new(2));
    assert_eq!(s.hover_callbacks[0].1, vec![(HoverEventFilter::MouseUp, 7)]);
    assert!(s.draggable_tags.is_empty());
    assert!(s.tab_index_tags.is_empty());
    assert_eq!(s.next_tag_id, 1);
    assert!(consistent(&s));
}

#[test]
fn explicit_tab_index_and_focus_callback_share_one_tag() {
    let dom: Dom<u32> = Dom::div().with_child(
        Dom::div()
            .with_tab_index(TabIndex::Auto)
            .with_callback(EventFilter::Focus(FocusEventFilter::FocusReceived), 1),
    );
    let mut dom_ids = IdCounter::new();
    let s = ui_state_from_dom(dom, None, &mut dom_ids);
    assert_eq!(s.tag_ids_to_node_ids.len(), 1);
    let tag = s.tag_ids_to_node_ids[0].0;
    assert_eq!(s.tab_index_tags, vec![(tag, (NodeId::new(1), TabIndex::Auto))]);
    assert_eq!(s.focus_callbacks.len(), 1);
    assert_eq!(s.focus_callbacks[0].0, NodeId::new(1));
    assert_eq!(s.node_ids_to_tag_ids, vec![(NodeId::new(1), tag)]);
}

#[test]
fn focus_callback_alone_makes_a_node_focusable() {
    let dom: Dom<u32> = Dom::div()
        .with_child(Dom::div().with_callback(EventFilter::Focus(FocusEventFilter::TextInput), 1))
        .with_child(Dom::div().with_callback(EventFilter::Hover(HoverEventFilter::MouseDown), 2));
    let mut dom_ids = IdCounter::new();
    let s = ui_state_from_dom(dom, None, &mut dom_ids);
    assert_eq!(s.tab_index_tags, vec![(0, (NodeId::new(1), TabIndex::Auto))]);
    assert_eq!(s.tag_ids_to_node_ids, vec![(0, NodeId::new(1)), (1, NodeId::new(2))]);
}

#[test]
fn window_callbacks_never_make_a_tag() {
    let dom: Dom<u32> = Dom::div()
        .with_callback(EventFilter::Window(WindowEventFilter::Resized), 3)
        .with_default_callback_id((EventFilter::Window(WindowEventFilter::MouseDown), DefaultCallbackId { id: 4 }));
    let mut dom_ids = IdCounter::new();
    let s = ui_state_from_dom(dom, None, &mut dom_ids);
    assert!(s.node_ids_to_tag_ids.is_empty());
    assert!(s.tag_ids_to_node_ids.is_empty());
    assert_eq!(s.window_callbacks.len(), 1);
    assert_eq!(s.window_callbacks[0].1, vec![(WindowEventFilter::Resized, 3)]);
    assert_eq!(s.window_default_callbacks[0].1, vec![(WindowEventFilter::MouseDown, DefaultCallbackId { id: 4 })]);
    assert_eq!(s.next_tag_id, 0);
}

#[test]
fn draggable_and_focusable_node_gets_one_tag() {
    let dom: Dom<u32> = Dom::div().with_child(Dom::div().is_draggable(true).with_tab_index(TabIndex::Override(3)));
    let mut dom_ids = IdCounter::new();
    let s = ui_state_from_dom(dom, None, &mut dom_ids);
    assert_eq!(s.draggable_tags, vec![(0, NodeId::new(1))]);
    assert_eq!(s.tab_index_tags, vec![(0, (NodeId::new(1), TabIndex::Override(3)))]);
    assert_eq!(s.tag_ids_to_node_ids, vec![(0, NodeId::new(1))]);
}

#[test]
fn every_tag_has_a_reason_and_maps_mirror() {
    let dom: Dom<u32> = Dom::div()
        .with_child(Dom::div().with_callback(EventFilter::Not(NotEventFilter::Hover(HoverEventFilter::MouseUp)), 1))
        .with_child(Dom::div().with_default_callback_id((EventFilter::Hover(HoverEventFilter::MouseOver), DefaultCallbackId { id: 9 })))
        .with_child(Dom::label(String::from("plain")))
        .with_child(Dom::div().is_draggable(true));
    let mut dom_ids = IdCounter::new();
    let s = ui_state_from_dom(dom, None, &mut dom_ids);
    assert_eq!(
        s.tag_ids_to_node_ids,
        vec![(0, NodeId::new(1)), (1, NodeId::new(2)), (2, NodeId::new(4))]
    );
    assert!(consistent(&s));
    assert_eq!(s.not_callbacks[0].0, NodeId::new(1));
    assert_eq!(s.hover_default_callbacks[0].0, NodeId::new(2));
    assert_eq!(s.draggable_tags, vec![(2, NodeId::new(4))]);
}

#[test]
fn tag_assignment_is_deterministic() {
    let make = || -> Dom<u32> {
        Dom::div()
            .with_child(Dom::div().with_callback(On::MouseDown.event_filter(), 1))
            .with_child(Dom::div().is_draggable(true))
    };
    let mut dom_ids = IdCounter::new();
    let a = ui_state_from_dom(make(), None, &mut dom_ids);
    let b = ui_state_from_dom(make(), None, &mut dom_ids);
    assert_eq!(a.tag_ids_to_node_ids, b.tag_ids_to_node_ids);
    assert_eq!(a.node_ids_to_tag_ids, b.node_ids_to_tag_ids);
    assert_eq!(a.draggable_tags, b.draggable_tags);
    assert_eq!(a.hover_callbacks, b.hover_callbacks);
    assert_eq!(a.next_tag_id, b.next_tag_id);
    assert_eq!(a.dom_id.id, 0);
    assert_eq!(b.dom_id.id, 1);
}

#[test]
fn nested_tree_records_its_parent() {
    let mut dom_ids = IdCounter::new();
    let parent = ui_state_from_dom(Dom::<u32>::div(), None, &mut dom_ids);
    let child = ui_state_from_dom(Dom::<u32>::div(), Some((parent.dom_id, NodeId::new(0))), &mut dom_ids);
    assert_eq!(child.dom_id, DomId { id: 1, parent: Some(ParentDom { dom_id: 0, node_id: NodeId::new(0) }) });
    assert_eq!(dom_ids.next, 2);
}

#[test]
fn hover_pass_reuses_and_mints_tags() {
    let dom: Dom<u32> = Dom::div()
        .with_child(Dom::div().with_callback(On::MouseUp.event_filter(), 1))
        .with_child(Dom::div());
    let mut dom_ids = IdCounter::new();
    let mut s = ui_state_from_dom(dom, None, &mut dom_ids);
    let group = HoverGroup { affects_layout: true, active_or_hover: ActiveHover::Hover };
    ui_state_create_tags_for_hover_nodes(&mut s, &vec![(NodeId::new(1), group), (NodeId::new(2), group)]);
    assert_eq!(s.node_ids_to_tag_ids, vec![(NodeId::new(1), 0), (NodeId::new(2), 1)]);
    assert_eq!(s.tag_ids_to_node_ids, vec![(0, NodeId::new(1)), (1, NodeId::new(2))]);
    assert_eq!(
        s.tag_ids_to_hover_active_states,
        vec![(0, (NodeId::new(1), group)), (1, (NodeId::new(2), group))]
    );
    assert_eq!(s.next_tag_id, 2);
    assert!(consistent(&s));
}

#[test]
fn overrides_are_copied_per_node() {
    let prop = CssProperty::new(CssPropertyType::Width, String::from("10px"));
    let dom: Dom<u32> = Dom::div().with_child(Dom::div().with_css_override((String::from("w"), prop.clone())));
    let mut dom_ids = IdCounter::new();
    let s = ui_state_from_dom(dom, None, &mut dom_ids);
    assert_eq!(s.dynamic_css_overrides, vec![(NodeId::new(1), vec![(String::from("w"), prop)])]);
}

#[test]
fn repeated_filter_keeps_the_later_callback() {
    let dom: Dom<u32> = Dom::div()
        .with_callback(On::MouseUp.event_filter(), 1)
        .with_callback(On::MouseDown.event_filter(), 2)
        .with_callback(On::MouseUp.event_filter(), 3);
    let mut dom_ids = IdCounter::new();
    let s = ui_state_from_dom(dom, None, &mut dom_ids);
    assert_eq!(
        s.hover_callbacks[0].1,
        vec![(HoverEventFilter::MouseUp, 3), (HoverEventFilter::MouseDown, 2)]
    );
}
