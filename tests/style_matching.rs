use azul_core::css::{
    Css, CssPath, CssPathPseudoSelector, CssPathSelector, CssProperty, CssPropertyType,
    CssRuleBlock, NodeTypePath,
};
use azul_core::dom::{Dom, DomId, NodeId};
use azul_core::ids::IdCounter;
use azul_core::ui_description::{FocusTarget, UiDescription};
use azul_core::ui_state::{ui_state_from_dom, ActiveHover, HoverGroup};

fn rule(selectors: Vec<CssPathSelector>, decls: Vec<(CssPropertyType, &str)>, specificity: usize) -> CssRuleBlock {
    CssRuleBlock {
        path: CssPath { selectors },
        declarations: decls
            .into_iter()
            .map(|(t, v)| CssProperty::new(t, String::from(v)))
            .collect(),
        specificity,
    }
}

#[test]
fn hover_rule_selects_and_tags_the_node() {
    let dom: Dom<u32> = Dom::div().with_child(Dom::div().with_id(String::from("foo")));
    let css = Css {
        rules: vec![rule(
            vec![
                CssPathSelector::Id(String::from("foo")),
                CssPathSelector::PseudoSelector(CssPathPseudoSelector::Hover),
            ],
            vec![(CssPropertyType::Background, "red")],
            110,
        )],
    };
    let mut dom_ids = IdCounter::new();
    let mut ui_state = ui_state_from_dom(dom, None, &mut dom_ids);
    let mut focused = None;
    let mut pending = None;
    let descr = UiDescription::match_css_to_dom(
        &mut ui_state,
        &css,
        &mut focused,
        &mut pending,
        &vec![NodeId::new(1)],
        false,
    );
    let group = HoverGroup { affects_layout: false, active_or_hover: ActiveHover::Hover };
    assert_eq!(descr.selected_hover_nodes, vec![(NodeId::new(1), group)]);
    assert_eq!(
        descr.styled_nodes[1].css_constraints,
        vec![CssProperty::new(CssPropertyType::Background, String::from("red"))]
    );
    assert!(descr.styled_nodes[0].css_constraints.is_empty());
    assert_eq!(ui_state.node_ids_to_tag_ids, vec![(NodeId::new(1), 0)]);
    assert_eq!(ui_state.tag_ids_to_hover_active_states, vec![(0, (NodeId::new(1), group))]);
    assert!(!descr.focus_target_not_found);
}

#[test]
fn hover_rule_selects_unhovered_node_but_does_not_style_it() {
    let dom: Dom<u32> = Dom::div().with_class(String::from("b"));
    let css = Css {
        rules: vec![rule(
            vec![
                CssPathSelector::Class(String::from("b")),
                CssPathSelector::PseudoSelector(CssPathPseudoSelector::Active),
            ],
            vec![(CssPropertyType::Width, "5px")],
            20,
        )],
    };
    let mut dom_ids = IdCounter::new();
    let mut ui_state = ui_state_from_dom(dom, None, &mut dom_ids);
    let descr = UiDescription::match_css_to_dom(&mut ui_state, &css, &mut None, &mut None, &vec![], false);
    assert_eq!(
        descr.selected_hover_nodes,
        vec![(NodeId::new(0), HoverGroup { affects_layout: true, active_or_hover: ActiveHover::Active })]
    );
    assert!(descr.styled_nodes[0].css_constraints.is_empty());
}

#[test]
fn more_specific_rule_wins_and_later_rule_breaks_ties() {
    let dom: Dom<u32> = Dom::div().with_id(String::from("x")).with_class(String::from("c"));
    let css = Css {
        rules: vec![
            rule(vec![CssPathSelector::Id(String::from("x"))], vec![(CssPropertyType::TextColor, "blue")], 100),
            rule(vec![CssPathSelector::Class(String::from("c"))], vec![(CssPropertyType::TextColor, "green"), (CssPropertyType::Width, "1px")], 10),
            rule(vec![CssPathSelector::Type(NodeTypePath::Div)], vec![(CssPropertyType::Width, "2px")], 10),
            rule(vec![CssPathSelector::Type(NodeTypePath::P)], vec![(CssPropertyType::Height, "3px")], 1),
        ],
    };
    let mut dom_ids = IdCounter::new();
    let mut ui_state = ui_state_from_dom(dom, None, &mut dom_ids);
    let descr = UiDescription::match_css_to_dom(&mut ui_state, &css, &mut None, &mut None, &vec![], false);
    assert_eq!(
        descr.styled_nodes[0].css_constraints,
        vec![
            CssProperty::new(CssPropertyType::TextColor, String::from("blue")),
            CssProperty::new(CssPropertyType::Width, String::from("2px")),
        ]
    );
}

#[test]
fn child_and_descendant_combinators() {
    let dom: Dom<u32> = Dom::body().with_child(Dom::div().with_child(Dom::label(String::from("t"))));
    let css = Css {
        rules: vec![
            rule(
                vec![CssPathSelector::Type(NodeTypePath::Body), CssPathSelector::DirectChildren, CssPathSelector::Type(NodeTypePath::P)],
                vec![(CssPropertyType::FontSize, "1px")],
                2,
            ),
            rule(
                vec![CssPathSelector::Type(NodeTypePath::Body), CssPathSelector::Children, CssPathSelector::Type(NodeTypePath::P)],
                vec![(CssPropertyType::LineHeight, "2")],
                2,
            ),
        ],
    };
    let mut dom_ids = IdCounter::new();
    let mut ui_state = ui_state_from_dom(dom, None, &mut dom_ids);
    let descr = UiDescription::match_css_to_dom(&mut ui_state, &css, &mut None, &mut None, &vec![], false);
    assert_eq!(descr.styled_nodes[2].css_constraints, vec![CssProperty::new(CssPropertyType::LineHeight, String::from("2"))]);
    assert!(descr.styled_nodes[1].css_constraints.is_empty());
}

#[test]
fn focus_request_moves_focus_and_styles_focus() {
    let dom: Dom<u32> = Dom::div().with_child(Dom::div()).with_child(Dom::div().with_class(String::from("f")));
    let css = Css {
        rules: vec![rule(
            vec![CssPathSelector::PseudoSelector(CssPathPseudoSelector::Focus)],
            vec![(CssPropertyType::BorderColor, "black")],
            10,
        )],
    };
    let mut dom_ids = IdCounter::new();
    let mut ui_state = ui_state_from_dom(dom, None, &mut dom_ids);
    let dom_id = ui_state.dom_id;
    let mut focused = None;
    let mut pending = Some(FocusTarget::Path(dom_id, CssPath { selectors: vec![CssPathSelector::Class(String::from("f"))] }));
    let descr = UiDescription::match_css_to_dom(&mut ui_state, &css, &mut focused, &mut pending, &vec![], false);
    assert_eq!(focused, Some((dom_id, NodeId::new(2))));
    assert!(pending.is_none());
    assert!(!descr.focus_target_not_found);
    assert_eq!(descr.styled_nodes[2].css_constraints.len(), 1);
    assert!(descr.styled_nodes[1].css_constraints.is_empty());

    let mut pending = Some(FocusTarget::Id(dom_id, NodeId::new(7)));
    let descr = UiDescription::match_css_to_dom(&mut ui_state, &css, &mut focused, &mut pending, &vec![], false);
    assert!(descr.focus_target_not_found);
    assert_eq!(focused, Some((dom_id, NodeId::new(2))));
    assert!(pending.is_none());

    let mut pending = Some(FocusTarget::Id(dom_id, NodeId::new(1)));
    UiDescription::match_css_to_dom(&mut ui_state, &css, &mut focused, &mut pending, &vec![], false);
    assert_eq!(focused, Some((dom_id, NodeId::new(1))));

    let mut pending = Some(FocusTarget::NoFocus);
    UiDescription::match_css_to_dom(&mut ui_state, &css, &mut focused, &mut pending, &vec![], false);
    assert_eq!(focused, None);

    let other = DomId { id: dom_id.id + 5, parent: None };
    let mut pending = Some(FocusTarget::Id(other, NodeId::new(0)));
    let descr = UiDescription::match_css_to_dom(&mut ui_state, &css, &mut focused, &mut pending, &vec![], false);
    assert!(descr.focus_target_not_found);
    assert_eq!(focused, None);
}

#[test]
fn active_needs_the_mouse_down() {
    let dom: Dom<u32> = Dom::div();
    let css = Css {
        rules: vec![rule(
            vec![CssPathSelector::Global, CssPathSelector::PseudoSelector(CssPathPseudoSelector::Active)],
            vec![(CssPropertyType::Cursor, "pointer")],
            10,
        )],
    };
    let mut dom_ids = IdCounter::new();
    let mut ui_state = ui_state_from_dom(dom, None, &mut dom_ids);
    let up = UiDescription::match_css_to_dom(&mut ui_state, &css, &mut None, &mut None, &vec![NodeId::new(0)], false);
    assert!(up.styled_nodes[0].css_constraints.is_empty());
    let down = UiDescription::match_css_to_dom(&mut ui_state, &css, &mut None, &mut None, &vec![NodeId::new(0)], true);
    assert_eq!(down.styled_nodes[0].css_constraints.len(), 1);
    assert!(Css::empty().rules.is_empty());
}
