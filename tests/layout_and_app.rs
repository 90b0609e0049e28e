use azul_core::app::{ui_state_from_app_state, RuntimeError, WindowId};
use azul_core::css::CssPropertyType;
use azul_core::dom::{Dom, EventFilter, HoverEventFilter, On, TabIndex};
use azul_core::ids::IdCounter;
use azul_core::layout_style::{
    AlignContent, AlignItems, AlignSelf, BoxSizing, Direction, Display, FlexDirection, FlexWrap,
    JustifyContent, Offsets, Overflow, PositionType, Size,
};

#[test]
fn defaults_of_the_style_enums() {
    assert_eq!(AlignItems::default(), AlignItems::Stretch);
    assert_eq!(AlignSelf::default(), AlignSelf::Auto);
    assert_eq!(AlignContent::default(), AlignContent::Stretch);
    assert_eq!(Direction::default(), Direction::Inherit);
    assert_eq!(Display::default(), Display::Flex);
    assert_eq!(FlexDirection::default(), FlexDirection::Row);
    assert_eq!(JustifyContent::default(), JustifyContent::FlexStart);
    assert_eq!(Overflow::default(), Overflow::Visible);
    assert_eq!(PositionType::default(), PositionType::Relative);
    assert_eq!(FlexWrap::default(), FlexWrap::NoWrap);
    assert_eq!(BoxSizing::default(), BoxSizing::ContentBox);
}

#[test]
fn flex_direction_axes() {
    assert!(FlexDirection::Row.is_row());
    assert!(FlexDirection::RowReverse.is_row());
    assert!(FlexDirection::Column.is_column());
    assert!(!FlexDirection::Column.is_row());
    assert!(FlexDirection::ColumnReverse.is_reverse());
    assert!(!FlexDirection::Row.is_reverse());
    let size = Size { width: 1, height: 2 };
    assert_eq!(size.main(FlexDirection::Row), 1);
    assert_eq!(size.main(FlexDirection::ColumnReverse), 2);
    assert_eq!(size.cross(FlexDirection::RowReverse), 2);
    assert_eq!(size.cross(FlexDirection::Column), 1);
    let margin = Offsets { right: 1, left: 2, top: 3, bottom: 4 };
    assert_eq!(margin.main_start(FlexDirection::Row), 2);
    assert_eq!(margin.main_end(FlexDirection::Row), 1);
    assert_eq!(margin.main_start(FlexDirection::Column), 3);
    assert_eq!(margin.main_end(FlexDirection::Column), 4);
    assert_eq!(margin.cross_start(FlexDirection::Row), 3);
    assert_eq!(margin.cross_end(FlexDirection::Row), 4);
    assert_eq!(margin.cross_start(FlexDirection::Column), 2);
    assert_eq!(margin.cross_end(FlexDirection::Column), 1);
}

#[test]
fn align_self_auto_inherits() {
    assert_eq!(AlignSelf::Auto.resolve(AlignItems::Center), AlignSelf::Center);
    assert_eq!(AlignSelf::Auto.resolve(AlignItems::Baseline), AlignSelf::Baseline);
    assert_eq!(AlignSelf::FlexEnd.resolve(AlignItems::Center), AlignSelf::FlexEnd);
}

#[test]
fn missing_window_skips_the_frame() {
    let windows: Vec<(WindowId, u8)> = vec![(WindowId { id: 1 }, 0)];
    let found = windows.iter().find(|w| w.0 == WindowId { id: 2 }).map(|w| &w.1);
    let mut dom_ids = IdCounter::new();
    let r = ui_state_from_app_state(&5u32, found, None, &mut dom_ids, |_d: &u32, _w: &u8| Dom::<u32>::div());
    assert!(matches!(r, Err(RuntimeError::WindowIndexError)));
    assert_eq!(dom_ids.next, 0);
    assert_eq!(RuntimeError::WindowIndexError.message(), "Invalid window index");
}

#[test]
fn layout_of_an_existing_window() {
    let window = 3u8;
    let mut dom_ids = IdCounter::new();
    let r = ui_state_from_app_state(&5u32, Some(&window), None, &mut dom_ids, |d: &u32, w: &u8| {
        Dom::<u32>::div().with_callback(On::MouseUp.event_filter(), *d + *w as u32)
    });
    let s = r.ok().unwrap();
    assert_eq!(s.hover_callbacks[0].1, vec![(HoverEventFilter::MouseUp, 8)]);
    assert_eq!(s.dom_id.id, 0);
    assert_eq!(dom_ids.next, 1);
}

#[test]
fn relayout_properties() {
    assert!(CssPropertyType::Width.can_trigger_relayout());
    assert!(CssPropertyType::FlexGrow.can_trigger_relayout());
    assert!(!CssPropertyType::Background.can_trigger_relayout());
    assert!(!CssPropertyType::TextColor.can_trigger_relayout());
}

#[test]
fn tab_index_numbers_and_dump() {
    assert_eq!(TabIndex::Auto.get_index(), 0);
    assert_eq!(TabIndex::OverrideZero.get_index(), 0);
    assert_eq!(TabIndex::Override(7).get_index(), 7);
    let dom: Dom<u32> = Dom::div().with_tab_index(TabIndex::Override(7));
    assert_eq!(dom.debug_dump(), "<div tabindex=\"7\"></div>\r\n");
    assert_eq!(On::FocusLost.event_filter(), EventFilter::Focus(azul_core::dom::FocusEventFilter::FocusLost));
    assert_eq!(On::MouseOver.event_filter(), EventFilter::Hover(HoverEventFilter::MouseOver));
}

#[test]
fn malformed_tree_is_detected() {
    let mut dom: Dom<u32> = Dom::div().with_child(Dom::div());
    assert!(dom.is_well_formed());
    dom.arena.node_layout[1].parent = None;
    assert!(!dom.is_well_formed());
}
