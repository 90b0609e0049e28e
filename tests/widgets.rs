use azul_core::button::{Button, ButtonContent};
use azul_core::dom::{Dom, ImageId, NodeType, TabIndex};

#[test]
fn test_button_ui_1() {
    struct Mock;

    let expected = String::from(
        "<div class=\"__azul-native-button\" tabindex=\"0\">\r\n    <p>Hello</p>\r\n</div>\r\n",
    );
    let button: Dom<Mock> = Button::with_label("Hello").dom();

    assert_eq!(expected, button.debug_dump());
}

#[test]
fn button_with_image_holds_an_image_node() {
    let button = Button::with_image(ImageId { id: 3 });
    assert_eq!(button.content, ButtonContent::Image(ImageId { id: 3 }));
    let dom: Dom<u32> = button.dom();
    assert_eq!(dom.len(), 2);
    assert_eq!(dom.arena.node_data[1].node_type, NodeType::Image(ImageId { id: 3 }));
    assert_eq!(dom.arena.node_data[0].tab_index, Some(TabIndex::Auto));
    assert!(dom.is_well_formed());
}

#[test]
fn debug_dump_nests_children() {
    let dom: Dom<u32> = Dom::div()
        .with_id(String::from("main"))
        .with_child(Dom::div().with_child(Dom::label(String::from("a"))))
        .with_child(Dom::image(ImageId { id: 1 }).is_draggable(true));
    let expected = "<div id=\"main\">\r\n    <div>\r\n        <p>a</p>\r\n    </div>\r\n    <img draggable=\"true\"></img>\r\n</div>\r\n";
    assert_eq!(dom.debug_dump(), expected);
}
