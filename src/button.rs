use vstd::prelude::*;
use vstd::string::StringExecFns;
use crate::dom::{Dom, ImageId, NodeType, TabIndex, appended_layout};

verus! {

/// What a button shows.
#[derive(Debug, Clone, PartialEq, Eq, Hash)]
pub enum ButtonContent {
    Image(ImageId),
    // Buttons should only contain short amounts of text
    Text(String),
}

/// A clickable button widget.
#[derive(Debug, Clone, PartialEq, Eq, Hash)]
pub struct Button {
    pub content: ButtonContent,
}

/// The class that every button's root node carries.
pub open spec fn button_class() -> Seq<char> {
    "__azul-native-button"@
}

impl Button {
    /// A button that shows a text.
    pub fn with_label(text: &str) -> (r: Button)
        ensures
            r.content matches ButtonContent::Text(s) && s@ == text@,
    {
        Button { content: ButtonContent::Text(String::from_str(text)) }
    }

    /// A button that shows an image.
    pub fn with_image(image: ImageId) -> (r: Button)
        ensures
            r.content == ButtonContent::Image(image),
    {
        Button { content: ButtonContent::Image(image) }
    }

    /// The tree of the button: a focusable `div` with the button class, whose
    /// one child is a label with the text or an image node.
    pub fn dom<C>(self) -> (r: Dom<C>)
        ensures
            r.wf(),
            r.arena.node_data@.len() == 2,
            r.root_data().node_type == NodeType::Div,
            r.root_data().classes@.len() == 1,
            r.root_data().classes@[0]@ == button_class(),
            r.root_data().ids@.len() == 0,
            r.root_data().tab_index == Some(TabIndex::Auto),
            r.root_data().callbacks@.len() == 0,
            r.root_data().default_callback_ids@.len() == 0,
            !r.root_data().is_draggable,
            r.arena.node_layout@[1].parent == Some(crate::dom::NodeId { index: 0 }),
            self.content matches ButtonContent::Text(s) ==> r.arena.node_data@[1].node_type
                == NodeType::Label(s),
            self.content matches ButtonContent::Image(i) ==> r.arena.node_data@[1].node_type
                == NodeType::Image(i),
    {
        proof {
            reveal_strlit("__azul-native-button");
        }
        let mut button_root: Dom<C> = Dom::div().with_class(
            String::from_str("__azul-native-button"),
        ).with_tab_index(TabIndex::Auto);
        let child: Dom<C> = match self.content {
            ButtonContent::Text(s) => Dom::label(s),
            ButtonContent::Image(i) => Dom::image(i),
        };
        button_root.add_child(child);
        button_root
    }
}

} // verus!
