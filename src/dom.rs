use vstd::prelude::*;
use crate::css::{CssProperty, NodeTypePath};

verus! {

/// Index of a node within one tree arena.
#[derive(Debug, Clone, Copy, PartialEq, Eq, Structural, PartialOrd, Ord, Hash)]
pub struct NodeId {
    pub index: usize,
}

impl NodeId {
    pub fn new(index: usize) -> (r: NodeId)
        ensures
            r.index == index,
    {
        NodeId { index }
    }
}

/// A hit-testing tag; only meaningful within the frame that assigned it.
pub type TagId = usize;

/// Identifies one tree instance within a window: a counter value, and for a
/// nested tree a reference back to where it is nested.
#[derive(Debug, Clone, Copy, PartialEq, Eq, Structural, Hash)]
pub struct DomId {
    pub id: usize,
    pub parent: Option<ParentDom>,
}

/// Where a nested tree hangs: the counter value of the parent tree's
/// `DomId`, and the node of the parent tree that holds it.
#[derive(Debug, Clone, Copy, PartialEq, Eq, Structural, Hash)]
pub struct ParentDom {
    pub dom_id: usize,
    pub node_id: NodeId,
}

/// Identifies an image resource.
#[derive(Debug, Clone, Copy, PartialEq, Eq, Structural, PartialOrd, Ord, Hash)]
pub struct ImageId {
    pub id: usize,
}

/// Identifies a cached text resource.
#[derive(Debug, Clone, Copy, PartialEq, Eq, Structural, PartialOrd, Ord, Hash)]
pub struct TextId {
    pub id: usize,
}

/// Identifies a registered default callback.
#[derive(Debug, Clone, Copy, PartialEq, Eq, Structural, PartialOrd, Ord, Hash)]
pub struct DefaultCallbackId {
    pub id: usize,
}

/// Events that are hit-tested against the node under the cursor.
#[derive(Debug, Clone, Copy, PartialEq, Eq, Structural, Hash)]
pub enum HoverEventFilter {
    MouseOver,
    MouseDown,
    LeftMouseDown,
    RightMouseDown,
    MiddleMouseDown,
    MouseUp,
    LeftMouseUp,
    RightMouseUp,
    MiddleMouseUp,
    MouseEnter,
    MouseLeave,
    Scroll,
    TextInput,
    VirtualKeyDown,
    VirtualKeyUp,
    HoveredFile,
    DroppedFile,
}

/// Events delivered to the focused node.
#[derive(Debug, Clone, Copy, PartialEq, Eq, Structural, Hash)]
pub enum FocusEventFilter {
    MouseOver,
    MouseDown,
    LeftMouseDown,
    RightMouseDown,
    MiddleMouseDown,
    MouseUp,
    LeftMouseUp,
    RightMouseUp,
    MiddleMouseUp,
    MouseEnter,
    MouseLeave,
    Scroll,
    TextInput,
    VirtualKeyDown,
    VirtualKeyUp,
    FocusReceived,
    FocusLost,
}

/// Events that fire on a node when the event happens anywhere but over it.
#[derive(Debug, Clone, Copy, PartialEq, Eq, Structural, Hash)]
pub enum NotEventFilter {
    Hover(HoverEventFilter),
    Focus(FocusEventFilter),
}

/// Window-wide events, which are not hit-tested.
#[derive(Debug, Clone, Copy, PartialEq, Eq, Structural, Hash)]
pub enum WindowEventFilter {
    MouseOver,
    MouseDown,
    LeftMouseDown,
    RightMouseDown,
    MiddleMouseDown,
    MouseUp,
    LeftMouseUp,
    RightMouseUp,
    MiddleMouseUp,
    MouseEnter,
    MouseLeave,
    Scroll,
    TextInput,
    VirtualKeyDown,
    VirtualKeyUp,
    HoveredFile,
    DroppedFile,
    Resized,
    Moved,
}

/// An event filter of one of the four families.
#[derive(Debug, Clone, Copy, PartialEq, Eq, Structural, Hash)]
pub enum EventFilter {
    Hover(HoverEventFilter),
    Not(NotEventFilter),
    Focus(FocusEventFilter),
    Window(WindowEventFilter),
}

/// Shorthand for the most common hover events.
#[derive(Debug, Clone, Copy, PartialEq, Eq, Structural, Hash)]
pub enum On {
    MouseOver,
    MouseDown,
    LeftMouseDown,
    RightMouseDown,
    MiddleMouseDown,
    MouseUp,
    LeftMouseUp,
    RightMouseUp,
    MiddleMouseUp,
    MouseEnter,
    MouseLeave,
    Scroll,
    TextInput,
    VirtualKeyDown,
    VirtualKeyUp,
    FocusReceived,
    FocusLost,
}

impl On {
    /// The event filter this shorthand stands for: a hover filter, except
    /// for the two focus events.
    pub fn event_filter(self) -> (r: EventFilter)
        ensures
            self == On::FocusReceived ==> r == EventFilter::Focus(FocusEventFilter::FocusReceived),
            self == On::FocusLost ==> r == EventFilter::Focus(FocusEventFilter::FocusLost),
            self != On::FocusReceived && self != On::FocusLost ==> r is Hover,
            self == On::MouseUp ==> r == EventFilter::Hover(HoverEventFilter::MouseUp),
            self == On::MouseDown ==> r == EventFilter::Hover(HoverEventFilter::MouseDown),
    {
        match self {
            On::MouseOver => EventFilter::Hover(HoverEventFilter::MouseOver),
            On::MouseDown => EventFilter::Hover(HoverEventFilter::MouseDown),
            On::LeftMouseDown => EventFilter::Hover(HoverEventFilter::LeftMouseDown),
            On::RightMouseDown => EventFilter::Hover(HoverEventFilter::RightMouseDown),
            On::MiddleMouseDown => EventFilter::Hover(HoverEventFilter::MiddleMouseDown),
            On::MouseUp => EventFilter::Hover(HoverEventFilter::MouseUp),
            On::LeftMouseUp => EventFilter::Hover(HoverEventFilter::LeftMouseUp),
            On::RightMouseUp => EventFilter::Hover(HoverEventFilter::RightMouseUp),
            On::MiddleMouseUp => EventFilter::Hover(HoverEventFilter::MiddleMouseUp),
            On::MouseEnter => EventFilter::Hover(HoverEventFilter::MouseEnter),
            On::MouseLeave => EventFilter::Hover(HoverEventFilter::MouseLeave),
            On::Scroll => EventFilter::Hover(HoverEventFilter::Scroll),
            On::TextInput => EventFilter::Hover(HoverEventFilter::TextInput),
            On::VirtualKeyDown => EventFilter::Hover(HoverEventFilter::VirtualKeyDown),
            On::VirtualKeyUp => EventFilter::Hover(HoverEventFilter::VirtualKeyUp),
            On::FocusReceived => EventFilter::Focus(FocusEventFilter::FocusReceived),
            On::FocusLost => EventFilter::Focus(FocusEventFilter::FocusLost),
        }
    }
}

/// An explicit keyboard focus order for a node.
#[derive(Debug, Clone, Copy, PartialEq, Eq, Structural, Hash)]
pub enum TabIndex {
    /// Focusable in document order
    Auto,
    /// Focusable, ahead of the nodes in document order
    OverrideZero,
    /// Focusable at this position
    Override(u32),
}

impl TabIndex {
    /// The number written for this tab index: zero, except for an override.
    pub fn get_index(&self) -> (r: u32)
        ensures
            r == (match *self {
                TabIndex::Override(n) => n,
                _ => 0,
            }),
    {
        match self {
            TabIndex::Override(n) => *n,
            _ => 0,
        }
    }
}

/// What a node displays.
#[derive(Debug, Clone, PartialEq, Eq, Hash)]
pub enum NodeType {
    Div,
    Body,
    Label(String),
    Text(TextId),
    Image(ImageId),
    GlTexture,
    IFrame,
}

/// The element name under which a node type is selected and printed.
pub open spec fn type_path(t: NodeType) -> NodeTypePath {
    match t {
        NodeType::Div => NodeTypePath::Div,
        NodeType::Body => NodeTypePath::Body,
        NodeType::Label(_) => NodeTypePath::P,
        NodeType::Text(_) => NodeTypePath::P,
        NodeType::Image(_) => NodeTypePath::Img,
        NodeType::GlTexture => NodeTypePath::Texture,
        NodeType::IFrame => NodeTypePath::IFrame,
    }
}

impl NodeType {
    pub fn get_path(&self) -> (r: NodeTypePath)
        ensures
            r == type_path(*self),
    {
        match self {
            NodeType::Div => NodeTypePath::Div,
            NodeType::Body => NodeTypePath::Body,
            NodeType::Label(_) => NodeTypePath::P,
            NodeType::Text(_) => NodeTypePath::P,
            NodeType::Image(_) => NodeTypePath::Img,
            NodeType::GlTexture => NodeTypePath::Texture,
            NodeType::IFrame => NodeTypePath::IFrame,
        }
    }
}

/// The payload of one node. `C` is the type of callback handles.
///
/// Callbacks and default callbacks are kept in the order they were added;
/// of two entries with the same filter the later one counts.
#[derive(Debug, Clone)]
pub struct NodeData<C> {
    pub node_type: NodeType,
    pub ids: Vec<String>,
    pub classes: Vec<String>,
    pub callbacks: Vec<(EventFilter, C)>,
    pub default_callback_ids: Vec<(EventFilter, DefaultCallbackId)>,
    pub dynamic_css_overrides: Vec<(String, CssProperty)>,
    pub is_draggable: bool,
    pub tab_index: Option<TabIndex>,
}

impl<C> NodeData<C> {
    pub fn new(node_type: NodeType) -> (r: NodeData<C>)
        ensures
            r.node_type == node_type,
            r.ids@.len() == 0,
            r.classes@.len() == 0,
            r.callbacks@.len() == 0,
            r.default_callback_ids@.len() == 0,
            r.dynamic_css_overrides@.len() == 0,
            !r.is_draggable,
            r.tab_index is None,
    {
        NodeData {
            node_type,
            ids: Vec::new(),
            classes: Vec::new(),
            callbacks: Vec::new(),
            default_callback_ids: Vec::new(),
            dynamic_css_overrides: Vec::new(),
            is_draggable: false,
            tab_index: None,
        }
    }
}

/// Whether `d` is a node of type `t` with nothing attached.
pub open spec fn is_bare_node<C>(d: NodeData<C>, t: NodeType) -> bool {
    &&& d.node_type == t
    &&& d.ids@.len() == 0
    &&& d.classes@.len() == 0
    &&& d.callbacks@.len() == 0
    &&& d.default_callback_ids@.len() == 0
    &&& d.dynamic_css_overrides@.len() == 0
    &&& !d.is_draggable
    &&& d.tab_index is None
}

/// The links of one node to its neighbours in the tree.
#[derive(Debug, Clone, Copy, PartialEq, Eq, Structural)]
pub struct Node {
    pub parent: Option<NodeId>,
    pub previous_sibling: Option<NodeId>,
    pub next_sibling: Option<NodeId>,
    pub first_child: Option<NodeId>,
    pub last_child: Option<NodeId>,
}

/// A node without links.
pub open spec fn lone_node() -> Node {
    Node {
        parent: None,
        previous_sibling: None,
        next_sibling: None,
        first_child: None,
        last_child: None,
    }
}

/// A link that, if present, points into an arena of `len` nodes.
pub open spec fn link_in(l: Option<NodeId>, len: nat) -> bool {
    l matches Some(n) ==> n.index < len
}

/// A link moved `off` places further.
pub open spec fn shift_link(l: Option<NodeId>, off: int) -> Option<NodeId> {
    match l {
        Some(n) => Some(NodeId { index: (n.index + off) as usize }),
        None => None,
    }
}

/// A node whose links all moved `off` places further.
pub open spec fn shift_node(n: Node, off: int) -> Node {
    Node {
        parent: shift_link(n.parent, off),
        previous_sibling: shift_link(n.previous_sibling, off),
        next_sibling: shift_link(n.next_sibling, off),
        first_child: shift_link(n.first_child, off),
        last_child: shift_link(n.last_child, off),
    }
}

/// Whether a link record is well formed: node 0 is the root, without parent
/// or siblings; every other node has a parent that comes before it; every
/// link points into the arena.
pub open spec fn layout_wf(l: Seq<Node>) -> bool {
    &&& l.len() > 0
    &&& l[0].parent is None
    &&& l[0].previous_sibling is None
    &&& l[0].next_sibling is None
    &&& forall|i: int| 0 < i < l.len() ==> (#[trigger] l[i]).parent is Some && l[i].parent->0.index < i
    &&& forall|i: int|
        0 <= i < l.len() ==> link_in((#[trigger] l[i]).parent, l.len()) && link_in(
            l[i].previous_sibling,
            l.len(),
        ) && link_in(l[i].next_sibling, l.len()) && link_in(l[i].first_child, l.len())
            && link_in(l[i].last_child, l.len())
}

/// Nodes in two parallel vectors: their links, and their payloads.
/// Iterating either yields the nodes in insertion order.
#[derive(Debug, Clone)]
pub struct Arena<C> {
    pub node_layout: Vec<Node>,
    pub node_data: Vec<NodeData<C>>,
}

impl<C> Arena<C> {
    pub open spec fn wf(&self) -> bool {
        &&& layout_wf(self.node_layout@)
        &&& self.node_data@.len() == self.node_layout@.len()
    }

}

/// Whether two payloads hold the same values.
pub open spec fn same_node_data<C>(a: NodeData<C>, b: NodeData<C>) -> bool {
    &&& a.node_type == b.node_type
    &&& a.ids@ == b.ids@
    &&& a.classes@ == b.classes@
    &&& a.callbacks@ == b.callbacks@
    &&& a.default_callback_ids@ == b.default_callback_ids@
    &&& a.dynamic_css_overrides@ == b.dynamic_css_overrides@
    &&& a.is_draggable == b.is_draggable
    &&& a.tab_index == b.tab_index
}

fn copy_items<X: Copy>(v: &Vec<X>) -> (r: Vec<X>)
    ensures
        r@ == v@,
{
    let mut r: Vec<X> = Vec::new();
    let mut i: usize = 0;
    while i < v.len()
        invariant
            i <= v@.len(),
            r@ == v@.subrange(0, i as int),
        decreases v@.len() - i,
    {
        r.push(v[i]);
        i = i + 1;
        assert(r@ =~= v@.subrange(0, i as int));
    }
    assert(v@.subrange(0, v@.len() as int) =~= v@);
    r
}

fn copy_strings(v: &Vec<String>) -> (r: Vec<String>)
    ensures
        r@ == v@,
{
    let mut r: Vec<String> = Vec::new();
    let mut i: usize = 0;
    while i < v.len()
        invariant
            i <= v@.len(),
            r@ == v@.subrange(0, i as int),
        decreases v@.len() - i,
    {
        r.push(v[i].clone());
        i = i + 1;
        assert(r@ =~= v@.subrange(0, i as int));
    }
    assert(v@.subrange(0, v@.len() as int) =~= v@);
    r
}

impl NodeType {
    /// An equal copy of the node type.
    pub fn duplicate(&self) -> (r: NodeType)
        ensures
            r == *self,
    {
        match self {
            NodeType::Div => NodeType::Div,
            NodeType::Body => NodeType::Body,
            NodeType::Label(s) => NodeType::Label(s.clone()),
            NodeType::Text(t) => NodeType::Text(*t),
            NodeType::Image(i) => NodeType::Image(*i),
            NodeType::GlTexture => NodeType::GlTexture,
            NodeType::IFrame => NodeType::IFrame,
        }
    }
}

impl<C: Copy> NodeData<C> {
    /// A copy of the payload with the same values.
    pub fn duplicate(&self) -> (r: NodeData<C>)
        ensures
            same_node_data(r, *self),
    {
        NodeData {
            node_type: self.node_type.duplicate(),
            ids: copy_strings(&self.ids),
            classes: copy_strings(&self.classes),
            callbacks: copy_items(&self.callbacks),
            default_callback_ids: copy_items(&self.default_callback_ids),
            dynamic_css_overrides: crate::ui_state::duplicate_overrides(&self.dynamic_css_overrides),
            is_draggable: self.is_draggable,
            tab_index: self.tab_index,
        }
    }
}

impl<C: Copy> Arena<C> {
    /// A copy of the arena: the same links, and payloads with the same values.
    pub fn duplicate(&self) -> (r: Arena<C>)
        ensures
            r.node_layout@ == self.node_layout@,
            r.node_data@.len() == self.node_data@.len(),
            forall|i: int|
                0 <= i < self.node_data@.len() ==> same_node_data(
                    #[trigger] r.node_data@[i],
                    self.node_data@[i],
                ),
    {
        let node_layout = copy_items(&self.node_layout);
        let mut node_data: Vec<NodeData<C>> = Vec::new();
        let mut i: usize = 0;
        while i < self.node_data.len()
            invariant
                i <= self.node_data@.len(),
                node_data@.len() == i,
                forall|k: int|
                    0 <= k < i ==> same_node_data(#[trigger] node_data@[k], self.node_data@[k]),
            decreases self.node_data@.len() - i,
        {
            node_data.push(self.node_data[i].duplicate());
            i = i + 1;
        }
        Arena { node_layout, node_data }
    }
}

/// A document tree: an arena whose node 0 is the root.
#[derive(Debug, Clone)]
pub struct Dom<C> {
    pub arena: Arena<C>,
    pub root: NodeId,
}

impl<C> Dom<C> {
    pub open spec fn wf(&self) -> bool {
        &&& self.arena.wf()
        &&& self.root.index == 0
    }

    /// The payload of the root node.
    pub open spec fn root_data(&self) -> NodeData<C> {
        self.arena.node_data@[0]
    }

    /// A tree of one node of the given type.
    pub fn new(node_type: NodeType) -> (r: Dom<C>)
        ensures
            r.wf(),
            r.arena.node_layout@ == seq![lone_node()],
            r.arena.node_data@.len() == 1,
            is_bare_node(r.root_data(), node_type),
    {
        let mut node_layout: Vec<Node> = Vec::new();
        node_layout.push(
            Node {
                parent: None,
                previous_sibling: None,
                next_sibling: None,
                first_child: None,
                last_child: None,
            },
        );
        let mut node_data: Vec<NodeData<C>> = Vec::new();
        node_data.push(NodeData::new(node_type));
        let r = Dom { arena: Arena { node_layout, node_data }, root: NodeId { index: 0 } };
        assert(r.arena.node_layout@ =~= seq![lone_node()]);
        r
    }

    pub fn div() -> (r: Dom<C>)
        ensures
            r.wf(),
            r.arena.node_layout@ == seq![lone_node()],
            r.arena.node_data@.len() == 1,
            is_bare_node(r.root_data(), NodeType::Div),
    {
        Self::new(NodeType::Div)
    }

    pub fn body() -> (r: Dom<C>)
        ensures
            r.wf(),
            r.arena.node_layout@ == seq![lone_node()],
            r.arena.node_data@.len() == 1,
            is_bare_node(r.root_data(), NodeType::Body),
    {
        Self::new(NodeType::Body)
    }

    pub fn label(text: String) -> (r: Dom<C>)
        ensures
            r.wf(),
            r.arena.node_layout@ == seq![lone_node()],
            r.arena.node_data@.len() == 1,
            is_bare_node(r.root_data(), NodeType::Label(text)),
    {
        Self::new(NodeType::Label(text))
    }

    pub fn text_id(text_id: TextId) -> (r: Dom<C>)
        ensures
            r.wf(),
            r.arena.node_layout@ == seq![lone_node()],
            r.arena.node_data@.len() == 1,
            is_bare_node(r.root_data(), NodeType::Text(text_id)),
    {
        Self::new(NodeType::Text(text_id))
    }

    pub fn image(image: ImageId) -> (r: Dom<C>)
        ensures
            r.wf(),
            r.arena.node_layout@ == seq![lone_node()],
            r.arena.node_data@.len() == 1,
            is_bare_node(r.root_data(), NodeType::Image(image)),
    {
        Self::new(NodeType::Image(image))
    }

    /// Adds an id to the root node.
    pub fn with_id(self, id: String) -> (r: Dom<C>)
        requires
            self.wf(),
        ensures
            r.wf(),
            r.root == self.root,
            r.arena.node_layout == self.arena.node_layout,
            r.arena.node_data@ == self.arena.node_data@.update(0, r.root_data()),
            r.root_data().ids@ == self.root_data().ids@.push(id),
            r.root_data() == (NodeData { ids: r.root_data().ids, ..self.root_data() }),
    {
        let mut dom = self;
        dom.arena.node_data[0].ids.push(id);
        dom
    }

    /// Adds a class to the root node.
    pub fn with_class(self, class: String) -> (r: Dom<C>)
        requires
            self.wf(),
        ensures
            r.wf(),
            r.root == self.root,
            r.arena.node_layout == self.arena.node_layout,
            r.arena.node_data@ == self.arena.node_data@.update(0, r.root_data()),
            r.root_data().classes@ == self.root_data().classes@.push(class),
            r.root_data() == (NodeData { classes: r.root_data().classes, ..self.root_data() }),
    {
        let mut dom = self;
        dom.arena.node_data[0].classes.push(class);
        dom
    }

    /// Gives the root node an explicit tab index.
    pub fn with_tab_index(self, tab_index: TabIndex) -> (r: Dom<C>)
        requires
            self.wf(),
        ensures
            r.wf(),
            r.root == self.root,
            r.arena.node_layout == self.arena.node_layout,
            r.arena.node_data@ == self.arena.node_data@.update(0, r.root_data()),
            r.root_data().tab_index == Some(tab_index),
            r.root_data() == (NodeData { tab_index: r.root_data().tab_index, ..self.root_data() }),
    {
        let mut dom = self;
        dom.arena.node_data[0].tab_index = Some(tab_index);
        dom
    }

    /// Sets whether the root node can be dragged.
    pub fn is_draggable(self, draggable: bool) -> (r: Dom<C>)
        requires
            self.wf(),
        ensures
            r.wf(),
            r.root == self.root,
            r.arena.node_layout == self.arena.node_layout,
            r.arena.node_data@ == self.arena.node_data@.update(0, r.root_data()),
            r.root_data().is_draggable == draggable,
            r.root_data() == (NodeData { is_draggable: r.root_data().is_draggable, ..self.root_data() }),
    {
        let mut dom = self;
        dom.arena.node_data[0].is_draggable = draggable;
        dom
    }

    /// Adds a dynamic style override, under the name of its variable, to the root node.
    pub fn with_css_override(self, entry: (String, CssProperty)) -> (r: Dom<C>)
        requires
            self.wf(),
        ensures
            r.wf(),
            r.root == self.root,
            r.arena.node_layout == self.arena.node_layout,
            r.arena.node_data@ == self.arena.node_data@.update(0, r.root_data()),
            r.root_data().dynamic_css_overrides@ == self.root_data().dynamic_css_overrides@.push(entry),
            r.root_data() == (NodeData { dynamic_css_overrides: r.root_data().dynamic_css_overrides, ..self.root_data() }),
    {
        let mut dom = self;
        dom.arena.node_data[0].dynamic_css_overrides.push(entry);
        dom
    }

    /// Attaches a default callback to the root node.
    pub fn with_default_callback_id(self, entry: (EventFilter, DefaultCallbackId)) -> (r: Dom<C>)
        requires
            self.wf(),
        ensures
            r.wf(),
            r.root == self.root,
            r.arena.node_layout == self.arena.node_layout,
            r.arena.node_data@ == self.arena.node_data@.update(0, r.root_data()),
            r.root_data().default_callback_ids@ == self.root_data().default_callback_ids@.push(entry),
            r.root_data() == (NodeData { default_callback_ids: r.root_data().default_callback_ids, ..self.root_data() }),
    {
        let mut dom = self;
        dom.arena.node_data[0].default_callback_ids.push(entry);
        dom
    }

    /// Attaches a callback for an event to the root node.
    pub fn with_callback(self, on: EventFilter, callback: C) -> (r: Dom<C>)
        requires
            self.wf(),
        ensures
            r.wf(),
            r.root == self.root,
            r.arena.node_layout == self.arena.node_layout,
            r.arena.node_data@ == self.arena.node_data@.update(0, r.root_data()),
            r.root_data().callbacks@ == self.root_data().callbacks@.push((on, callback)),
            r.root_data() == (NodeData { callbacks: r.root_data().callbacks, ..self.root_data() }),
    {
        let mut dom = self;
        dom.arena.node_data[0].callbacks.push((on, callback));
        dom
    }

    /// Appends `child` as the last child of the root; the nodes of `child`
    /// follow the existing nodes, in their order.
    pub fn add_child(&mut self, child: Dom<C>)
        requires
            old(self).wf(),
            child.wf(),
            old(self).arena.node_data@.len() + child.arena.node_data@.len() <= usize::MAX,
        ensures
            final(self).wf(),
            final(self).root == old(self).root,
            final(self).arena.node_data@ == old(self).arena.node_data@ + child.arena.node_data@,
            final(self).arena.node_layout@ == appended_layout(
                old(self).arena.node_layout@,
                child.arena.node_layout@,
            ),
    {
        let ghost l0 = self.arena.node_layout@;
        let ghost c = child.arena.node_layout@;
        let ghost d0 = self.arena.node_data@;
        let ghost root0 = self.root;
        let off = self.arena.node_layout.len();
        let last = self.arena.node_layout[0].last_child;
        let mut child = child;
        let mut i: usize = 0;
        while i < child.arena.node_layout.len()
            invariant
                child.arena.node_layout@ == c,
                child.arena.node_data@.len() == c.len(),
                self.arena.node_data@ == d0,
                d0.len() == l0.len(),
                self.root == root0,
                root0.index == 0,
                layout_wf(l0),
                layout_wf(c),
                off == l0.len(),
                off + c.len() <= usize::MAX,
                i <= c.len(),
                self.arena.node_layout@ == l0 + Seq::new(i as nat, |j: int| shift_node(c[j], off as int)),
            decreases c.len() - i,
        {
            let n = child.arena.node_layout[i];
            assert(link_in(c[i as int].parent, c.len()));
            let shifted = Node {
                parent: shift_link_exec(n.parent, off),
                previous_sibling: shift_link_exec(n.previous_sibling, off),
                next_sibling: shift_link_exec(n.next_sibling, off),
                first_child: shift_link_exec(n.first_child, off),
                last_child: shift_link_exec(n.last_child, off),
            };
            self.arena.node_layout.push(shifted);
            i = i + 1;
            assert(self.arena.node_layout@ =~= l0 + Seq::new(i as nat, |j: int| shift_node(c[j], off as int)));
        }
        let first = self.arena.node_layout[off];
        self.arena.node_layout.set(off, Node { parent: Some(NodeId { index: 0 }), previous_sibling: last, ..first });
        let root = self.arena.node_layout[0];
        let first_child = match root.first_child {
            Some(f) => Some(f),
            None => Some(NodeId { index: off }),
        };
        self.arena.node_layout.set(
            0,
            Node { first_child: first_child, last_child: Some(NodeId { index: off }), ..root },
        );
        match last {
            Some(n) => {
                if n.index != 0 {
                    let prev = self.arena.node_layout[n.index];
                    self.arena.node_layout.set(
                        n.index,
                        Node { next_sibling: Some(NodeId { index: off }), ..prev },
                    );
                }
            },
            None => {},
        }
        self.arena.node_data.append(&mut child.arena.node_data);
        proof {
            let r = appended_layout(l0, c);
            assert(self.arena.node_layout@ =~= r);
            lemma_appended_layout_wf(l0, c);
        }
    }

    /// The tree with `child` appended as the last child of the root.
    pub fn with_child(self, child: Dom<C>) -> (r: Dom<C>)
        requires
            self.wf(),
            child.wf(),
            self.arena.node_data@.len() + child.arena.node_data@.len() <= usize::MAX,
        ensures
            r.wf(),
            r.root == self.root,
            r.arena.node_data@ == self.arena.node_data@ + child.arena.node_data@,
            r.arena.node_layout@ == appended_layout(self.arena.node_layout@, child.arena.node_layout@),
    {
        let mut dom = self;
        dom.add_child(child);
        dom
    }

    /// An indented, XML-like rendering of the tree for debugging, one line
    /// per opening or closing tag, each line ending in `\r\n`. A node without
    /// children is printed on one line.
    pub fn debug_dump(&self) -> (r: String)
        requires
            self.wf(),
        ensures
            r@ == dump_text(self.arena.node_data@, self.arena.node_layout@),
    {
        let ghost nodes = self.arena.node_data@;
        let ghost layout = self.arena.node_layout@;
        let len = self.arena.node_layout.len();
        let mut out = String::new();
        let mut open: Vec<usize> = Vec::new();
        let mut i: usize = 0;
        while i < len
            invariant
                self.wf(),
                nodes == self.arena.node_data@,
                layout == self.arena.node_layout@,
                len == layout.len(),
                i <= len,
                forall|k: int| 0 <= k < open@.len() ==> open@[k] < len,
                (out@, open@) == dump_prefix(nodes, layout, i as int),
            decreases len - i,
        {
            let parent = self.arena.node_layout[i].parent;
            let ghost out0 = out@;
            let ghost open0 = open@;
            while open.len() > 0 && !is_parent(parent, open[open.len() - 1])
                invariant
                    forall|k: int| 0 <= k < open@.len() ==> open@[k] < len,
                    len == self.arena.node_data@.len(),
                    nodes == self.arena.node_data@,
                    close_until(nodes, out@, open@, parent) == close_until(nodes, out0, open0, parent),
                decreases open@.len(),
            {
                let closed = open.pop().unwrap();
                push_indent(&mut out, open.len());
                push_close_tag(&mut out, &self.arena.node_data[closed]);
                out.append("\r\n");
            }
            let data = &self.arena.node_data[i];
            push_indent(&mut out, open.len());
            push_open_tag(&mut out, data);
            push_content(&mut out, data);
            if self.arena.node_layout[i].first_child.is_some() {
                open.push(i);
            } else {
                push_close_tag(&mut out, data);
            }
            out.append("\r\n");
            i = i + 1;
        }
        let ghost out1 = out@;
        let ghost open1 = open@;
        while open.len() > 0
            invariant
                forall|k: int| 0 <= k < open@.len() ==> open@[k] < len,
                len == self.arena.node_data@.len(),
                nodes == self.arena.node_data@,
                close_all(nodes, out@, open@) == close_all(nodes, out1, open1),
            decreases open@.len(),
        {
            let closed = open.pop().unwrap();
            push_indent(&mut out, open.len());
            push_close_tag(&mut out, &self.arena.node_data[closed]);
            out.append("\r\n");
        }
        out
    }

    /// Checks at run time whether the tree is well formed.
    pub fn is_well_formed(&self) -> (r: bool)
        ensures
            r == self.wf(),
    {
        let len = self.arena.node_layout.len();
        if len == 0 || self.arena.node_data.len() != len || self.root.index != 0 {
            return false;
        }
        let root = self.arena.node_layout[0];
        if root.parent.is_some() || root.previous_sibling.is_some() || root.next_sibling.is_some() {
            return false;
        }
        let ghost l = self.arena.node_layout@;
        let mut i: usize = 0;
        while i < len
            invariant
                l == self.arena.node_layout@,
                len == l.len(),
                i <= len,
                forall|k: int| 0 < k < i ==> (#[trigger] l[k]).parent is Some && l[k].parent->0.index < k,
                forall|k: int|
                    0 <= k < i ==> link_in((#[trigger] l[k]).parent, l.len()) && link_in(
                        l[k].previous_sibling,
                        l.len(),
                    ) && link_in(l[k].next_sibling, l.len()) && link_in(l[k].first_child, l.len())
                        && link_in(l[k].last_child, l.len()),
            decreases len - i,
        {
            let n = self.arena.node_layout[i];
            if i > 0 {
                match n.parent {
                    Some(p) => {
                        if p.index >= i {
                            return false;
                        }
                    },
                    None => {
                        return false;
                    },
                }
            }
            if !link_below(n.parent, len) || !link_below(n.previous_sibling, len) || !link_below(
                n.next_sibling,
                len,
            ) || !link_below(n.first_child, len) || !link_below(n.last_child, len) {
                return false;
            }
            i = i + 1;
        }
        true
    }

    /// Number of nodes in the tree.
    pub fn len(&self) -> (r: usize)
        ensures
            r == self.arena.node_data@.len(),
    {
        self.arena.node_data.len()
    }
}

/// The link record after a tree with links `c` was appended as the last
/// child of the root of a tree with links `l`.
pub open spec fn appended_layout(l: Seq<Node>, c: Seq<Node>) -> Seq<Node> {
    let off = l.len() as int;
    let last = l[0].last_child;
    Seq::new(
        (l.len() + c.len()) as nat,
        |i: int|
            if i == 0 {
                Node {
                    first_child: if l[0].first_child is None {
                        Some(NodeId { index: off as usize })
                    } else {
                        l[0].first_child
                    },
                    last_child: Some(NodeId { index: off as usize }),
                    ..l[0]
                }
            } else if i < off {
                if last is Some && last->0.index == i {
                    Node { next_sibling: Some(NodeId { index: off as usize }), ..l[i] }
                } else {
                    l[i]
                }
            } else if i == off {
                Node {
                    parent: Some(NodeId { index: 0 }),
                    previous_sibling: last,
                    ..shift_node(c[0], off)
                }
            } else {
                shift_node(c[i - off], off)
            },
    )
}

fn link_below(l: Option<NodeId>, len: usize) -> (r: bool)
    ensures
        r == link_in(l, len as nat),
{
    match l {
        Some(n) => n.index < len,
        None => true,
    }
}

fn shift_link_exec(l: Option<NodeId>, off: usize) -> (r: Option<NodeId>)
    requires
        l matches Some(n) ==> n.index + off <= usize::MAX,
    ensures
        r == shift_link(l, off as int),
{
    match l {
        Some(n) => Some(NodeId { index: n.index + off }),
        None => None,
    }
}

proof fn lemma_appended_layout_wf(l: Seq<Node>, c: Seq<Node>)
    requires
        layout_wf(l),
        layout_wf(c),
    ensures
        layout_wf(appended_layout(l, c)),
{
    let r = appended_layout(l, c);
    let off = l.len() as int;
    assert forall|i: int| 0 < i < r.len() implies (#[trigger] r[i]).parent is Some && r[i].parent->0.index < i by {
        if i > off {
            assert(c[i - off].parent is Some);
        }
    }
    assert forall|i: int| 0 <= i < r.len() implies link_in((#[trigger] r[i]).parent, r.len()) && link_in(
        r[i].previous_sibling,
        r.len(),
    ) && link_in(r[i].next_sibling, r.len()) && link_in(r[i].first_child, r.len())
        && link_in(r[i].last_child, r.len()) by {
        if i < off {
            assert(link_in(l[i].parent, l.len()));
            assert(link_in(l[0].last_child, l.len()));
        } else {
            assert(link_in(c[i - off].parent, c.len()));
            assert(link_in(l[0].last_child, l.len()));
        }
    }
}

fn is_parent(parent: Option<NodeId>, candidate: usize) -> (r: bool)
    ensures
        r == (parent matches Some(p) && p.index == candidate),
{
    match parent {
        Some(p) => p.index == candidate,
        None => false,
    }
}

/// Four spaces per level of depth.
pub open spec fn indent(depth: nat) -> Seq<char>
    decreases depth,
{
    if depth == 0 {
        Seq::empty()
    } else {
        indent((depth - 1) as nat) + "    "@
    }
}

/// The element name printed for a node type.
pub open spec fn tag_name_spec(t: NodeType) -> Seq<char> {
    match t {
        NodeType::Div => "div"@,
        NodeType::Body => "body"@,
        NodeType::Label(_) => "p"@,
        NodeType::Text(_) => "p"@,
        NodeType::Image(_) => "img"@,
        NodeType::GlTexture => "texture"@,
        NodeType::IFrame => "iframe"@,
    }
}

/// The first `k` words, separated by single spaces.
pub open spec fn joined(words: Seq<String>, k: int) -> Seq<char>
    decreases k,
{
    if k <= 0 {
        Seq::empty()
    } else if k == 1 {
        words[0]@
    } else {
        joined(words, k - 1) + " "@ + words[k - 1]@
    }
}

/// One decimal digit.
pub open spec fn digit(d: nat) -> Seq<char> {
    if d == 0 {
        "0"@
    } else if d == 1 {
        "1"@
    } else if d == 2 {
        "2"@
    } else if d == 3 {
        "3"@
    } else if d == 4 {
        "4"@
    } else if d == 5 {
        "5"@
    } else if d == 6 {
        "6"@
    } else if d == 7 {
        "7"@
    } else if d == 8 {
        "8"@
    } else {
        "9"@
    }
}

/// A number in decimal, without leading zeros.
pub open spec fn decimal(n: nat) -> Seq<char>
    decreases n,
{
    if n < 10 {
        digit(n)
    } else {
        decimal(n / 10) + digit(n % 10)
    }
}

/// An attribute `name="value"`, or nothing when `present` is false.
pub open spec fn attribute(present: bool, prefix: Seq<char>, value: Seq<char>) -> Seq<char> {
    if present {
        prefix + value + "\""@
    } else {
        Seq::empty()
    }
}

/// The opening tag of a node, with its ids, classes, tab index and draggable flag.
pub open spec fn open_tag<C>(d: NodeData<C>) -> Seq<char> {
    "<"@ + tag_name_spec(d.node_type) + attribute(
        d.ids@.len() > 0,
        " id=\""@,
        joined(d.ids@, d.ids@.len() as int),
    ) + attribute(d.classes@.len() > 0, " class=\""@, joined(d.classes@, d.classes@.len() as int))
        + attribute(
        d.tab_index is Some,
        " tabindex=\""@,
        decimal(tab_number(d.tab_index) as nat),
    ) + (if d.is_draggable {
        " draggable=\"true\""@
    } else {
        Seq::empty()
    }) + ">"@
}

/// The text a node shows inside its tags.
pub open spec fn content<C>(d: NodeData<C>) -> Seq<char> {
    match d.node_type {
        NodeType::Label(t) => t@,
        _ => Seq::empty(),
    }
}

/// The closing tag of a node.
pub open spec fn close_tag<C>(d: NodeData<C>) -> Seq<char> {
    "</"@ + tag_name_spec(d.node_type) + ">"@
}

/// Closes the open nodes, innermost first, until the one on top is `parent`.
pub open spec fn close_until<C>(
    nodes: Seq<NodeData<C>>,
    out: Seq<char>,
    open: Seq<usize>,
    parent: Option<NodeId>,
) -> (Seq<char>, Seq<usize>)
    decreases open.len(),
{
    if open.len() > 0 && !(parent matches Some(p) && p.index == open.last()) {
        close_until(
            nodes,
            out + indent((open.len() - 1) as nat) + close_tag(nodes[open.last() as int]) + "\r\n"@,
            open.drop_last(),
            parent,
        )
    } else {
        (out, open)
    }
}

/// Closes all open nodes, innermost first.
pub open spec fn close_all<C>(nodes: Seq<NodeData<C>>, out: Seq<char>, open: Seq<usize>) -> Seq<char>
    decreases open.len(),
{
    if open.len() > 0 {
        close_all(
            nodes,
            out + indent((open.len() - 1) as nat) + close_tag(nodes[open.last() as int]) + "\r\n"@,
            open.drop_last(),
        )
    } else {
        out
    }
}

/// The text printed for the first `n` nodes, and the nodes still open after
/// them. Each node first closes the open nodes that are not its parent; a
/// node with children stays open, one without is closed on its own line.
pub open spec fn dump_prefix<C>(nodes: Seq<NodeData<C>>, layout: Seq<Node>, n: int) -> (
    Seq<char>,
    Seq<usize>,
)
    decreases n,
{
    if n <= 0 {
        (Seq::empty(), Seq::empty())
    } else {
        let prev = dump_prefix(nodes, layout, n - 1);
        let c = close_until(nodes, prev.0, prev.1, layout[n - 1].parent);
        let d = nodes[n - 1];
        let line = c.0 + indent(c.1.len()) + open_tag(d) + content(d);
        if layout[n - 1].first_child is Some {
            (line + "\r\n"@, c.1.push((n - 1) as usize))
        } else {
            (line + close_tag(d) + "\r\n"@, c.1)
        }
    }
}

/// The whole rendering of a tree.
pub open spec fn dump_text<C>(nodes: Seq<NodeData<C>>, layout: Seq<Node>) -> Seq<char> {
    let p = dump_prefix(nodes, layout, layout.len() as int);
    close_all(nodes, p.0, p.1)
}

fn tag_name(t: &NodeType) -> (r: &'static str)
    ensures
        r@ == tag_name_spec(*t),
{
    match t {
        NodeType::Div => "div",
        NodeType::Body => "body",
        NodeType::Label(_) => "p",
        NodeType::Text(_) => "p",
        NodeType::Image(_) => "img",
        NodeType::GlTexture => "texture",
        NodeType::IFrame => "iframe",
    }
}

fn push_indent(out: &mut String, depth: usize)
    ensures
        final(out)@ == old(out)@ + indent(depth as nat),
{
    let mut k: usize = 0;
    while k < depth
        invariant
            k <= depth,
            out@ == old(out)@ + indent(k as nat),
        decreases depth - k,
    {
        out.append("    ");
        k = k + 1;
        assert(out@ =~= old(out)@ + indent(k as nat));
    }
}

fn push_joined(out: &mut String, words: &Vec<String>)
    ensures
        final(out)@ == old(out)@ + joined(words@, words@.len() as int),
{
    let mut k: usize = 0;
    while k < words.len()
        invariant
            k <= words@.len(),
            out@ == old(out)@ + joined(words@, k as int),
        decreases words@.len() - k,
    {
        if k > 0 {
            out.append(" ");
        }
        out.append(words[k].as_str());
        k = k + 1;
        assert(out@ =~= old(out)@ + joined(words@, k as int));
    }
}

fn digit_str(d: u32) -> (r: &'static str)
    requires
        d < 10,
    ensures
        r@ == digit(d as nat),
{
    if d == 0 {
        "0"
    } else if d == 1 {
        "1"
    } else if d == 2 {
        "2"
    } else if d == 3 {
        "3"
    } else if d == 4 {
        "4"
    } else if d == 5 {
        "5"
    } else if d == 6 {
        "6"
    } else if d == 7 {
        "7"
    } else if d == 8 {
        "8"
    } else {
        "9"
    }
}

fn push_decimal(out: &mut String, n: u32)
    ensures
        final(out)@ == old(out)@ + decimal(n as nat),
    decreases n,
{
    if n >= 10 {
        push_decimal(out, n / 10);
    }
    out.append(digit_str(n % 10));
    assert(out@ =~= old(out)@ + decimal(n as nat));
}

fn push_words_attribute(out: &mut String, prefix: &str, words: &Vec<String>)
    ensures
        final(out)@ == old(out)@ + attribute(words@.len() > 0, prefix@, joined(words@, words@.len() as int)),
{
    if words.len() > 0 {
        out.append(prefix);
        push_joined(out, words);
        out.append("\"");
        assert(out@ =~= old(out)@ + attribute(words@.len() > 0, prefix@, joined(words@, words@.len() as int)));
    } else {
        assert(out@ =~= old(out)@ + attribute(words@.len() > 0, prefix@, joined(words@, words@.len() as int)));
    }
}

/// The number written for a tab index, as `open_tag` prints it.
pub open spec fn tab_number(t: Option<TabIndex>) -> u32 {
    match t {
        Some(TabIndex::Override(n)) => n,
        _ => 0u32,
    }
}

fn push_tab_attribute(out: &mut String, tab_index: Option<TabIndex>)
    ensures
        final(out)@ == old(out)@ + attribute(tab_index is Some, " tabindex=\""@, decimal(tab_number(tab_index) as nat)),
{
    match tab_index {
        Some(t) => {
            out.append(" tabindex=\"");
            push_decimal(out, t.get_index());
            out.append("\"");
        },
        None => {},
    }
    assert(out@ =~= old(out)@ + attribute(tab_index is Some, " tabindex=\""@, decimal(tab_number(tab_index) as nat)));
}

fn push_draggable(out: &mut String, draggable: bool)
    ensures
        final(out)@ == old(out)@ + (if draggable {
            " draggable=\"true\""@
        } else {
            Seq::<char>::empty()
        }),
{
    if draggable {
        out.append(" draggable=\"true\"");
    } else {
        assert(out@ =~= old(out)@ + Seq::<char>::empty());
    }
}

fn push_open_tag<C>(out: &mut String, data: &NodeData<C>)
    ensures
        final(out)@ == old(out)@ + open_tag(*data),
{
    out.append("<");
    out.append(tag_name(&data.node_type));
    push_words_attribute(out, " id=\"", &data.ids);
    push_words_attribute(out, " class=\"", &data.classes);
    push_tab_attribute(out, data.tab_index);
    push_draggable(out, data.is_draggable);
    out.append(">");
    assert(out@ =~= old(out)@ + open_tag(*data));
}

fn push_content<C>(out: &mut String, data: &NodeData<C>)
    ensures
        final(out)@ == old(out)@ + content(*data),
{
    match &data.node_type {
        NodeType::Label(text) => {
            out.append(text.as_str());
        },
        _ => {
            assert(out@ =~= old(out)@ + content(*data));
        },
    }
}

fn push_close_tag<C>(out: &mut String, data: &NodeData<C>)
    ensures
        final(out)@ == old(out)@ + close_tag(*data),
{
    out.append("</");
    out.append(tag_name(&data.node_type));
    out.append(">");
    assert(out@ =~= old(out)@ + close_tag(*data));
}

} // verus!
