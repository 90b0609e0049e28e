use vstd::prelude::*;

verus! {

/// How the items of a flex line are placed on the cross axis.
#[derive(Debug, Clone, Copy, PartialEq, Eq, Structural, Hash)]
pub enum AlignItems {
    FlexStart,
    FlexEnd,
    Center,
    Baseline,
    Stretch,
}

impl Default for AlignItems {
    fn default() -> (r: AlignItems)
        ensures
            r == AlignItems::Stretch,
    {
        AlignItems::Stretch
    }
}

/// How one item overrides its parent's `AlignItems`; `Auto` inherits it.
#[derive(Debug, Clone, Copy, PartialEq, Eq, Structural, Hash)]
pub enum AlignSelf {
    Auto,
    FlexStart,
    FlexEnd,
    Center,
    Baseline,
    Stretch,
}

impl Default for AlignSelf {
    fn default() -> (r: AlignSelf)
        ensures
            r == AlignSelf::Auto,
    {
        AlignSelf::Auto
    }
}

/// How flex lines are placed on the cross axis.
#[derive(Debug, Clone, Copy, PartialEq, Eq, Structural, Hash)]
pub enum AlignContent {
    FlexStart,
    FlexEnd,
    Center,
    Stretch,
    SpaceBetween,
    SpaceAround,
}

impl Default for AlignContent {
    fn default() -> (r: AlignContent)
        ensures
            r == AlignContent::Stretch,
    {
        AlignContent::Stretch
    }
}

/// The writing direction.
#[derive(Debug, Clone, Copy, PartialEq, Eq, Structural, Hash)]
pub enum Direction {
    Inherit,
    LTR,
    RTL,
}

impl Default for Direction {
    fn default() -> (r: Direction)
        ensures
            r == Direction::Inherit,
    {
        Direction::Inherit
    }
}

/// Whether and how a box is laid out.
#[derive(Debug, Clone, Copy, PartialEq, Eq, Structural, Hash)]
pub enum Display {
    Flex,
    Inline,
    /// The box and its children are not displayed at all (`display: none`)
    NoBox,
}

impl Default for Display {
    fn default() -> (r: Display)
        ensures
            r == Display::Flex,
    {
        Display::Flex
    }
}

/// The main axis of a flex container, and its direction.
#[derive(Debug, Clone, Copy, PartialEq, Eq, Structural, Hash)]
pub enum FlexDirection {
    Row,
    Column,
    RowReverse,
    ColumnReverse,
}

impl Default for FlexDirection {
    fn default() -> (r: FlexDirection)
        ensures
            r == FlexDirection::Row,
    {
        FlexDirection::Row
    }
}

/// How items are placed on the main axis.
#[derive(Debug, Clone, Copy, PartialEq, Eq, Structural, Hash)]
pub enum JustifyContent {
    FlexStart,
    FlexEnd,
    Center,
    SpaceBetween,
    SpaceAround,
    SpaceEvenly,
}

impl Default for JustifyContent {
    fn default() -> (r: JustifyContent)
        ensures
            r == JustifyContent::FlexStart,
    {
        JustifyContent::FlexStart
    }
}

/// What happens to content that does not fit.
#[derive(Debug, Clone, Copy, PartialEq, Eq, Structural, Hash)]
pub enum Overflow {
    Visible,
    Hidden,
    Scroll,
}

impl Default for Overflow {
    fn default() -> (r: Overflow)
        ensures
            r == Overflow::Visible,
    {
        Overflow::Visible
    }
}

/// Whether a box takes part in the flow.
#[derive(Debug, Clone, Copy, PartialEq, Eq, Structural, Hash)]
pub enum PositionType {
    Relative,
    Absolute,
}

impl Default for PositionType {
    fn default() -> (r: PositionType)
        ensures
            r == PositionType::Relative,
    {
        PositionType::Relative
    }
}

/// Whether items wrap onto several lines.
#[derive(Debug, Clone, Copy, PartialEq, Eq, Structural, Hash)]
pub enum FlexWrap {
    NoWrap,
    Wrap,
    WrapReverse,
}

impl Default for FlexWrap {
    fn default() -> (r: FlexWrap)
        ensures
            r == FlexWrap::NoWrap,
    {
        FlexWrap::NoWrap
    }
}

/// What the width and height of a box measure.
#[derive(Debug, Clone, Copy, PartialEq, Eq, Structural, Hash)]
pub enum BoxSizing {
    ContentBox,
    BorderBox,
}

impl Default for BoxSizing {
    fn default() -> (r: BoxSizing)
        ensures
            r == BoxSizing::ContentBox,
    {
        BoxSizing::ContentBox
    }
}

/// Whether a direction lays items out along the horizontal axis.
pub open spec fn is_row_spec(d: FlexDirection) -> bool {
    d == FlexDirection::Row || d == FlexDirection::RowReverse
}

impl FlexDirection {
    pub fn is_row(self) -> (r: bool)
        ensures
            r == is_row_spec(self),
    {
        self == FlexDirection::Row || self == FlexDirection::RowReverse
    }

    pub fn is_column(self) -> (r: bool)
        ensures
            r == (self == FlexDirection::Column || self == FlexDirection::ColumnReverse),
            r == !is_row_spec(self),
    {
        self == FlexDirection::Column || self == FlexDirection::ColumnReverse
    }

    pub fn is_reverse(self) -> (r: bool)
        ensures
            r == (self == FlexDirection::RowReverse || self == FlexDirection::ColumnReverse),
    {
        self == FlexDirection::RowReverse || self == FlexDirection::ColumnReverse
    }
}

impl AlignSelf {
    /// The alignment an item ends up with: its own, or for `Auto` the
    /// parent's `align_items`.
    pub fn resolve(self, parent_align_items: AlignItems) -> (r: AlignSelf)
        ensures
            self != AlignSelf::Auto ==> r == self,
            self == AlignSelf::Auto ==> r == (match parent_align_items {
                AlignItems::FlexStart => AlignSelf::FlexStart,
                AlignItems::FlexEnd => AlignSelf::FlexEnd,
                AlignItems::Center => AlignSelf::Center,
                AlignItems::Baseline => AlignSelf::Baseline,
                AlignItems::Stretch => AlignSelf::Stretch,
            }),
    {
        if self == AlignSelf::Auto {
            match parent_align_items {
                AlignItems::FlexStart => AlignSelf::FlexStart,
                AlignItems::FlexEnd => AlignSelf::FlexEnd,
                AlignItems::Center => AlignSelf::Center,
                AlignItems::Baseline => AlignSelf::Baseline,
                AlignItems::Stretch => AlignSelf::Stretch,
            }
        } else {
            self
        }
    }
}

/// A width and a height.
#[derive(Debug, Clone, Copy, PartialEq)]
pub struct Size<T> {
    pub width: T,
    pub height: T,
}

/// Four sides of a box.
#[derive(Debug, Clone, Copy, PartialEq)]
pub struct Offsets<T> {
    pub right: T,
    pub left: T,
    pub top: T,
    pub bottom: T,
}

impl<T: Copy> Size<T> {
    /// The extent along the main axis: the width for rows, the height for columns.
    pub fn main(&self, direction: FlexDirection) -> (r: T)
        ensures
            r == (if is_row_spec(direction) {
                self.width
            } else {
                self.height
            }),
    {
        if direction.is_row() {
            self.width
        } else {
            self.height
        }
    }

    /// The extent along the cross axis: the height for rows, the width for columns.
    pub fn cross(&self, direction: FlexDirection) -> (r: T)
        ensures
            r == (if is_row_spec(direction) {
                self.height
            } else {
                self.width
            }),
    {
        if direction.is_row() {
            self.height
        } else {
            self.width
        }
    }
}

impl<T: Copy> Offsets<T> {
    /// The side where the main axis starts: left for rows, top for columns.
    pub fn main_start(&self, direction: FlexDirection) -> (r: T)
        ensures
            r == (if is_row_spec(direction) {
                self.left
            } else {
                self.top
            }),
    {
        if direction.is_row() {
            self.left
        } else {
            self.top
        }
    }

    /// The side where the main axis ends: right for rows, bottom for columns.
    pub fn main_end(&self, direction: FlexDirection) -> (r: T)
        ensures
            r == (if is_row_spec(direction) {
                self.right
            } else {
                self.bottom
            }),
    {
        if direction.is_row() {
            self.right
        } else {
            self.bottom
        }
    }

    /// The side where the cross axis starts: top for rows, left for columns.
    pub fn cross_start(&self, direction: FlexDirection) -> (r: T)
        ensures
            r == (if is_row_spec(direction) {
                self.top
            } else {
                self.left
            }),
    {
        if direction.is_row() {
            self.top
        } else {
            self.left
        }
    }

    /// The side where the cross axis ends: bottom for rows, right for columns.
    pub fn cross_end(&self, direction: FlexDirection) -> (r: T)
        ensures
            r == (if is_row_spec(direction) {
                self.bottom
            } else {
                self.right
            }),
    {
        if direction.is_row() {
            self.bottom
        } else {
            self.right
        }
    }
}

} // verus!
