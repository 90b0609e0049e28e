use vstd::prelude::*;

verus! {

/// The kind of a style property.
#[derive(Debug, Clone, Copy, PartialEq, Eq, Structural, Hash)]
pub enum CssPropertyType {
    Display,
    Position,
    Width,
    Height,
    MinWidth,
    MinHeight,
    MaxWidth,
    MaxHeight,
    Top,
    Right,
    Bottom,
    Left,
    MarginTop,
    MarginRight,
    MarginBottom,
    MarginLeft,
    PaddingTop,
    PaddingRight,
    PaddingBottom,
    PaddingLeft,
    BorderTopWidth,
    BorderRightWidth,
    BorderBottomWidth,
    BorderLeftWidth,
    FlexDirection,
    FlexWrap,
    FlexGrow,
    FlexShrink,
    FlexBasis,
    JustifyContent,
    AlignItems,
    AlignContent,
    Overflow,
    FontSize,
    FontFamily,
    LineHeight,
    LetterSpacing,
    WordSpacing,
    TabWidth,
    TextAlign,
    TextColor,
    Background,
    BorderColor,
    BorderRadius,
    BoxShadow,
    Cursor,
}

/// Whether a change of a property of this kind can move or resize boxes:
/// sizes, offsets, margins, paddings, border widths and the flex properties.
pub open spec fn triggers_relayout(t: CssPropertyType) -> bool {
    match t {
        CssPropertyType::Width | CssPropertyType::Height | CssPropertyType::MinWidth
        | CssPropertyType::MinHeight | CssPropertyType::MaxWidth | CssPropertyType::MaxHeight
        | CssPropertyType::Display | CssPropertyType::Position | CssPropertyType::Top
        | CssPropertyType::Right | CssPropertyType::Bottom | CssPropertyType::Left
        | CssPropertyType::MarginTop | CssPropertyType::MarginRight
        | CssPropertyType::MarginBottom | CssPropertyType::MarginLeft
        | CssPropertyType::PaddingTop | CssPropertyType::PaddingRight
        | CssPropertyType::PaddingBottom | CssPropertyType::PaddingLeft
        | CssPropertyType::BorderTopWidth | CssPropertyType::BorderRightWidth
        | CssPropertyType::BorderBottomWidth | CssPropertyType::BorderLeftWidth
        | CssPropertyType::FlexDirection | CssPropertyType::FlexWrap | CssPropertyType::FlexGrow
        | CssPropertyType::FlexShrink | CssPropertyType::FlexBasis
        | CssPropertyType::JustifyContent | CssPropertyType::AlignItems
        | CssPropertyType::AlignContent => true,
        _ => false,
    }
}

impl CssPropertyType {
    /// Whether changing this property requires a new layout pass.
    pub fn can_trigger_relayout(&self) -> (r: bool)
        ensures
            r == triggers_relayout(*self),
    {
        match self {
            CssPropertyType::Width | CssPropertyType::Height | CssPropertyType::MinWidth
            | CssPropertyType::MinHeight | CssPropertyType::MaxWidth
            | CssPropertyType::MaxHeight | CssPropertyType::Display | CssPropertyType::Position
            | CssPropertyType::Top | CssPropertyType::Right | CssPropertyType::Bottom
            | CssPropertyType::Left | CssPropertyType::MarginTop | CssPropertyType::MarginRight
            | CssPropertyType::MarginBottom | CssPropertyType::MarginLeft
            | CssPropertyType::PaddingTop | CssPropertyType::PaddingRight
            | CssPropertyType::PaddingBottom | CssPropertyType::PaddingLeft
            | CssPropertyType::BorderTopWidth | CssPropertyType::BorderRightWidth
            | CssPropertyType::BorderBottomWidth | CssPropertyType::BorderLeftWidth
            | CssPropertyType::FlexDirection | CssPropertyType::FlexWrap
            | CssPropertyType::FlexGrow | CssPropertyType::FlexShrink
            | CssPropertyType::FlexBasis | CssPropertyType::JustifyContent
            | CssPropertyType::AlignItems | CssPropertyType::AlignContent => true,
            _ => false,
        }
    }
}

/// One parsed style declaration: a property kind and its value as written.
#[derive(Debug, Clone, PartialEq, Eq, Hash)]
pub struct CssProperty {
    pub property_type: CssPropertyType,
    pub value: String,
}

impl CssProperty {
    pub fn new(property_type: CssPropertyType, value: String) -> (r: CssProperty)
        ensures
            r.property_type == property_type,
            r.value == value,
    {
        CssProperty { property_type, value }
    }

    /// An equal copy of the declaration.
    pub fn duplicate(&self) -> (r: CssProperty)
        ensures
            r == *self,
    {
        CssProperty { property_type: self.property_type, value: self.value.clone() }
    }
}

/// The pseudo-classes that the matcher understands.
#[derive(Debug, Clone, Copy, PartialEq, Eq, Structural, Hash)]
pub enum CssPathPseudoSelector {
    Hover,
    Active,
    Focus,
}

/// The element names that a type selector can name.
#[derive(Debug, Clone, Copy, PartialEq, Eq, Structural, Hash)]
pub enum NodeTypePath {
    Div,
    Body,
    P,
    Img,
    Texture,
    IFrame,
}

/// One part of a selector path.
#[derive(Debug, Clone, PartialEq, Eq, Hash)]
pub enum CssPathSelector {
    /// `*`
    Global,
    /// `div`, `p`, ...
    Type(NodeTypePath),
    /// `.name`
    Class(String),
    /// `#name`
    Id(String),
    /// `:hover`, `:active`, `:focus`
    PseudoSelector(CssPathPseudoSelector),
    /// `>`: the next compound selects direct children
    DirectChildren,
    /// ` `: the next compound selects descendants
    Children,
}

/// A normalized selector path, read left to right.
#[derive(Debug, Clone, PartialEq, Eq, Hash)]
pub struct CssPath {
    pub selectors: Vec<CssPathSelector>,
}

/// A rule: a selector path, its declarations in source order, and its
/// precomputed specificity.
#[derive(Debug, Clone, PartialEq, Eq, Hash)]
pub struct CssRuleBlock {
    pub path: CssPath,
    pub declarations: Vec<CssProperty>,
    pub specificity: usize,
}

/// A parsed stylesheet: its rules in source order.
#[derive(Debug, Clone, PartialEq, Eq, Hash)]
pub struct Css {
    pub rules: Vec<CssRuleBlock>,
}

impl Css {
    /// A stylesheet without rules.
    pub fn empty() -> (r: Css)
        ensures
            r.rules@.len() == 0,
    {
        Css { rules: Vec::new() }
    }
}

} // verus!
