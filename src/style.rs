//! The style record that class strings resolve to, and the single-field
//! effects that class tokens apply to it.
use vstd::prelude::*;

verus! {

/// An exact rational quantity `num / den`; `den` is positive.
#[derive(Clone, Copy, Debug, PartialEq, Eq, Structural)]
pub struct Num {
    pub num: i64,
    pub den: u64,
}

/// A length as the layout engine understands it.
#[derive(Clone, Copy, Debug, PartialEq, Eq, Structural)]
pub enum Val {
    Auto,
    Px(Num),
    Percent(Num),
    Vw(Num),
    Vh(Num),
}

/// Four lengths, one per side of a box.
#[derive(Clone, Copy, Debug, PartialEq, Eq, Structural)]
pub struct UiRect {
    pub left: Val,
    pub right: Val,
    pub top: Val,
    pub bottom: Val,
}

#[derive(Clone, Copy, Debug, PartialEq, Eq, Structural)]
pub enum Display {
    Flex,
    Grid,
    Hidden,
}

#[derive(Clone, Copy, Debug, PartialEq, Eq, Structural)]
pub enum FlexDirection {
    Row,
    Column,
    RowReverse,
    ColumnReverse,
}

#[derive(Clone, Copy, Debug, PartialEq, Eq, Structural)]
pub enum AlignContent {
    Default,
    FlexStart,
    FlexEnd,
    Center,
    SpaceBetween,
    SpaceAround,
    SpaceEvenly,
    Stretch,
}

#[derive(Clone, Copy, Debug, PartialEq, Eq, Structural)]
pub enum AlignSelf {
    Auto,
    FlexStart,
    FlexEnd,
    Center,
    Baseline,
    Stretch,
}

#[derive(Clone, Copy, Debug, PartialEq, Eq, Structural)]
pub enum JustifyContent {
    Default,
    FlexStart,
    FlexEnd,
    Center,
    SpaceBetween,
    SpaceAround,
    SpaceEvenly,
    Stretch,
}

/// An 8-bit-per-channel colour with alpha.
#[derive(Clone, Copy, Debug, PartialEq, Eq, Structural)]
pub struct Rgba {
    pub r: u8,
    pub g: u8,
    pub b: u8,
    pub a: u8,
}

/// The layout part of a style: never inherited by children.
#[derive(Clone, Copy, Debug, PartialEq, Eq, Structural)]
pub struct Style {
    pub display: Display,
    pub flex_direction: FlexDirection,
    pub align_content: AlignContent,
    pub align_self: AlignSelf,
    pub justify_content: JustifyContent,
    pub aspect_ratio: Option<Num>,
    pub flex_grow: Num,
    pub flex_shrink: Num,
    pub width: Val,
    pub height: Val,
    pub margin: UiRect,
    pub padding: UiRect,
    pub border: UiRect,
}

/// Everything one class string resolves to: the local layout and background,
/// and the font size and text colour that cascade to descendants.
#[derive(Clone, Copy, Debug, PartialEq, Eq, Structural)]
pub struct FauxStyle {
    pub style: Style,
    pub background_color: Option<Rgba>,
    pub font_size: Option<Num>,
    pub color: Option<Rgba>,
}

/// Which sides of a box an effect writes.
#[derive(Clone, Copy, Debug, PartialEq, Eq, Structural)]
pub enum Side {
    All,
    Top,
    Right,
    Bottom,
    Left,
    X,
    Y,
}

/// The single field assignment that one class token stands for.
#[derive(Clone, Copy, Debug, PartialEq, Eq, Structural)]
pub enum Effect {
    Display(Display),
    FlexDirection(FlexDirection),
    AlignContent(AlignContent),
    AlignSelf(AlignSelf),
    JustifyContent(JustifyContent),
    AspectRatio(Option<Num>),
    FlexGrow(Num),
    FlexShrink(Num),
    Width(Val),
    Height(Val),
    Border(Side, Val),
    Padding(Side, Val),
    Margin(Side, Val),
    Background(Rgba),
    FontSize(Num),
    TextColor(Rgba),
}

/// No length at all.
pub open spec fn zero_px() -> Val {
    Val::Px(Num { num: 0, den: 1 })
}

/// A box with no length on any side.
pub open spec fn zero_rect() -> UiRect {
    UiRect { left: zero_px(), right: zero_px(), top: zero_px(), bottom: zero_px() }
}

/// The layout an element has before any class token applies.
pub open spec fn initial_style() -> Style {
    Style {
        display: Display::Flex,
        flex_direction: FlexDirection::Row,
        align_content: AlignContent::Default,
        align_self: AlignSelf::Auto,
        justify_content: JustifyContent::Default,
        aspect_ratio: None,
        flex_grow: Num { num: 0, den: 1 },
        flex_shrink: Num { num: 1, den: 1 },
        width: Val::Auto,
        height: Val::Auto,
        margin: zero_rect(),
        padding: zero_rect(),
        border: zero_rect(),
    }
}

/// The accumulator a class string starts from.
pub open spec fn initial_faux_style() -> FauxStyle {
    FauxStyle { style: initial_style(), background_color: None, font_size: None, color: None }
}

/// `r` with the sides named by `side` set to `v`.
pub open spec fn set_sides(r: UiRect, side: Side, v: Val) -> UiRect {
    match side {
        Side::All => UiRect { left: v, right: v, top: v, bottom: v },
        Side::Top => UiRect { top: v, ..r },
        Side::Right => UiRect { right: v, ..r },
        Side::Bottom => UiRect { bottom: v, ..r },
        Side::Left => UiRect { left: v, ..r },
        Side::X => UiRect { left: v, right: v, ..r },
        Side::Y => UiRect { top: v, bottom: v, ..r },
    }
}

/// What applying `e` to `st` yields: exactly the fields that `e` names change.
pub open spec fn apply_effect(st: FauxStyle, e: Effect) -> FauxStyle {
    let s = st.style;
    match e {
        Effect::Display(d) => FauxStyle { style: Style { display: d, ..s }, ..st },
        Effect::FlexDirection(d) => FauxStyle { style: Style { flex_direction: d, ..s }, ..st },
        Effect::AlignContent(a) => FauxStyle { style: Style { align_content: a, ..s }, ..st },
        Effect::AlignSelf(a) => FauxStyle { style: Style { align_self: a, ..s }, ..st },
        Effect::JustifyContent(j) => FauxStyle { style: Style { justify_content: j, ..s }, ..st },
        Effect::AspectRatio(a) => FauxStyle { style: Style { aspect_ratio: a, ..s }, ..st },
        Effect::FlexGrow(g) => FauxStyle { style: Style { flex_grow: g, ..s }, ..st },
        Effect::FlexShrink(g) => FauxStyle { style: Style { flex_shrink: g, ..s }, ..st },
        Effect::Width(v) => FauxStyle { style: Style { width: v, ..s }, ..st },
        Effect::Height(v) => FauxStyle { style: Style { height: v, ..s }, ..st },
        Effect::Border(side, v) => FauxStyle {
            style: Style { border: set_sides(s.border, side, v), ..s },
            ..st
        },
        Effect::Padding(side, v) => FauxStyle {
            style: Style { padding: set_sides(s.padding, side, v), ..s },
            ..st
        },
        Effect::Margin(side, v) => FauxStyle {
            style: Style { margin: set_sides(s.margin, side, v), ..s },
            ..st
        },
        Effect::Background(c) => FauxStyle { background_color: Some(c), ..st },
        Effect::FontSize(n) => FauxStyle { font_size: Some(n), ..st },
        Effect::TextColor(c) => FauxStyle { color: Some(c), ..st },
    }
}

impl FauxStyle {
    /// The style of an element whose class string is empty.
    pub fn initial() -> (r: FauxStyle)
        ensures
            r == initial_faux_style(),
    {
        let zero = Val::Px(Num { num: 0, den: 1 });
        let rect = UiRect { left: zero, right: zero, top: zero, bottom: zero };
        FauxStyle {
            style: Style {
                display: Display::Flex,
                flex_direction: FlexDirection::Row,
                align_content: AlignContent::Default,
                align_self: AlignSelf::Auto,
                justify_content: JustifyContent::Default,
                aspect_ratio: None,
                flex_grow: Num { num: 0, den: 1 },
                flex_shrink: Num { num: 1, den: 1 },
                width: Val::Auto,
                height: Val::Auto,
                margin: rect,
                padding: rect,
                border: rect,
            },
            background_color: None,
            font_size: None,
            color: None,
        }
    }

    /// Applies one effect in place.
    pub fn apply(&mut self, e: Effect)
        ensures
            *final(self) == apply_effect(*old(self), e),
    {
        match e {
            Effect::Display(d) => self.style.display = d,
            Effect::FlexDirection(d) => self.style.flex_direction = d,
            Effect::AlignContent(a) => self.style.align_content = a,
            Effect::AlignSelf(a) => self.style.align_self = a,
            Effect::JustifyContent(j) => self.style.justify_content = j,
            Effect::AspectRatio(a) => self.style.aspect_ratio = a,
            Effect::FlexGrow(g) => self.style.flex_grow = g,
            Effect::FlexShrink(g) => self.style.flex_shrink = g,
            Effect::Width(v) => self.style.width = v,
            Effect::Height(v) => self.style.height = v,
            Effect::Border(side, v) => set_rect_sides(&mut self.style.border, side, v),
            Effect::Padding(side, v) => set_rect_sides(&mut self.style.padding, side, v),
            Effect::Margin(side, v) => set_rect_sides(&mut self.style.margin, side, v),
            Effect::Background(c) => self.background_color = Some(c),
            Effect::FontSize(n) => self.font_size = Some(n),
            Effect::TextColor(c) => self.color = Some(c),
        }
    }
}

fn set_rect_sides(r: &mut UiRect, side: Side, v: Val)
    ensures
        *final(r) == set_sides(*old(r), side, v),
{
    match side {
        Side::All => {
            r.left = v;
            r.right = v;
            r.top = v;
            r.bottom = v;
        },
        Side::Top => r.top = v,
        Side::Right => r.right = v,
        Side::Bottom => r.bottom = v,
        Side::Left => r.left = v,
        Side::X => {
            r.left = v;
            r.right = v;
        },
        Side::Y => {
            r.top = v;
            r.bottom = v;
        },
    }
}

/// One side of a box.
#[derive(Clone, Copy, Debug, PartialEq, Eq, Structural)]
pub enum Edge {
    Top,
    Right,
    Bottom,
    Left,
}

/// One field of a style record.
#[derive(Clone, Copy, Debug, PartialEq, Eq, Structural)]
pub enum Field {
    Display,
    FlexDirection,
    AlignContent,
    AlignSelf,
    JustifyContent,
    AspectRatio,
    FlexGrow,
    FlexShrink,
    Width,
    Height,
    Margin(Edge),
    Padding(Edge),
    Border(Edge),
    Background,
    FontSize,
    TextColor,
}

/// The value a field holds.
pub enum FieldValue {
    Display(Display),
    FlexDirection(FlexDirection),
    AlignContent(AlignContent),
    AlignSelf(AlignSelf),
    JustifyContent(JustifyContent),
    Ratio(Option<Num>),
    Number(Num),
    Length(Val),
    Color(Option<Rgba>),
    Size(Option<Num>),
}

/// The length on one side of a box.
pub open spec fn rect_edge(r: UiRect, edge: Edge) -> Val {
    match edge {
        Edge::Top => r.top,
        Edge::Right => r.right,
        Edge::Bottom => r.bottom,
        Edge::Left => r.left,
    }
}

/// What field `f` of `st` holds.
pub open spec fn field(st: FauxStyle, f: Field) -> FieldValue {
    let s = st.style;
    match f {
        Field::Display => FieldValue::Display(s.display),
        Field::FlexDirection => FieldValue::FlexDirection(s.flex_direction),
        Field::AlignContent => FieldValue::AlignContent(s.align_content),
        Field::AlignSelf => FieldValue::AlignSelf(s.align_self),
        Field::JustifyContent => FieldValue::JustifyContent(s.justify_content),
        Field::AspectRatio => FieldValue::Ratio(s.aspect_ratio),
        Field::FlexGrow => FieldValue::Number(s.flex_grow),
        Field::FlexShrink => FieldValue::Number(s.flex_shrink),
        Field::Width => FieldValue::Length(s.width),
        Field::Height => FieldValue::Length(s.height),
        Field::Margin(edge) => FieldValue::Length(rect_edge(s.margin, edge)),
        Field::Padding(edge) => FieldValue::Length(rect_edge(s.padding, edge)),
        Field::Border(edge) => FieldValue::Length(rect_edge(s.border, edge)),
        Field::Background => FieldValue::Color(st.background_color),
        Field::FontSize => FieldValue::Size(st.font_size),
        Field::TextColor => FieldValue::Color(st.color),
    }
}

/// `side` includes `edge`.
pub open spec fn covers(side: Side, edge: Edge) -> bool {
    match side {
        Side::All => true,
        Side::X => edge == Edge::Left || edge == Edge::Right,
        Side::Y => edge == Edge::Top || edge == Edge::Bottom,
        Side::Top => edge == Edge::Top,
        Side::Right => edge == Edge::Right,
        Side::Bottom => edge == Edge::Bottom,
        Side::Left => edge == Edge::Left,
    }
}

/// Whether effect `e` writes field `f`.
pub open spec fn writes(e: Effect, f: Field) -> bool {
    match (e, f) {
        (Effect::Display(_), Field::Display) => true,
        (Effect::FlexDirection(_), Field::FlexDirection) => true,
        (Effect::AlignContent(_), Field::AlignContent) => true,
        (Effect::AlignSelf(_), Field::AlignSelf) => true,
        (Effect::JustifyContent(_), Field::JustifyContent) => true,
        (Effect::AspectRatio(_), Field::AspectRatio) => true,
        (Effect::FlexGrow(_), Field::FlexGrow) => true,
        (Effect::FlexShrink(_), Field::FlexShrink) => true,
        (Effect::Width(_), Field::Width) => true,
        (Effect::Height(_), Field::Height) => true,
        (Effect::Margin(side, _), Field::Margin(edge)) => covers(side, edge),
        (Effect::Padding(side, _), Field::Padding(edge)) => covers(side, edge),
        (Effect::Border(side, _), Field::Border(edge)) => covers(side, edge),
        (Effect::Background(_), Field::Background) => true,
        (Effect::FontSize(_), Field::FontSize) => true,
        (Effect::TextColor(_), Field::TextColor) => true,
        _ => false,
    }
}

/// An effect changes only the fields it writes, and what it writes there
/// does not depend on the style it is applied to.
pub proof fn lemma_effect_fields(st: FauxStyle, other: FauxStyle, e: Effect, f: Field)
    ensures
        !writes(e, f) ==> field(apply_effect(st, e), f) == field(st, f),
        writes(e, f) ==> field(apply_effect(st, e), f) == field(apply_effect(other, e), f),
{
}

} // verus!
