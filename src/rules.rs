//! The rule table: what each utility-class token does to a style, and the
//! fold of a whole class string into one style record.
use vstd::prelude::*;
use crate::color::{color_value, parse_color};
use crate::number::{digits_value, named_fraction, parse_named_fraction, parse_scale, parse_size, raw_size, scale_halves};
use crate::style::{
    AlignContent, AlignSelf, Display, Effect, FauxStyle, Field, FlexDirection, JustifyContent, Num, Side, Val,
    apply_effect, field, initial_faux_style, lemma_effect_fields, writes,
};
use crate::text::{
    eq_lit, find_char, first_index_of, has_prefix, has_suffix, slice, starts_with_lit,
    ends_with_lit, chars_of,
};

verus! {

/// Tokens that are a whole word of the vocabulary, each one field assignment.
pub open spec fn keyword_rule(t: Seq<char>) -> Option<Effect> {
    if t == "block"@ {
        Some(Effect::Display(Display::Hidden))
    } else if t == "grid"@ {
        Some(Effect::Display(Display::Grid))
    } else if t == "flex"@ {
        Some(Effect::Display(Display::Flex))
    } else if t == "flex-row"@ {
        Some(Effect::FlexDirection(FlexDirection::Row))
    } else if t == "flex-col"@ {
        Some(Effect::FlexDirection(FlexDirection::Column))
    } else if t == "flex-row-reverse"@ {
        Some(Effect::FlexDirection(FlexDirection::RowReverse))
    } else if t == "flex-col-reverse"@ {
        Some(Effect::FlexDirection(FlexDirection::ColumnReverse))
    } else if t == "items-start"@ {
        Some(Effect::AlignContent(AlignContent::FlexStart))
    } else if t == "items-end"@ {
        Some(Effect::AlignContent(AlignContent::FlexEnd))
    } else if t == "items-center"@ {
        Some(Effect::AlignContent(AlignContent::Center))
    } else if t == "items-between"@ {
        Some(Effect::AlignContent(AlignContent::SpaceBetween))
    } else if t == "items-around"@ {
        Some(Effect::AlignContent(AlignContent::SpaceAround))
    } else if t == "items-evenly"@ {
        Some(Effect::AlignContent(AlignContent::SpaceEvenly))
    } else if t == "items-stretch"@ {
        Some(Effect::AlignContent(AlignContent::Stretch))
    } else if t == "self-start"@ {
        Some(Effect::AlignSelf(AlignSelf::FlexStart))
    } else if t == "self-end"@ {
        Some(Effect::AlignSelf(AlignSelf::FlexEnd))
    } else if t == "self-center"@ {
        Some(Effect::AlignSelf(AlignSelf::Center))
    } else if t == "self-stretch"@ {
        Some(Effect::AlignSelf(AlignSelf::Stretch))
    } else if t == "self-auto"@ {
        Some(Effect::AlignSelf(AlignSelf::Auto))
    } else if t == "self-baseline"@ {
        Some(Effect::AlignSelf(AlignSelf::Baseline))
    } else if t == "justify-normal"@ {
        Some(Effect::JustifyContent(JustifyContent::Default))
    } else if t == "justify-start"@ {
        Some(Effect::JustifyContent(JustifyContent::FlexStart))
    } else if t == "justify-end"@ {
        Some(Effect::JustifyContent(JustifyContent::FlexEnd))
    } else if t == "justify-center"@ {
        Some(Effect::JustifyContent(JustifyContent::Center))
    } else if t == "justify-between"@ {
        Some(Effect::JustifyContent(JustifyContent::SpaceBetween))
    } else if t == "justify-around"@ {
        Some(Effect::JustifyContent(JustifyContent::SpaceAround))
    } else if t == "justify-evenly"@ {
        Some(Effect::JustifyContent(JustifyContent::SpaceEvenly))
    } else if t == "justify-stretch"@ {
        Some(Effect::JustifyContent(JustifyContent::Stretch))
    } else if t == "aspect-auto"@ {
        Some(Effect::AspectRatio(None))
    } else if t == "aspect-square"@ {
        Some(Effect::AspectRatio(Some(Num { num: 1, den: 1 })))
    } else if t == "aspect-video"@ {
        Some(Effect::AspectRatio(Some(Num { num: 16, den: 9 })))
    } else if t == "grow"@ {
        Some(Effect::FlexGrow(Num { num: 1, den: 1 }))
    } else if t == "grow-0"@ {
        Some(Effect::FlexGrow(Num { num: 0, den: 1 }))
    } else if t == "shrink"@ {
        Some(Effect::FlexShrink(Num { num: 1, den: 1 }))
    } else if t == "shrink-0"@ {
        Some(Effect::FlexShrink(Num { num: 0, den: 1 }))
    } else {
        None
    }
}

fn keyword_effect(t: &Vec<char>) -> (r: Option<Effect>)
    ensures
        r == keyword_rule(t@),
{
    if eq_lit(t, "block") {
        Some(Effect::Display(Display::Hidden))
    } else if eq_lit(t, "grid") {
        Some(Effect::Display(Display::Grid))
    } else if eq_lit(t, "flex") {
        Some(Effect::Display(Display::Flex))
    } else if eq_lit(t, "flex-row") {
        Some(Effect::FlexDirection(FlexDirection::Row))
    } else if eq_lit(t, "flex-col") {
        Some(Effect::FlexDirection(FlexDirection::Column))
    } else if eq_lit(t, "flex-row-reverse") {
        Some(Effect::FlexDirection(FlexDirection::RowReverse))
    } else if eq_lit(t, "flex-col-reverse") {
        Some(Effect::FlexDirection(FlexDirection::ColumnReverse))
    } else if eq_lit(t, "items-start") {
        Some(Effect::AlignContent(AlignContent::FlexStart))
    } else if eq_lit(t, "items-end") {
        Some(Effect::AlignContent(AlignContent::FlexEnd))
    } else if eq_lit(t, "items-center") {
        Some(Effect::AlignContent(AlignContent::Center))
    } else if eq_lit(t, "items-between") {
        Some(Effect::AlignContent(AlignContent::SpaceBetween))
    } else if eq_lit(t, "items-around") {
        Some(Effect::AlignContent(AlignContent::SpaceAround))
    } else if eq_lit(t, "items-evenly") {
        Some(Effect::AlignContent(AlignContent::SpaceEvenly))
    } else if eq_lit(t, "items-stretch") {
        Some(Effect::AlignContent(AlignContent::Stretch))
    } else if eq_lit(t, "self-start") {
        Some(Effect::AlignSelf(AlignSelf::FlexStart))
    } else if eq_lit(t, "self-end") {
        Some(Effect::AlignSelf(AlignSelf::FlexEnd))
    } else if eq_lit(t, "self-center") {
        Some(Effect::AlignSelf(AlignSelf::Center))
    } else if eq_lit(t, "self-stretch") {
        Some(Effect::AlignSelf(AlignSelf::Stretch))
    } else if eq_lit(t, "self-auto") {
        Some(Effect::AlignSelf(AlignSelf::Auto))
    } else if eq_lit(t, "self-baseline") {
        Some(Effect::AlignSelf(AlignSelf::Baseline))
    } else if eq_lit(t, "justify-normal") {
        Some(Effect::JustifyContent(JustifyContent::Default))
    } else if eq_lit(t, "justify-start") {
        Some(Effect::JustifyContent(JustifyContent::FlexStart))
    } else if eq_lit(t, "justify-end") {
        Some(Effect::JustifyContent(JustifyContent::FlexEnd))
    } else if eq_lit(t, "justify-center") {
        Some(Effect::JustifyContent(JustifyContent::Center))
    } else if eq_lit(t, "justify-between") {
        Some(Effect::JustifyContent(JustifyContent::SpaceBetween))
    } else if eq_lit(t, "justify-around") {
        Some(Effect::JustifyContent(JustifyContent::SpaceAround))
    } else if eq_lit(t, "justify-evenly") {
        Some(Effect::JustifyContent(JustifyContent::SpaceEvenly))
    } else if eq_lit(t, "justify-stretch") {
        Some(Effect::JustifyContent(JustifyContent::Stretch))
    } else if eq_lit(t, "aspect-auto") {
        Some(Effect::AspectRatio(None))
    } else if eq_lit(t, "aspect-square") {
        Some(Effect::AspectRatio(Some(Num { num: 1, den: 1 })))
    } else if eq_lit(t, "aspect-video") {
        Some(Effect::AspectRatio(Some(Num { num: 16, den: 9 })))
    } else if eq_lit(t, "grow") {
        Some(Effect::FlexGrow(Num { num: 1, den: 1 }))
    } else if eq_lit(t, "grow-0") {
        Some(Effect::FlexGrow(Num { num: 0, den: 1 }))
    } else if eq_lit(t, "shrink") {
        Some(Effect::FlexShrink(Num { num: 1, den: 1 }))
    } else if eq_lit(t, "shrink-0") {
        Some(Effect::FlexShrink(Num { num: 0, den: 1 }))
    } else {
        None
    }
}

/// Font sizes in thousandths of the root unit.
pub open spec fn text_size_rule(k: Seq<char>) -> Option<nat> {
    if k == "xs"@ {
        Some(750nat)
    } else if k == "sm"@ {
        Some(875nat)
    } else if k == "base"@ {
        Some(1000nat)
    } else if k == "lg"@ {
        Some(1125nat)
    } else if k == "xl"@ {
        Some(1250nat)
    } else if k == "2xl"@ {
        Some(1500nat)
    } else if k == "3xl"@ {
        Some(1875nat)
    } else if k == "4xl"@ {
        Some(2250nat)
    } else if k == "5xl"@ {
        Some(3000nat)
    } else if k == "6xl"@ {
        Some(3750nat)
    } else if k == "7xl"@ {
        Some(4500nat)
    } else if k == "8xl"@ {
        Some(6000nat)
    } else if k == "9xl"@ {
        Some(8000nat)
    } else {
        None
    }
}

fn text_size(k: &Vec<char>) -> (r: Option<u64>)
    ensures
        r == (match text_size_rule(k@) {
            Some(m) => Some(m as u64),
            None => None::<u64>,
        }),
{
    if eq_lit(k, "xs") {
        Some(750)
    } else if eq_lit(k, "sm") {
        Some(875)
    } else if eq_lit(k, "base") {
        Some(1000)
    } else if eq_lit(k, "lg") {
        Some(1125)
    } else if eq_lit(k, "xl") {
        Some(1250)
    } else if eq_lit(k, "2xl") {
        Some(1500)
    } else if eq_lit(k, "3xl") {
        Some(1875)
    } else if eq_lit(k, "4xl") {
        Some(2250)
    } else if eq_lit(k, "5xl") {
        Some(3000)
    } else if eq_lit(k, "6xl") {
        Some(3750)
    } else if eq_lit(k, "7xl") {
        Some(4500)
    } else if eq_lit(k, "8xl") {
        Some(6000)
    } else if eq_lit(k, "9xl") {
        Some(8000)
    } else {
        None
    }
}

/// The spacing prefixes: whether each sets margin (else padding), and which sides.
pub open spec fn spacing_rule(p: Seq<char>) -> Option<(bool, Side)> {
    if p == "p"@ {
        Some((false, Side::All))
    } else if p == "pt"@ {
        Some((false, Side::Top))
    } else if p == "pr"@ {
        Some((false, Side::Right))
    } else if p == "pb"@ {
        Some((false, Side::Bottom))
    } else if p == "pl"@ {
        Some((false, Side::Left))
    } else if p == "px"@ {
        Some((false, Side::X))
    } else if p == "py"@ {
        Some((false, Side::Y))
    } else if p == "m"@ {
        Some((true, Side::All))
    } else if p == "mt"@ {
        Some((true, Side::Top))
    } else if p == "mr"@ {
        Some((true, Side::Right))
    } else if p == "mb"@ {
        Some((true, Side::Bottom))
    } else if p == "ml"@ {
        Some((true, Side::Left))
    } else if p == "mx"@ {
        Some((true, Side::X))
    } else if p == "my"@ {
        Some((true, Side::Y))
    } else {
        None
    }
}

fn spacing_target(p: &Vec<char>) -> (r: Option<(bool, Side)>)
    ensures
        r == spacing_rule(p@),
{
    if eq_lit(p, "p") {
        Some((false, Side::All))
    } else if eq_lit(p, "pt") {
        Some((false, Side::Top))
    } else if eq_lit(p, "pr") {
        Some((false, Side::Right))
    } else if eq_lit(p, "pb") {
        Some((false, Side::Bottom))
    } else if eq_lit(p, "pl") {
        Some((false, Side::Left))
    } else if eq_lit(p, "px") {
        Some((false, Side::X))
    } else if eq_lit(p, "py") {
        Some((false, Side::Y))
    } else if eq_lit(p, "m") {
        Some((true, Side::All))
    } else if eq_lit(p, "mt") {
        Some((true, Side::Top))
    } else if eq_lit(p, "mr") {
        Some((true, Side::Right))
    } else if eq_lit(p, "mb") {
        Some((true, Side::Bottom))
    } else if eq_lit(p, "ml") {
        Some((true, Side::Left))
    } else if eq_lit(p, "mx") {
        Some((true, Side::X))
    } else if eq_lit(p, "my") {
        Some((true, Side::Y))
    } else {
        None
    }
}

/// Border widths in pixels.
pub open spec fn border_width(s: Seq<char>) -> Option<nat> {
    if s == "0"@ {
        Some(0nat)
    } else if s == "2"@ {
        Some(2nat)
    } else if s == "4"@ {
        Some(4nat)
    } else if s == "8"@ {
        Some(8nat)
    } else {
        None
    }
}

fn border_width_of(s: &Vec<char>) -> (r: Option<i64>)
    ensures
        r == (match border_width(s@) {
            Some(w) => Some(w as i64),
            None => None::<i64>,
        }),
{
    if eq_lit(s, "0") {
        Some(0)
    } else if eq_lit(s, "2") {
        Some(2)
    } else if eq_lit(s, "4") {
        Some(4)
    } else if eq_lit(s, "8") {
        Some(8)
    } else {
        None
    }
}

/// The side a border token names.
pub open spec fn border_side(s: Seq<char>) -> Option<Side> {
    if s == "t"@ {
        Some(Side::Top)
    } else if s == "r"@ {
        Some(Side::Right)
    } else if s == "b"@ {
        Some(Side::Bottom)
    } else if s == "l"@ {
        Some(Side::Left)
    } else {
        None
    }
}

fn border_side_of(s: &Vec<char>) -> (r: Option<Side>)
    ensures
        r == border_side(s@),
{
    if eq_lit(s, "t") {
        Some(Side::Top)
    } else if eq_lit(s, "r") {
        Some(Side::Right)
    } else if eq_lit(s, "b") {
        Some(Side::Bottom)
    } else if eq_lit(s, "l") {
        Some(Side::Left)
    } else {
        None
    }
}

/// `n` pixels.
pub open spec fn px(n: int) -> Val {
    Val::Px(Num { num: n as i64, den: 1 })
}

/// `border`, `border-<w>`, `border-<side>` and `border-<side>-<w>`; a missing
/// width is one pixel.
pub open spec fn border_rule(t: Seq<char>) -> Option<Effect> {
    if t == "border"@ {
        Some(Effect::Border(Side::All, px(1)))
    } else if has_prefix(t, "border-"@) {
        let r = t.subrange(7, t.len() as int);
        match first_index_of(r, '-') {
            None => match (border_width(r), border_side(r)) {
                (Some(w), _) => Some(Effect::Border(Side::All, px(w as int))),
                (None, Some(side)) => Some(Effect::Border(side, px(1))),
                _ => None,
            },
            Some(k) => match (
                border_side(r.subrange(0, k)),
                border_width(r.subrange(k + 1, r.len() as int)),
            ) {
                (Some(side), Some(w)) => Some(Effect::Border(side, px(w as int))),
                _ => None,
            },
        }
    } else {
        None
    }
}

fn border_effect(t: &Vec<char>) -> (r: Option<Effect>)
    ensures
        r == border_rule(t@),
{
    proof {
        reveal_strlit("border-");
    }
    assert(px(1) == Val::Px(Num { num: 1, den: 1 }));
    if eq_lit(t, "border") {
        return Some(Effect::Border(Side::All, Val::Px(Num { num: 1, den: 1 })));
    }
    if !starts_with_lit(t, "border-") {
        return None;
    }
    let r = slice(t, 7, t.len());
    let n = r.len();
    match find_char(&r, '-') {
        None => match (border_width_of(&r), border_side_of(&r)) {
            (Some(w), _) => Some(Effect::Border(Side::All, Val::Px(Num { num: w, den: 1 }))),
            (None, Some(side)) => Some(Effect::Border(side, Val::Px(Num { num: 1, den: 1 }))),
            _ => None,
        },
        Some(k) => {
            let a = slice(&r, 0, k);
            let b = slice(&r, k + 1, n);
            match (border_side_of(&a), border_width_of(&b)) {
                (Some(side), Some(w)) => Some(Effect::Border(side, Val::Px(Num { num: w, den: 1 }))),
                _ => None,
            }
        },
    }
}

/// `halves` half-steps of the spacing scale, a step being a quarter of `rem`.
pub open spec fn scaled_px(halves: nat, rem: u32) -> Val {
    Val::Px(Num { num: (halves * rem) as i64, den: 8 })
}

fn scale_value(h: u64, rem: u32) -> (r: Val)
    requires
        h <= 192,
    ensures
        r == scaled_px(h as nat, rem),
{
    assert(h * rem as u64 <= 192 * 0xFFFF_FFFFu64) by (nonlinear_arith)
        requires
            h <= 192,
            rem <= 0xFFFF_FFFFu32,
    ;
    Val::Px(Num { num: (h * rem as u64) as i64, den: 8 })
}

fn font_value(m: u64, rem: u32) -> (r: Num)
    requires
        m <= 8000,
    ensures
        r == (Num { num: (m * rem) as i64, den: 1000 }),
{
    assert(m * rem as u64 <= 8000 * 0xFFFF_FFFFu64) by (nonlinear_arith)
        requires
            m <= 8000,
            rem <= 0xFFFF_FFFFu32,
    ;
    Num { num: (m * rem as u64) as i64, den: 1000 }
}

/// The value of a width (or, `vertical`, height) key: `full`, `screen`, a
/// bracketed raw size, a spacing-scale key, or a named fraction.
pub open spec fn axis_rule(k: Seq<char>, rem: u32, vertical: bool) -> Option<Val> {
    let hundred = Num { num: 100, den: 1 };
    if k == "full"@ {
        Some(Val::Percent(hundred))
    } else if k == "screen"@ {
        Some(
            if vertical {
                Val::Vh(hundred)
            } else {
                Val::Vw(hundred)
            },
        )
    } else if k.len() >= 2 && has_prefix(k, "["@) && has_suffix(k, "]"@) {
        raw_size(k.subrange(1, k.len() - 1))
    } else {
        match scale_halves(k) {
            Some(h) => Some(scaled_px(h, rem)),
            None => named_fraction(k),
        }
    }
}

fn axis_value(k: &Vec<char>, rem: u32, vertical: bool) -> (r: Option<Val>)
    ensures
        r == axis_rule(k@, rem, vertical),
{
    let hundred = Num { num: 100, den: 1 };
    if eq_lit(k, "full") {
        Some(Val::Percent(hundred))
    } else if eq_lit(k, "screen") {
        Some(
            if vertical {
                Val::Vh(hundred)
            } else {
                Val::Vw(hundred)
            },
        )
    } else if k.len() >= 2 && starts_with_lit(k, "[") && ends_with_lit(k, "]") {
        parse_size(&slice(k, 1, k.len() - 1))
    } else {
        match parse_scale(k) {
            Some(h) => Some(scale_value(h, rem)),
            None => parse_named_fraction(k),
        }
    }
}

/// What one class token does, if the vocabulary knows it. Literal keywords
/// come first, then borders, then `<prefix>-<key>` tokens by their prefix.
pub open spec fn token_effect(t: Seq<char>, rem: u32) -> Option<Effect> {
    match keyword_rule(t) {
        Some(e) => Some(e),
        None => if t == "border"@ || has_prefix(t, "border-"@) {
            border_rule(t)
        } else {
            match first_index_of(t, '-') {
                None => None,
                Some(k) => {
                    let p = t.subrange(0, k);
                    let rest = t.subrange(k + 1, t.len() as int);
                    if p == "w"@ {
                        match axis_rule(rest, rem, false) {
                            Some(v) => Some(Effect::Width(v)),
                            None => None,
                        }
                    } else if p == "h"@ {
                        match axis_rule(rest, rem, true) {
                            Some(v) => Some(Effect::Height(v)),
                            None => None,
                        }
                    } else if p == "bg"@ {
                        match color_value(rest) {
                            Some(c) => Some(Effect::Background(c)),
                            None => None,
                        }
                    } else if p == "text"@ {
                        match text_size_rule(rest) {
                            Some(m) => Some(Effect::FontSize(Num { num: (m * rem) as i64, den: 1000 })),
                            None => match color_value(rest) {
                                Some(c) => Some(Effect::TextColor(c)),
                                None => None,
                            },
                        }
                    } else {
                        match (spacing_rule(p), scale_halves(rest)) {
                            (Some((true, side)), Some(h)) => Some(Effect::Margin(side, scaled_px(h, rem))),
                            (Some((false, side)), Some(h)) => Some(Effect::Padding(side, scaled_px(h, rem))),
                            _ => None,
                        }
                    }
                },
            }
        },
    }
}

/// Resolves one class token against the rule table; `None` for a token the
/// vocabulary does not know.
pub fn resolve(t: &Vec<char>, rem: u32) -> (r: Option<Effect>)
    ensures
        r == token_effect(t@, rem),
{
    if let Some(e) = keyword_effect(t) {
        return Some(e);
    }
    if eq_lit(t, "border") || starts_with_lit(t, "border-") {
        return border_effect(t);
    }
    let n = t.len();
    match find_char(t, '-') {
        None => None,
        Some(k) => {
            let p = slice(t, 0, k);
            let rest = slice(t, k + 1, n);
            if eq_lit(&p, "w") {
                match axis_value(&rest, rem, false) {
                    Some(v) => Some(Effect::Width(v)),
                    None => None,
                }
            } else if eq_lit(&p, "h") {
                match axis_value(&rest, rem, true) {
                    Some(v) => Some(Effect::Height(v)),
                    None => None,
                }
            } else if eq_lit(&p, "bg") {
                match parse_color(&rest) {
                    Some(c) => Some(Effect::Background(c)),
                    None => None,
                }
            } else if eq_lit(&p, "text") {
                match text_size(&rest) {
                    Some(m) => Some(Effect::FontSize(font_value(m, rem))),
                    None => match parse_color(&rest) {
                        Some(c) => Some(Effect::TextColor(c)),
                        None => None,
                    },
                }
            } else {
                match (spacing_target(&p), parse_scale(&rest)) {
                    (Some((true, side)), Some(h)) => Some(
                        Effect::Margin(side, scale_value(h, rem)),
                    ),
                    (Some((false, side)), Some(h)) => Some(
                        Effect::Padding(side, scale_value(h, rem)),
                    ),
                    _ => None,
                }
            }
        },
    }
}

/// The tokens of a class string: the pieces between single spaces, empty
/// pieces included, left to right.
pub open spec fn class_tokens(s: Seq<char>) -> Seq<Seq<char>>
    decreases s.len(),
{
    if s.len() == 0 {
        seq![Seq::<char>::empty()]
    } else {
        let prev = class_tokens(s.drop_last());
        if s.last() == ' ' {
            prev.push(Seq::<char>::empty())
        } else {
            prev.update(prev.len() - 1, prev.last().push(s.last()))
        }
    }
}

/// `st` after one token; a token the vocabulary does not know changes nothing.
pub open spec fn apply_token(st: FauxStyle, t: Seq<char>, rem: u32) -> FauxStyle {
    match token_effect(t, rem) {
        Some(e) => apply_effect(st, e),
        None => st,
    }
}

/// `st` after each of `ts`, in order.
pub open spec fn apply_tokens(st: FauxStyle, ts: Seq<Seq<char>>, rem: u32) -> FauxStyle
    decreases ts.len(),
{
    if ts.len() == 0 {
        st
    } else {
        apply_token(apply_tokens(st, ts.drop_last(), rem), ts.last(), rem)
    }
}

/// The style a class string resolves to under a root unit of `rem` pixels.
pub open spec fn class_style(names: Seq<char>, rem: u32) -> FauxStyle {
    apply_tokens(initial_faux_style(), class_tokens(names), rem)
}

proof fn lemma_class_tokens_len(s: Seq<char>)
    ensures
        class_tokens(s).len() >= 1,
    decreases s.len(),
{
    if s.len() > 0 {
        lemma_class_tokens_len(s.drop_last());
    }
}

/// Folds every token of `names` into a style, left to right.
pub fn compute_style(names: &str, rem: u32) -> (r: FauxStyle)
    ensures
        r == class_style(names@, rem),
{
    let s = chars_of(names);
    let n = s.len();
    let mut st = FauxStyle::initial();
    let mut start: usize = 0;
    let mut i: usize = 0;
    let ghost done: Seq<Seq<char>> = Seq::empty();
    assert(s@.subrange(0, 0) == Seq::<char>::empty());
    while i < n
        invariant
            n == s@.len(),
            start <= i <= n,
            class_tokens(s@.subrange(0, i as int)) == done.push(s@.subrange(start as int, i as int)),
            st == apply_tokens(initial_faux_style(), done, rem),
        decreases n - i,
    {
        let ghost pre = s@.subrange(0, i + 1);
        assert(pre.drop_last() == s@.subrange(0, i as int));
        assert(pre.last() == s@[i as int]);
        if s[i] == ' ' {
            let t = slice(&s, start, i);
            if let Some(e) = resolve(&t, rem) {
                st.apply(e);
            }
            proof {
                let cur = s@.subrange(start as int, i as int);
                assert(done.push(cur).drop_last() == done);
                done = done.push(cur);
                assert(s@.subrange(i + 1, i + 1) == Seq::<char>::empty());
            }
            start = i + 1;
        } else {
            proof {
                assert(s@.subrange(start as int, i + 1) == s@.subrange(start as int, i as int).push(
                    s@[i as int],
                ));
            }
        }
        i = i + 1;
    }
    let t = slice(&s, start, n);
    if let Some(e) = resolve(&t, rem) {
        st.apply(e);
    }
    proof {
        let cur = s@.subrange(start as int, n as int);
        assert(done.push(cur).drop_last() == done);
        assert(s@.subrange(0, n as int) == s@);
    }
    st
}

/// The tokens of `ts` that the vocabulary does not know, in order.
pub open spec fn unknown_of(ts: Seq<Seq<char>>, rem: u32) -> Seq<Seq<char>>
    decreases ts.len(),
{
    if ts.len() == 0 {
        Seq::empty()
    } else {
        let pre = unknown_of(ts.drop_last(), rem);
        if token_effect(ts.last(), rem) is None {
            pre.push(ts.last())
        } else {
            pre
        }
    }
}

/// The text of each string.
pub open spec fn strings_view(v: Seq<String>) -> Seq<Seq<char>> {
    Seq::new(v.len(), |i: int| v[i]@)
}

fn note_unknown(t: &Vec<char>, rem: u32, out: &mut Vec<String>)
    ensures
        strings_view(final(out)@) == if token_effect(t@, rem) is None {
            strings_view(old(out)@).push(t@)
        } else {
            strings_view(old(out)@)
        },
{
    if resolve(t, rem).is_none() {
        let ghost before = out@;
        out.push(crate::text::string_of(t));
        assert(strings_view(out@) == strings_view(before).push(t@));
    }
}

/// The tokens of `names` that no rule knows, left to right: the ones a
/// style fold skips, for a diagnostic.
pub fn unknown_tokens(names: &str, rem: u32) -> (r: Vec<String>)
    ensures
        strings_view(r@) == unknown_of(class_tokens(names@), rem),
{
    let s = chars_of(names);
    let n = s.len();
    let mut out: Vec<String> = Vec::new();
    let mut start: usize = 0;
    let mut i: usize = 0;
    let ghost done: Seq<Seq<char>> = Seq::empty();
    assert(s@.subrange(0, 0) == Seq::<char>::empty());
    assert(strings_view(out@) == Seq::<Seq<char>>::empty());
    while i < n
        invariant
            n == s@.len(),
            start <= i <= n,
            class_tokens(s@.subrange(0, i as int)) == done.push(s@.subrange(start as int, i as int)),
            strings_view(out@) == unknown_of(done, rem),
        decreases n - i,
    {
        let ghost pre = s@.subrange(0, i + 1);
        assert(pre.drop_last() == s@.subrange(0, i as int));
        assert(pre.last() == s@[i as int]);
        if s[i] == ' ' {
            let t = slice(&s, start, i);
            note_unknown(&t, rem, &mut out);
            proof {
                assert(done.push(t@).drop_last() == done);
                done = done.push(t@);
                assert(s@.subrange(i + 1, i + 1) == Seq::<char>::empty());
            }
            start = i + 1;
        } else {
            assert(s@.subrange(start as int, i + 1) == s@.subrange(start as int, i as int).push(
                s@[i as int],
            ));
        }
        i = i + 1;
    }
    let t = slice(&s, start, n);
    note_unknown(&t, rem, &mut out);
    proof {
        assert(done.push(t@).drop_last() == done);
        assert(s@.subrange(0, n as int) == s@);
    }
    out
}

/// A rule table: resolves a class string to a style.
pub trait Stylesheet {
    /// The style `names` resolves to.
    spec fn spec_styles(&self, names: Seq<char>) -> FauxStyle;

    fn get_styles(&self, names: &str) -> (r: FauxStyle)
        ensures
            r == self.spec_styles(names@),
    ;
}

/// The default rule table, scaled by a root unit of `rem` pixels.
#[derive(Clone, Copy, Debug, PartialEq, Eq, Structural)]
pub struct DefaultStyleSheet {
    pub rem: u32,
}

impl Stylesheet for DefaultStyleSheet {
    open spec fn spec_styles(&self, names: Seq<char>) -> FauxStyle {
        class_style(names, self.rem)
    }

    fn get_styles(&self, names: &str) -> (r: FauxStyle) {
        compute_style(names, self.rem)
    }
}

/// Whether effect `e` writes the left or the right padding.
pub open spec fn writes_padding_x(e: Option<Effect>) -> bool {
    match e {
        Some(Effect::Padding(side, _)) => side == Side::All || side == Side::X || side == Side::Left || side
            == Side::Right,
        _ => false,
    }
}

/// A token whose effect sets the horizontal padding to `v` decides the left
/// and right padding of every class string in which no later token writes
/// them, whatever comes before it.
pub proof fn lemma_padding_x_kept(
    st: FauxStyle,
    pre: Seq<Seq<char>>,
    t: Seq<char>,
    post: Seq<Seq<char>>,
    v: Val,
    rem: u32,
)
    requires
        token_effect(t, rem) == Some(Effect::Padding(Side::X, v)),
        forall|k: int| 0 <= k < post.len() ==> !writes_padding_x(token_effect(#[trigger] post[k], rem)),
    ensures
        apply_tokens(st, pre.push(t) + post, rem).style.padding.left == v,
        apply_tokens(st, pre.push(t) + post, rem).style.padding.right == v,
    decreases post.len(),
{
    if post.len() == 0 {
        assert(pre.push(t) + post == pre.push(t));
        assert(pre.push(t).drop_last() == pre);
    } else {
        let ts = pre.push(t) + post;
        let shorter = post.drop_last();
        assert(ts.drop_last() == pre.push(t) + shorter);
        assert(ts.last() == post.last());
        lemma_padding_x_kept(st, pre, t, shorter, v, rem);
        assert(!writes_padding_x(token_effect(post[post.len() - 1], rem)));
    }
}

/// `px-4` sets the left and right padding to four quarter-units of `rem`.
pub proof fn lemma_px_4_effect(rem: u32)
    ensures
        token_effect("px-4"@, rem) == Some(Effect::Padding(Side::X, scaled_px(8, rem))),
{
    reveal_strlit("block");
    reveal_strlit("grid");
    reveal_strlit("flex");
    reveal_strlit("flex-row");
    reveal_strlit("flex-col");
    reveal_strlit("flex-row-reverse");
    reveal_strlit("flex-col-reverse");
    reveal_strlit("items-start");
    reveal_strlit("items-end");
    reveal_strlit("items-center");
    reveal_strlit("items-between");
    reveal_strlit("items-around");
    reveal_strlit("items-evenly");
    reveal_strlit("items-stretch");
    reveal_strlit("self-start");
    reveal_strlit("self-end");
    reveal_strlit("self-center");
    reveal_strlit("self-stretch");
    reveal_strlit("self-auto");
    reveal_strlit("self-baseline");
    reveal_strlit("justify-normal");
    reveal_strlit("justify-start");
    reveal_strlit("justify-end");
    reveal_strlit("justify-center");
    reveal_strlit("justify-between");
    reveal_strlit("justify-around");
    reveal_strlit("justify-evenly");
    reveal_strlit("justify-stretch");
    reveal_strlit("aspect-auto");
    reveal_strlit("aspect-square");
    reveal_strlit("aspect-video");
    reveal_strlit("grow");
    reveal_strlit("grow-0");
    reveal_strlit("shrink");
    reveal_strlit("shrink-0");
    reveal_strlit("border");
    reveal_strlit("border-");
    reveal_strlit("w");
    reveal_strlit("h");
    reveal_strlit("bg");
    reveal_strlit("text");
    reveal_strlit("p");
    reveal_strlit("pt");
    reveal_strlit("pr");
    reveal_strlit("pb");
    reveal_strlit("pl");
    reveal_strlit("px");
    reveal_strlit("py");
    reveal_strlit("m");
    reveal_strlit("mt");
    reveal_strlit("mr");
    reveal_strlit("mb");
    reveal_strlit("ml");
    reveal_strlit("mx");
    reveal_strlit("my");
    reveal_strlit("px-4");
    let t = "px-4"@;
    assert(t != "border"@);
    assert(!has_prefix(t, "border-"@)) by {
        assert(t.len() < "border-"@.len());
    }
    assert(first_index_of(t, '-') == Some(2int)) by {
        reveal_with_fuel(first_index_of, 3);
    }
    let p = t.subrange(0, 2);
    let rest = t.subrange(3, 4);
    assert(p =~= seq!['p', 'x']);
    assert(rest =~= seq!['4']);
    assert(first_index_of(rest, '.') is None) by {
        reveal_with_fuel(first_index_of, 2);
    }
    assert(digits_value(rest) == 4) by {
        reveal_with_fuel(digits_value, 2);
        assert(rest.drop_last().len() == 0);
    }
    assert(scale_halves(rest) == Some(8nat));
    assert(keyword_rule(t) is None);
    assert(p != "w"@ && p != "h"@ && p != "bg"@ && p != "text"@);
    assert("px"@ =~= seq!['p', 'x']);
    assert(p != "pt"@ && p != "pr"@ && p != "pb"@ && p != "pl"@) by {
        assert("pt"@[1] != p[1] && "pr"@[1] != p[1] && "pb"@[1] != p[1] && "pl"@[1] != p[1]);
    }
    assert(spacing_rule(p) == Some((false, Side::X)));
}

/// `px-4` sets the left and right padding to `rem / 4 * 4` pixels wherever it
/// stands in a class string, unless a later token writes them again.
pub proof fn lemma_px_4_any_position(st: FauxStyle, pre: Seq<Seq<char>>, post: Seq<Seq<char>>, rem: u32)
    requires
        forall|k: int| 0 <= k < post.len() ==> !writes_padding_x(token_effect(#[trigger] post[k], rem)),
    ensures
        apply_tokens(st, pre.push("px-4"@) + post, rem).style.padding.left == scaled_px(8, rem),
        apply_tokens(st, pre.push("px-4"@) + post, rem).style.padding.right == scaled_px(8, rem),
        rem == 16 ==> scaled_px(8, rem) == Val::Px(Num { num: 128, den: 8 }),
{
    lemma_px_4_effect(rem);
    lemma_padding_x_kept(st, pre, "px-4"@, post, scaled_px(8, rem), rem);
}

/// The last token of a sequence wins: whatever the earlier tokens did, the
/// fields it writes hold its values.
pub proof fn lemma_last_token_wins(st: FauxStyle, ts: Seq<Seq<char>>, t: Seq<char>, e: Effect, rem: u32)
    requires
        token_effect(t, rem) == Some(e),
    ensures
        apply_tokens(st, ts.push(t), rem) == apply_effect(apply_tokens(st, ts, rem), e),
{
    assert(ts.push(t).drop_last() == ts);
}

/// A token the vocabulary does not know leaves the accumulator unchanged.
pub proof fn lemma_unknown_token_is_ignored(st: FauxStyle, t: Seq<char>, rem: u32)
    requires
        token_effect(t, rem) is None,
    ensures
        apply_token(st, t, rem) == st,
{
}

/// `foo-bar` is not in the vocabulary, so it changes nothing.
pub proof fn lemma_foo_bar_is_ignored(st: FauxStyle, rem: u32)
    ensures
        token_effect("foo-bar"@, rem) is None,
        apply_token(st, "foo-bar"@, rem) == st,
{
    reveal_strlit("block");
    reveal_strlit("grid");
    reveal_strlit("flex");
    reveal_strlit("flex-row");
    reveal_strlit("flex-col");
    reveal_strlit("flex-row-reverse");
    reveal_strlit("flex-col-reverse");
    reveal_strlit("items-start");
    reveal_strlit("items-end");
    reveal_strlit("items-center");
    reveal_strlit("items-between");
    reveal_strlit("items-around");
    reveal_strlit("items-evenly");
    reveal_strlit("items-stretch");
    reveal_strlit("self-start");
    reveal_strlit("self-end");
    reveal_strlit("self-center");
    reveal_strlit("self-stretch");
    reveal_strlit("self-auto");
    reveal_strlit("self-baseline");
    reveal_strlit("justify-normal");
    reveal_strlit("justify-start");
    reveal_strlit("justify-end");
    reveal_strlit("justify-center");
    reveal_strlit("justify-between");
    reveal_strlit("justify-around");
    reveal_strlit("justify-evenly");
    reveal_strlit("justify-stretch");
    reveal_strlit("aspect-auto");
    reveal_strlit("aspect-square");
    reveal_strlit("aspect-video");
    reveal_strlit("grow");
    reveal_strlit("grow-0");
    reveal_strlit("shrink");
    reveal_strlit("shrink-0");
    reveal_strlit("border");
    reveal_strlit("border-");
    reveal_strlit("w");
    reveal_strlit("h");
    reveal_strlit("bg");
    reveal_strlit("text");
    reveal_strlit("p");
    reveal_strlit("pt");
    reveal_strlit("pr");
    reveal_strlit("pb");
    reveal_strlit("pl");
    reveal_strlit("px");
    reveal_strlit("py");
    reveal_strlit("m");
    reveal_strlit("mt");
    reveal_strlit("mr");
    reveal_strlit("mb");
    reveal_strlit("ml");
    reveal_strlit("mx");
    reveal_strlit("my");
    reveal_strlit("foo-bar");
    let t = "foo-bar"@;
    assert(t != "border"@);
    assert(!has_prefix(t, "border-"@)) by {
        assert(t.subrange(0, 7)[0] != "border-"@[0]);
    }
    assert(first_index_of(t, '-') == Some(3int)) by {
        reveal_with_fuel(first_index_of, 4);
    }
    let p = t.subrange(0, 3);
    assert(p =~= seq!['f', 'o', 'o']);
    assert(p != "w"@ && p != "h"@ && p != "bg"@ && p != "text"@);
    assert(spacing_rule(p) is None);
}

/// Whether token `t` writes field `f`.
pub open spec fn token_writes(t: Seq<char>, rem: u32, f: Field) -> bool {
    match token_effect(t, rem) {
        Some(e) => writes(e, f),
        None => false,
    }
}

/// Later tokens win field by field: if token `t` writes field `f` and no
/// token after it does, then `f` holds `t`'s value, whatever came before
/// `t` and whatever the later tokens write elsewhere.
pub proof fn lemma_later_token_wins(
    st: FauxStyle,
    other: FauxStyle,
    pre: Seq<Seq<char>>,
    t: Seq<char>,
    post: Seq<Seq<char>>,
    f: Field,
    rem: u32,
)
    requires
        token_writes(t, rem, f),
        forall|k: int| 0 <= k < post.len() ==> !token_writes(#[trigger] post[k], rem, f),
    ensures
        field(apply_tokens(st, pre.push(t) + post, rem), f) == field(apply_token(other, t, rem), f),
    decreases post.len(),
{
    let e = token_effect(t, rem)->0;
    if post.len() == 0 {
        assert(pre.push(t) + post == pre.push(t));
        assert(pre.push(t).drop_last() == pre);
        lemma_effect_fields(apply_tokens(st, pre, rem), other, e, f);
    } else {
        let ts = pre.push(t) + post;
        let shorter = post.drop_last();
        assert(ts.drop_last() == pre.push(t) + shorter);
        assert(ts.last() == post.last());
        lemma_later_token_wins(st, other, pre, t, shorter, f, rem);
        let last = post[post.len() - 1];
        assert(!token_writes(last, rem, f));
        match token_effect(last, rem) {
            Some(e2) => lemma_effect_fields(apply_tokens(st, pre.push(t) + shorter, rem), other, e2, f),
            None => {},
        }
    }
}

} // verus!
