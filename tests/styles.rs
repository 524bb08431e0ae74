use faux_dom::rules::{compute_style, resolve, unknown_tokens, DefaultStyleSheet, Stylesheet};
use faux_dom::style::{Display, Effect, FauxStyle, FlexDirection, Num, Rgba, Side, Val};
use faux_dom::text::chars_of;

fn value(n: Num) -> f64 {
    n.num as f64 / n.den as f64
}

fn px(v: Val) -> f64 {
    match v {
        Val::Px(n) => value(n),
        other => panic!("expected pixels, got {:?}", other),
    }
}

fn percent(v: Val) -> f64 {
    match v {
        Val::Percent(n) => value(n),
        other => panic!("expected a percentage, got {:?}", other),
    }
}

#[test]
fn padding_x_scales_with_rem() {
    let st = compute_style("px-4", 16);
    assert_eq!(px(st.style.padding.left), 16.0);
    assert_eq!(px(st.style.padding.right), 16.0);
    assert_eq!(px(st.style.padding.top), 0.0);
    assert_eq!(px(st.style.padding.bottom), 0.0);
}

#[test]
fn padding_x_regardless_of_position() {
    for class in ["px-4 flex bg-black", "flex px-4 text-xl", "w-64 h-8 px-4", "px-4"] {
        let st = compute_style(class, 16);
        assert_eq!(px(st.style.padding.left), 16.0, "{}", class);
        assert_eq!(px(st.style.padding.right), 16.0, "{}", class);
    }
}

#[test]
fn last_padding_token_wins() {
    let st = compute_style("p-2 p-8", 16);
    for side in [st.style.padding.left, st.style.padding.right, st.style.padding.top, st.style.padding.bottom] {
        assert_eq!(px(side), 32.0);
    }
}

#[test]
fn later_token_overwrites_only_its_fields() {
    let st = compute_style("p-4 px-8", 16);
    assert_eq!(px(st.style.padding.left), 32.0);
    assert_eq!(px(st.style.padding.right), 32.0);
    assert_eq!(px(st.style.padding.top), 16.0);
    assert_eq!(px(st.style.padding.bottom), 16.0);
}

#[test]
fn background_with_alpha() {
    let st = compute_style("bg-red-500/128", 16);
    assert_eq!(st.background_color, Some(Rgba { r: 239, g: 68, b: 68, a: 128 }));
}

#[test]
fn background_alpha_defaults_to_opaque() {
    let st = compute_style("bg-red-500", 16);
    assert_eq!(st.background_color, Some(Rgba { r: 239, g: 68, b: 68, a: 255 }));
}

#[test]
fn background_black_and_white() {
    assert_eq!(compute_style("bg-black", 16).background_color, Some(Rgba { r: 0, g: 0, b: 0, a: 255 }));
    assert_eq!(compute_style("bg-white/0", 16).background_color, Some(Rgba { r: 255, g: 255, b: 255, a: 0 }));
}

#[test]
fn bad_alpha_or_colour_is_ignored() {
    assert_eq!(compute_style("bg-red-500/256", 16).background_color, None);
    assert_eq!(compute_style("bg-red-550", 16).background_color, None);
    assert_eq!(compute_style("bg-mauve-500", 16).background_color, None);
}

#[test]
fn bracketed_percent_width() {
    let st = compute_style("w-[37%]", 16);
    assert_eq!(st.style.width, Val::Percent(Num { num: 37, den: 1 }));
}

#[test]
fn bracketed_pixel_width() {
    let st = compute_style("w-[10px]", 16);
    assert_eq!(st.style.width, Val::Px(Num { num: 10, den: 1 }));
}

#[test]
fn bracketed_decimal_and_ratio() {
    assert_eq!(percent(compute_style("h-[12.5%]", 16).style.height), 12.5);
    assert_eq!(percent(compute_style("w-[1/4]", 16).style.width), 25.0);
    assert_eq!(px(compute_style("w-[-3px]", 16).style.width), -3.0);
    assert_eq!(compute_style("w-[abc]", 16).style.width, Val::Auto);
    assert_eq!(compute_style("w-[1/0]", 16).style.width, Val::Auto);
}

#[test]
fn unknown_token_changes_nothing() {
    assert_eq!(compute_style("foo-bar", 16), FauxStyle::initial());
    let before = compute_style("flex p-2 bg-blue-500", 16);
    let after = compute_style("flex p-2 foo-bar bg-blue-500", 16);
    assert_eq!(before, after);
    assert_eq!(resolve(&chars_of("foo-bar"), 16), None);
}

#[test]
fn empty_class_string_is_initial_style() {
    assert_eq!(compute_style("", 16), FauxStyle::initial());
    assert_eq!(compute_style("  ", 16), FauxStyle::initial());
}

#[test]
fn keywords() {
    let st = compute_style("grid flex-col-reverse", 16);
    assert_eq!(st.style.display, Display::Grid);
    assert_eq!(st.style.flex_direction, FlexDirection::ColumnReverse);
    assert_eq!(compute_style("block", 16).style.display, Display::Hidden);
    assert_eq!(compute_style("aspect-video", 16).style.aspect_ratio, Some(Num { num: 16, den: 9 }));
    assert_eq!(compute_style("shrink-0", 16).style.flex_shrink, Num { num: 0, den: 1 });
}

#[test]
fn width_scale_fraction_and_keywords() {
    assert_eq!(px(compute_style("w-64", 16).style.width), 256.0);
    assert_eq!(px(compute_style("w-0.5", 16).style.width), 2.0);
    assert_eq!(px(compute_style("w-px", 16).style.width), 4.0);
    assert_eq!(compute_style("w-13", 16).style.width, Val::Auto);
    assert_eq!(percent(compute_style("w-1/2", 16).style.width), 50.0);
    assert_eq!(compute_style("w-1/7", 16).style.width, Val::Auto);
    assert_eq!(compute_style("w-full", 16).style.width, Val::Percent(Num { num: 100, den: 1 }));
    assert_eq!(compute_style("w-screen", 16).style.width, Val::Vw(Num { num: 100, den: 1 }));
    assert_eq!(compute_style("h-screen", 16).style.height, Val::Vh(Num { num: 100, den: 1 }));
}

#[test]
fn borders() {
    let st = compute_style("border", 16);
    assert_eq!(px(st.style.border.left), 1.0);
    assert_eq!(px(st.style.border.bottom), 1.0);
    let st = compute_style("border-4 border-t-0", 16);
    assert_eq!(px(st.style.border.top), 0.0);
    assert_eq!(px(st.style.border.left), 4.0);
    assert_eq!(px(compute_style("border-r", 16).style.border.right), 1.0);
    assert_eq!(px(compute_style("border-r", 16).style.border.left), 0.0);
    assert_eq!(compute_style("border-3", 16).style.border, FauxStyle::initial().style.border);
}

#[test]
fn font_sizes_and_text_colour() {
    let st = compute_style("text-xl text-blue-500", 16);
    assert_eq!(value(st.font_size.unwrap()), 20.0);
    assert_eq!(st.color, Some(Rgba { r: 59, g: 130, b: 246, a: 255 }));
    assert_eq!(value(compute_style("text-sm", 16).font_size.unwrap()), 14.0);
    assert_eq!(value(compute_style("text-9xl", 10).font_size.unwrap()), 80.0);
}

#[test]
fn margins() {
    let st = compute_style("m-1 mt-96 mx-2.5", 16);
    assert_eq!(px(st.style.margin.top), 384.0);
    assert_eq!(px(st.style.margin.bottom), 4.0);
    assert_eq!(px(st.style.margin.left), 10.0);
    assert_eq!(px(st.style.margin.right), 10.0);
}

#[test]
fn resolve_single_tokens() {
    let e = resolve(&chars_of("py-3"), 16);
    assert_eq!(e, Some(Effect::Padding(Side::Y, Val::Px(Num { num: 6 * 16, den: 8 }))));
    assert_eq!(resolve(&chars_of("px-04"), 16), None);
    assert_eq!(resolve(&chars_of(""), 16), None);
}

#[test]
fn default_stylesheet_uses_its_rem() {
    let sheet = DefaultStyleSheet { rem: 20 };
    assert_eq!(sheet.get_styles("p-4"), compute_style("p-4", 20));
    assert_eq!(px(sheet.get_styles("p-4").style.padding.top), 20.0);
}

#[test]
fn alpha_and_ratio_accept_a_plus_sign() {
    assert_eq!(compute_style("bg-red-500/+5", 16).background_color, Some(Rgba { r: 239, g: 68, b: 68, a: 5 }));
    assert_eq!(compute_style("bg-red-500/+", 16).background_color, None);
    assert_eq!(compute_style("bg-red-500/-5", 16).background_color, None);
    assert_eq!(percent(compute_style("w-[+1/+2]", 16).style.width), 50.0);
    assert_eq!(compute_style("w-[-1/2]", 16).style.width, Val::Auto);
}

#[test]
fn decimal_forms_of_raw_sizes() {
    assert_eq!(percent(compute_style("w-[.5%]", 16).style.width), 0.5);
    assert_eq!(percent(compute_style("w-[5.%]", 16).style.width), 5.0);
    assert_eq!(px(compute_style("w-[1e2px]", 16).style.width), 100.0);
    assert_eq!(px(compute_style("w-[2.5E-1px]", 16).style.width), 0.25);
    assert_eq!(px(compute_style("w-[+5px]", 16).style.width), 5.0);
    assert_eq!(px(compute_style("h-[1234567890123px]", 16).style.height), 1234567890123.0);
    assert_eq!(percent(compute_style("h-[0.0000000001%]", 16).style.height), 0.0000000001);
    assert_eq!(compute_style("w-[.px]", 16).style.width, Val::Auto);
    assert_eq!(compute_style("w-[1e%]", 16).style.width, Val::Auto);
    assert_eq!(compute_style("w-[inf%]", 16).style.width, Val::Auto);
}

#[test]
fn unknown_tokens_are_listed() {
    assert_eq!(unknown_tokens("flex foo-bar p-2 bg-mauve-500", 16), vec!["foo-bar", "bg-mauve-500"]);
    assert_eq!(unknown_tokens("flex p-2", 16), Vec::<String>::new());
    assert_eq!(unknown_tokens("a  b", 16), vec!["a", "", "b"]);
}
