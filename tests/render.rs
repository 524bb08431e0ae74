use faux_dom::node::{FauxNode, Properties};
use faux_dom::parser::rsx;
use faux_dom::render::{is_resolved, render, Parent, Spawn};
use faux_dom::rules::{compute_style, DefaultStyleSheet};
use faux_dom::style::{FauxStyle, Num, Rgba};

fn sheet() -> DefaultStyleSheet {
    DefaultStyleSheet { rem: 16 }
}

fn value(n: Num) -> f64 {
    n.num as f64 / n.den as f64
}

#[test]
fn fragment_creates_no_node() {
    let tree = rsx(r#"<>"a"<div>"b"</div></>"#).unwrap();
    let plan = render(&tree, &sheet());
    assert_eq!(plan.len(), 3);
    let under_root: Vec<&Spawn> = plan
        .iter()
        .filter(|s| matches!(s, Spawn::Node { parent: Parent::Root, .. } | Spawn::Text { parent: Parent::Root, .. }))
        .collect();
    assert_eq!(under_root.len(), 2);
    assert_eq!(
        plan[0],
        Spawn::Text { parent: Parent::Root, text: "a".to_string(), font_size: None, color: None }
    );
    assert!(matches!(plan[1], Spawn::Node { parent: Parent::Root, .. }));
    assert_eq!(
        plan[2],
        Spawn::Text { parent: Parent::Spawned(1), text: "b".to_string(), font_size: None, color: None }
    );
}

#[test]
fn font_size_and_colour_cascade() {
    let tree = rsx(
        r#"<div class="text-xl text-blue-500">"outer"<div class="text-sm">"inner"</div></div>"#,
    )
    .unwrap();
    let plan = render(&tree, &sheet());
    assert_eq!(plan.len(), 4);
    let blue = Some(Rgba { r: 59, g: 130, b: 246, a: 255 });
    match &plan[1] {
        Spawn::Text { parent, text, font_size, color } => {
            assert_eq!(*parent, Parent::Spawned(0));
            assert_eq!(text, "outer");
            assert_eq!(value(font_size.unwrap()), 20.0);
            assert_eq!(*color, blue);
        }
        other => panic!("expected text, got {:?}", other),
    }
    match &plan[3] {
        Spawn::Text { parent, text, font_size, color } => {
            assert_eq!(*parent, Parent::Spawned(2));
            assert_eq!(text, "inner");
            assert_eq!(value(font_size.unwrap()), 14.0);
            assert_eq!(*color, blue);
        }
        other => panic!("expected text, got {:?}", other),
    }
}

#[test]
fn background_and_layout_do_not_cascade() {
    let tree = rsx(r#"<div class="bg-red-500 p-4"><div>"x"</div></div>"#).unwrap();
    let plan = render(&tree, &sheet());
    match &plan[0] {
        Spawn::Node { background_color, style, .. } => {
            assert_eq!(*background_color, Some(Rgba { r: 239, g: 68, b: 68, a: 255 }));
            assert_eq!(*style, compute_style("bg-red-500 p-4", 16).style);
        }
        other => panic!("expected a node, got {:?}", other),
    }
    match &plan[1] {
        Spawn::Node { parent, background_color, style } => {
            assert_eq!(*parent, Parent::Spawned(0));
            assert_eq!(*background_color, None);
            assert_eq!(*style, FauxStyle::initial().style);
        }
        other => panic!("expected a node, got {:?}", other),
    }
}

#[test]
fn children_render_in_document_order() {
    let tree = rsx(r#""1" "2" <div>"3" "4"</div> "5""#).unwrap();
    let texts: Vec<String> = render(&tree, &sheet())
        .into_iter()
        .filter_map(|s| match s {
            Spawn::Text { text, .. } => Some(text),
            _ => None,
        })
        .collect();
    assert_eq!(texts, vec!["1", "2", "3", "4", "5"]);
}

#[test]
fn unresolved_expression_is_detected() {
    let tree = rsx(r#"<div>{ child() }</div>"#).unwrap();
    assert!(!is_resolved(&tree));
    let built = FauxNode::Div(vec![FauxNode::Text("x".to_string())], Properties { class: None });
    assert!(is_resolved(&built));
    assert!(is_resolved(&rsx(r#"<>"a"</>"#).unwrap()));
}
