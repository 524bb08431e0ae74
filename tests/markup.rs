use faux_dom::node::FauxNode;
use faux_dom::parser::{rsx, ParseError};

fn text(n: &FauxNode) -> &str {
    match n {
        FauxNode::Text(s) => s.as_str(),
        other => panic!("expected text, got {:?}", other),
    }
}

fn top(n: FauxNode) -> Vec<FauxNode> {
    match n {
        FauxNode::Fragment(ch) => ch,
        other => panic!("expected the document fragment, got {:?}", other),
    }
}

#[test]
fn parses_nested_elements_and_text() {
    let nodes = top(rsx(r#"<div class="flex p-2">"hello" <div>"inner"</div></div>"#).unwrap());
    assert_eq!(nodes.len(), 1);
    match &nodes[0] {
        FauxNode::Div(children, props) => {
            assert_eq!(props.class.as_deref(), Some("flex p-2"));
            assert_eq!(children.len(), 2);
            assert_eq!(text(&children[0]), "hello");
            match &children[1] {
                FauxNode::Div(grand, props) => {
                    assert_eq!(props.class, None);
                    assert_eq!(grand.len(), 1);
                    assert_eq!(text(&grand[0]), "inner");
                }
                other => panic!("expected a div, got {:?}", other),
            }
        }
        other => panic!("expected a div, got {:?}", other),
    }
}

#[test]
fn parses_fragments_and_expressions() {
    let nodes = top(rsx(r#"<>"a"<div>"b"</div></> { if x { "}" } else { y } }"#).unwrap());
    assert_eq!(nodes.len(), 2);
    match &nodes[0] {
        FauxNode::Fragment(ch) => {
            assert_eq!(ch.len(), 2);
            assert_eq!(text(&ch[0]), "a");
        }
        other => panic!("expected a fragment, got {:?}", other),
    }
    match &nodes[1] {
        FauxNode::Expr(src) => assert_eq!(src, r#"{ if x { "}" } else { y } }"#),
        other => panic!("expected an expression, got {:?}", other),
    }
}

#[test]
fn string_literal_escapes_are_decoded() {
    let nodes = top(rsx(r#""a\"b\n""#).unwrap());
    assert_eq!(text(&nodes[0]), "a\"b\n");
}

#[test]
fn empty_source_is_an_empty_fragment() {
    assert_eq!(top(rsx("").unwrap()).len(), 0);
    assert_eq!(top(rsx("  \n ").unwrap()).len(), 0);
}

#[test]
fn mismatched_closing_tag() {
    let err = rsx(r#"<div>"x"</span>"#).unwrap_err();
    assert_eq!(
        err,
        ParseError::MismatchedTag { open: "div".to_string(), close: "span".to_string(), position: 10 }
    );
}

#[test]
fn unsupported_tag() {
    let err = rsx(r#"<p>"x"</p>"#).unwrap_err();
    assert_eq!(err, ParseError::UnsupportedTag { name: "p".to_string(), position: 1 });
}

#[test]
fn unsupported_attribute() {
    let err = rsx(r#"<div id="a">"x"</div>"#).unwrap_err();
    assert_eq!(err, ParseError::UnsupportedAttribute { name: "id".to_string(), position: 5 });
}

#[test]
fn later_class_attribute_wins() {
    let nodes = top(rsx(r#"<div class="a" class="b"></div>"#).unwrap());
    match &nodes[0] {
        FauxNode::Div(_, props) => assert_eq!(props.class.as_deref(), Some("b")),
        other => panic!("expected a div, got {:?}", other),
    }
}

#[test]
fn unexpected_tokens() {
    assert_eq!(rsx("<div>").unwrap_err(), ParseError::UnexpectedToken { position: 5 });
    assert_eq!(rsx(r#""x" </div>"#).unwrap_err(), ParseError::UnexpectedToken { position: 4 });
    assert_eq!(rsx("= ").unwrap_err(), ParseError::UnexpectedToken { position: 0 });
    assert_eq!(rsx("<div>#</div>").unwrap_err(), ParseError::UnexpectedToken { position: 5 });
    assert_eq!(rsx(r#""open"#).unwrap_err(), ParseError::UnexpectedToken { position: 0 });
    assert_eq!(rsx(r#"<></div>"#).unwrap_err(), ParseError::UnexpectedToken { position: 4 });
}

#[test]
fn expression_slot_must_be_a_block() {
    assert_eq!(rsx(r#"<div>{ ) }</div>"#).unwrap_err(), ParseError::UnexpectedToken { position: 5 });
    assert!(rsx(r#"<div>{ a + b }</div>"#).is_ok());
}

#[test]
fn nesting_is_bounded() {
    let deep = |n: usize| format!("{}{}", "<div>".repeat(n), "</div>".repeat(n));
    assert!(rsx(&deep(128)).is_ok());
    assert_eq!(rsx(&deep(129)).unwrap_err(), ParseError::NestingTooDeep { position: 640 });
    let fragments = format!("{}{}", "<>".repeat(129), "</>".repeat(129));
    assert_eq!(rsx(&fragments).unwrap_err(), ParseError::NestingTooDeep { position: 256 });
}

#[test]
fn raw_string_literals_are_text() {
    let nodes = top(rsx(r###"r#"say "hi""# r"plain""###).unwrap());
    assert_eq!(nodes.len(), 2);
    assert_eq!(text(&nodes[0]), "say \"hi\"");
    assert_eq!(text(&nodes[1]), "plain");
}

#[test]
fn expression_slots_skip_literals_and_comments() {
    let src = r###"<div>{ let c = '}'; let e = '\''; let s = r#"}"#; /* } /* } */ */ // }
    f::<'a>(c, e, s) }</div>"###;
    let nodes = top(rsx(src).unwrap());
    match &nodes[0] {
        FauxNode::Div(children, _) => match &children[0] {
            FauxNode::Expr(block) => {
                assert!(block.starts_with("{ let c"));
                assert!(block.ends_with("f::<'a>(c, e, s) }"));
            }
            other => panic!("expected an expression, got {:?}", other),
        },
        other => panic!("expected a div, got {:?}", other),
    }
}
