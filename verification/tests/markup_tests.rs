use replace_t::ast::{Expr, JsxChild, JsxElement};
use replace_t::markup::splice_markup;

fn no_map() -> Vec<(String, JsxElement)> {
    vec![]
}

#[test]
fn plain_text_collapses_to_literal() {
    let r = splice_markup("just words", &no_map()).unwrap();
    match r {
        Expr::Str(l) => assert_eq!(l.value, "just words"),
        _ => panic!("expected a literal"),
    }
}

#[test]
fn empty_text_collapses_to_empty_literal() {
    let r = splice_markup("", &no_map()).unwrap();
    match r {
        Expr::Str(l) => assert_eq!(l.value, ""),
        _ => panic!("expected a literal"),
    }
}

#[test]
fn spaced_self_closing_tag_parses() {
    let r = splice_markup("a<br />b", &no_map()).unwrap();
    match r {
        Expr::JsxFrag(children) => {
            assert_eq!(children.len(), 3);
            assert!(matches!(&children[0], JsxChild::Text(t) if t == "a"));
            match &children[1] {
                JsxChild::Element(el) => {
                    assert_eq!(el.name, "br");
                    assert!(el.self_closing);
                }
                _ => panic!("expected an element"),
            }
            assert!(matches!(&children[2], JsxChild::Text(t) if t == "b"));
        }
        _ => panic!("expected a fragment"),
    }
}

#[test]
fn nested_elements_keep_their_children() {
    let r = splice_markup("<a><b/>x</a>", &no_map()).unwrap();
    match r {
        Expr::JsxFrag(children) => {
            assert_eq!(children.len(), 1);
            match &children[0] {
                JsxChild::Element(el) => {
                    assert_eq!(el.name, "a");
                    assert!(!el.self_closing);
                    assert_eq!(el.children.len(), 2);
                    assert!(matches!(&el.children[0], JsxChild::Element(b) if b.name == "b"));
                    assert!(matches!(&el.children[1], JsxChild::Text(t) if t == "x"));
                }
                _ => panic!("expected an element"),
            }
        }
        _ => panic!("expected a fragment"),
    }
}

#[test]
fn unterminated_tag_is_malformed() {
    assert!(splice_markup("oops<a", &no_map()).is_err());
    assert!(splice_markup("<a>unclosed", &no_map()).is_err());
    assert!(splice_markup("<a>wrong</b>", &no_map()).is_err());
}

#[test]
fn unmatched_component_keeps_parsed_tag() {
    let r = splice_markup("<strong>hi</strong>", &no_map()).unwrap();
    match r {
        Expr::JsxFrag(children) => match &children[0] {
            JsxChild::Element(el) => {
                assert_eq!(el.name, "strong");
                assert!(!el.self_closing);
                assert!(matches!(&el.children[0], JsxChild::Text(t) if t == "hi"));
            }
            _ => panic!("expected an element"),
        },
        _ => panic!("expected a fragment"),
    }
}
