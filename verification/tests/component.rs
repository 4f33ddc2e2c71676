use tezzera::component::app::TezzeraApp;
use tezzera::component::element::{ComponentElement, ComponentId, Element, Key, NativeElement};
use tezzera::component::error::TezzeraError;

#[test]
fn tezzera_error_display() {
    let e = TezzeraError::not_found("User");
    assert!(
        e.message().contains("User"),
        "Display must include the resource name"
    );
}

#[test]
fn error_messages_of_every_kind() {
    assert_eq!(TezzeraError::not_found("Font").message(), "resource not found: Font");
    assert_eq!(TezzeraError::internal("boom").message(), "internal error: boom");
    assert_eq!(TezzeraError::InvalidState("x".to_string()).message(), "invalid state: x");
    assert_eq!(TezzeraError::LayoutError("y".to_string()).message(), "layout error: y");
}

#[test]
fn element_text_and_empty() {
    match Element::text("hi") {
        Element::Text(t) => assert_eq!(t.content, "hi"),
        _ => panic!("expected a text element"),
    }
    assert!(matches!(Element::empty(), Element::Empty));
}

#[test]
fn element_clone_copies_tree() {
    let tree = Element::Component(ComponentElement {
        id: ComponentId(3),
        key: Some(Key(9)),
        children: vec![
            Element::text("a"),
            Element::Native(NativeElement { tag: "button", children: vec![Element::text("b")] }),
            Element::empty(),
        ],
    });
    let copy = tree.clone();
    match copy {
        Element::Component(c) => {
            assert_eq!(c.id, ComponentId(3));
            assert_eq!(c.key, Some(Key(9)));
            assert_eq!(c.children.len(), 3);
            match &c.children[1] {
                Element::Native(n) => {
                    assert_eq!(n.tag, "button");
                    assert!(matches!(&n.children[0], Element::Text(t) if t.content == "b"));
                }
                _ => panic!("expected a native element"),
            }
        }
        _ => panic!("expected a component element"),
    }
}

#[test]
fn app_builder_sets_root() {
    let _app = TezzeraApp::new().child(Element::text("root"));
    let _default = TezzeraApp::default();
}
