use gearrs::gs_element::{GsElement, GsHTML};
use gearrs::{create_header, create_html, wrap};

#[test]
fn header_holds_viewport_then_charset() {
    let head = create_header();
    assert_eq!(
        "<head><meta name = \"viewport\" content = \"width=device-width, initial-scale=1\"><meta charset = \"utf-8\"></head>",
        head.convert()
    );
}

#[test]
fn header_is_a_closed_head_with_two_void_children() {
    let head = create_header();
    assert_eq!("head", head.tag);
    assert!(head.is_closed);
    assert_eq!("", head.get_value());
    assert!(head.get_attr().is_empty());

    let children = head.get_children();
    assert_eq!(2, children.len());
    for meta in children {
        assert_eq!("meta", meta.tag);
        assert!(!meta.is_closed);
        assert!(meta.get_children().is_empty());
    }
    assert_eq!(
        &vec![
            ("name".to_string(), "viewport".to_string()),
            (
                "content".to_string(),
                "width=device-width, initial-scale=1".to_string()
            ),
        ],
        children[0].get_attr()
    );
    assert_eq!(
        &vec![("charset".to_string(), "utf-8".to_string())],
        children[1].get_attr()
    );
}

#[test]
fn document_is_doctype_head_break_body() {
    let body = GsElement::new("body", true).add_value("hi");
    let html = create_html(GsElement::new("head", true), body);
    assert_eq!("<!DOCTYPE html>\n<head></head>\n<body>hi</body>", html);
}

#[test]
fn document_with_the_conventional_head() {
    let body = GsElement::new("body", true).add(&GsElement::new("p", true).add_value("text"));
    let html = create_html(create_header(), body);
    assert_eq!(
        "<!DOCTYPE html>\n<head><meta name = \"viewport\" content = \"width=device-width, initial-scale=1\"><meta charset = \"utf-8\"></head>\n<body><p>text</p></body>",
        html
    );
}

#[test]
fn document_renders_head_and_body_on_their_own() {
    let head = GsElement::new("head", true);
    let body = GsElement::new("body", true);
    let expected = format!("<!DOCTYPE html>\n{}\n{}", head.convert(), body.convert());
    assert_eq!(expected, create_html(head, body));
}

#[test]
fn wrap_puts_a_copy_into_a_div() {
    let mut p = GsElement::new("p", true);
    let div = wrap(&p);
    p.set_value("later").unwrap();
    assert_eq!("<div><p></p></div>", div.convert());
    assert_eq!("div", div.tag);
    assert!(div.is_closed);
    assert_eq!(1, div.get_children().len());
}

#[test]
fn wrap_takes_a_void_child() {
    let br = GsElement::new("br", false);
    assert_eq!("<div><br></div>", wrap(&br).convert());
}

#[test]
fn wrap_of_wrap_nests() {
    let inner = wrap(&GsElement::new("span", true).add_value("x"));
    assert_eq!("<div><div><span>x</span></div></div>", wrap(&inner).convert());
}

#[test]
fn marker_holds_nothing() {
    let marker = GsHTML {};
    assert_eq!(0, std::mem::size_of_val(&marker));
}
