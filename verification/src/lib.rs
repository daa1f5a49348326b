//! An in-memory builder for trees of HTML elements and their markup.
//!
//! [`gs_element::GsElement`] is the builder. What each of its operations does
//! is stated over [`model::Element`], the mathematical tree that a builder
//! value stands for; [`laws`] holds what follows for sequences of operations.
//! [`attr_list`] keeps the attributes of one element, each name once, in the
//! order in which the names were first given. Text, tag names and attribute
//! values are emitted as given: nothing is escaped.

pub mod attr_list;
pub mod error;
pub mod gs_element;
pub mod laws;
pub mod model;

use gs_element::GsElement;
use model::{Attr, Element};
use vstd::prelude::*;
use vstd::string::StringExecFns;

verus! {

/// The viewport `meta` element of the conventional head.
pub open spec fn viewport_meta() -> Element {
    Element {
        tag: "meta"@,
        is_closed: false,
        text: Seq::empty(),
        children: Seq::empty(),
        attrs: seq![
            Attr { name: "name"@, value: "viewport"@ },
            Attr { name: "content"@, value: "width=device-width, initial-scale=1"@ },
        ],
    }
}

/// The charset `meta` element of the conventional head.
pub open spec fn charset_meta() -> Element {
    Element {
        tag: "meta"@,
        is_closed: false,
        text: Seq::empty(),
        children: Seq::empty(),
        attrs: seq![Attr { name: "charset"@, value: "utf-8"@ }],
    }
}

/// The conventional head: the viewport `meta`, then the charset `meta`.
pub open spec fn default_head() -> Element {
    Element {
        tag: "head"@,
        is_closed: true,
        text: Seq::empty(),
        children: seq![viewport_meta(), charset_meta()],
        attrs: Seq::empty(),
    }
}

/// A document: the doctype line, the markup of `head`, a line break, the
/// markup of `body`.
pub open spec fn document(head: Element, body: Element) -> Seq<char> {
    "<!DOCTYPE html>\n"@ + head.render() + "\n"@ + body.render()
}

/// The markup of the conventional head.
pub open spec fn default_head_markup() -> Seq<char> {
    "<head><meta name = \"viewport\" content = \"width=device-width, initial-scale=1\"><meta charset = \"utf-8\"></head>"@
}

/// The conventional head and its two children render as written out here,
/// character by character.
pub proof fn lemma_default_head_markup()
    ensures
        viewport_meta().render()
            == "<meta name = \"viewport\" content = \"width=device-width, initial-scale=1\">"@,
        charset_meta().render() == "<meta charset = \"utf-8\">"@,
        default_head().render() == default_head_markup(),
{
    reveal_strlit("head");
    reveal_strlit("meta");
    reveal_strlit("name");
    reveal_strlit("viewport");
    reveal_strlit("content");
    reveal_strlit("width=device-width, initial-scale=1");
    reveal_strlit("charset");
    reveal_strlit("utf-8");
    reveal_strlit("<meta name = \"viewport\" content = \"width=device-width, initial-scale=1\">");
    reveal_strlit("<meta charset = \"utf-8\">");
    reveal_strlit(
        "<head><meta name = \"viewport\" content = \"width=device-width, initial-scale=1\"><meta charset = \"utf-8\"></head>",
    );
    let none = Seq::<Attr>::empty();
    let name = Attr { name: "name"@, value: "viewport"@ };
    let content = Attr { name: "content"@, value: "width=device-width, initial-scale=1"@ };
    let charset = Attr { name: "charset"@, value: "utf-8"@ };
    model::lemma_attrs_markup_push(none, name);
    model::lemma_attrs_markup_push(none.push(name), content);
    model::lemma_attrs_markup_push(none, charset);
    assert(none.push(name).push(content) =~= viewport_meta().attrs);
    let no_markups = Seq::<Seq<char>>::empty();
    assert(viewport_meta().render()
        =~= "<meta name = \"viewport\" content = \"width=device-width, initial-scale=1\">"@);
    let markups = default_head().child_markups();
    assert(markups =~= no_markups.push(viewport_meta().render()).push(charset_meta().render()));
    no_markups.lemma_flatten_push(viewport_meta().render());
    no_markups.push(viewport_meta().render()).lemma_flatten_push(charset_meta().render());
    assert(default_head().render() =~= default_head_markup());
}

/// Builds the conventional `head` element.
pub fn create_header() -> (head: GsElement)
    ensures
        head@ == default_head(),
        head@.render() == default_head_markup(),
        head.wf(),
{
    let meta_charset = GsElement::new("meta", false).add_attr("charset", "utf-8");
    let meta_viewport = GsElement::new("meta", false).add_attr("name", "viewport").add_attr(
        "content",
        "width=device-width, initial-scale=1",
    );
    let head = GsElement::new("head", true).add(&meta_viewport).add(&meta_charset);
    proof {
        // `content` is a name of its own: it differs from `name` in length.
        reveal_strlit("name");
        reveal_strlit("content");
        assert("name"@.len() != "content"@.len());
        assert(meta_viewport@ =~~= viewport_meta());
        assert(head@.children =~= seq![viewport_meta(), charset_meta()]);
        lemma_default_head_markup();
    }
    head
}

/// Renders `head` and `body` into one document.
pub fn create_html(head: GsElement, body: GsElement) -> (html: String)
    ensures
        html@ == document(head@, body@),
{
    let head_html = head.convert();
    let body_html = body.convert();
    let mut html = String::new();
    html.append("<!DOCTYPE html>\n");
    html.append(head_html.as_str());
    html.append("\n");
    html.append(body_html.as_str());
    html
}

/// A closed `div` that holds a copy of `child` and nothing else.
pub fn wrap(child: &GsElement) -> (div: GsElement)
    ensures
        div@ == Element::new("div"@, true).add(child@),
        child.wf() ==> div.wf(),
{
    GsElement::new("div", true).add(child)
}

} // verus!
