//! The element builder: a tree of tagged elements that renders to markup.

use crate::attr_list::{attrs_of, AttrList};
use crate::error::GsError;
use crate::model::{lemma_merge_names, names_distinct, Element};
use vstd::prelude::*;
use vstd::string::StringExecFns;

verus! {

/// A marker for HTML among markup languages. It holds nothing.
pub struct GsHTML {}

/// One element and, by value, everything below it.
///
/// The attributes are kept as pairs of name and value in the order in which
/// the names were first given, each name once; that is the order in which
/// they are rendered.
#[derive(Debug, PartialEq)]
pub struct GsElement {
    /// The tag name, emitted as given.
    pub tag: String,
    inner_html: String,
    /// `true` for an element with a closing tag, `false` for a void one.
    pub is_closed: bool,
    children: Vec<GsElement>,
    attribs: AttrList,
}

/// The mathematical elements that a list of elements stands for, in the same
/// order.
pub open spec fn elements_of(list: Seq<GsElement>) -> Seq<Element> {
    list.map_values(|element: GsElement| element@)
}

impl View for GsElement {
    type V = Element;

    /// The mathematical element that this value stands for.
    closed spec fn view(&self) -> Element
        decreases self,
    {
        Element {
            tag: self.tag@,
            is_closed: self.is_closed,
            text: self.inner_html@,
            children: Seq::new(
                self.children@.len(),
                |i: int|
                    if 0 <= i < self.children@.len() {
                        self.children@[i].view()
                    } else {
                        arbitrary()
                    },
            ),
            attrs: self.attribs@,
        }
    }
}

impl GsElement {
    /// The invariant of the tree, on the element that this value stands for:
    /// a void element holds neither text nor children, and no element names
    /// an attribute twice. `new` establishes it and every operation keeps it.
    pub open spec fn wf(&self) -> bool {
        self@.wf()
    }

    /// What the view holds, field by field.
    proof fn lemma_view(&self)
        ensures
            self@.tag == self.tag@,
            self@.is_closed == self.is_closed,
            self@.text == self.inner_html@,
            self@.children.len() == self.children@.len(),
            forall|i: int|
                0 <= i < self.children@.len() ==> #[trigger] self@.children[i]
                    == self.children@[i]@,
            self@.attrs == self.attribs@,
    {
        reveal_with_fuel(<GsElement as View>::view, 2);
    }

    /// The view is `m` as soon as it agrees with `m` field by field.
    proof fn lemma_view_is(&self, m: Element)
        requires
            m.tag == self.tag@,
            m.is_closed == self.is_closed,
            m.text == self.inner_html@,
            m.children.len() == self.children@.len(),
            forall|i: int|
                0 <= i < self.children@.len() ==> #[trigger] m.children[i] == self.children@[i]@,
            m.attrs == self.attribs@,
        ensures
            self@ == m,
    {
        self.lemma_view();
        assert(self@.children =~= m.children);
    }

    /// A fresh element, closed or void as asked: the tag as given, no text,
    /// no children, no attributes.
    pub fn new(tag: &str, is_closed: bool) -> (element: Self)
        ensures
            element@ == Element::new(tag@, is_closed),
            element.wf(),
    {
        let element = GsElement {
            tag: tag.to_owned(),
            inner_html: String::new(),
            is_closed,
            children: Vec::new(),
            attribs: AttrList::new(),
        };
        proof {
            element.lemma_view_is(Element::new(tag@, is_closed));
        }
        element
    }

    /// The markup of this element and of everything below it: the opening
    /// tag with the attributes, the text, every child in insertion order, and
    /// the closing tag of a closed element. Nothing is escaped.
    pub fn convert(&self) -> (html: String)
        ensures
            html@ == self@.render(),
        decreases self,
    {
        let mut html = String::new();
        proof {
            reveal_strlit("<");
            reveal_strlit(">");
            reveal_strlit("</");
        }
        html.append("<");
        html.append(self.tag.as_str());
        self.attribs.write(&mut html);
        html.append(">");
        html.append(self.inner_html.as_str());
        let ghost markups = self@.child_markups();
        let mut k: usize = 0;
        proof {
            self.lemma_view();
        }
        while k < self.children.len()
            invariant
                k <= self.children.len(),
                markups == self@.child_markups(),
                markups.len() == self.children.len(),
                html@ == self@.opening() + self@.text + markups.subrange(0, k as int).flatten(),
            decreases self.children.len() - k,
        {
            let child = self.children[k].convert();
            html.append(child.as_str());
            proof {
                let done = markups.subrange(0, k as int);
                self.lemma_view();
                assert(markups.subrange(0, k + 1) =~= done.push(child@));
                done.lemma_flatten_push(child@);
            }
            k += 1;
        }
        proof {
            assert(markups.subrange(0, k as int) =~= markups);
        }
        if self.is_closed {
            html.append("</");
            html.append(self.tag.as_str());
            html.append(">");
        }
        html
    }

    /// Replaces the text of a closed element by `value`. A void element
    /// refuses and stays exactly as it was.
    pub fn set_value(&mut self, value: &str) -> (result: Result<(), GsError>)
        ensures
            final(self)@ == old(self)@.set_value(value@),
            (match result {
                Ok(_) => old(self)@.is_closed,
                Err(e) => {
                    &&& !old(self)@.is_closed
                    &&& e == GsError::UnclosedTag
                    &&& *final(self) == *old(self)
                },
            }),
            old(self).wf() ==> final(self).wf(),
    {
        proof {
            self.lemma_view();
        }
        if self.is_closed {
            self.inner_html = value.to_owned();
            Ok(())
        } else {
            Err(GsError::UnclosedTag)
        }
    }

    /// Appends `value` to the text of a closed element and hands the element
    /// back. A void element is handed back as it was.
    pub fn add_value(self, value: &str) -> (element: Self)
        ensures
            element@ == self@.add_value(value@),
            !self@.is_closed ==> element == self,
            self.wf() ==> element.wf(),
    {
        let mut element = self;
        proof {
            self.lemma_view();
        }
        if element.is_closed {
            element.inner_html.append(value);
        }
        element
    }

    /// The text that the element holds.
    pub fn get_value(&self) -> (text: &str)
        ensures
            text@ == self@.text,
    {
        self.inner_html.as_str()
    }

    /// The children, in insertion order.
    pub fn get_children(&self) -> (children: &Vec<Self>)
        ensures
            elements_of(children@) == self@.children,
    {
        proof {
            self.lemma_view();
        }
        &self.children
    }

    /// Appends a copy of `element` to the children of a closed element and
    /// hands the parent back. A void parent drops the child and is handed
    /// back as it was.
    pub fn add(self, element: &GsElement) -> (parent: Self)
        ensures
            parent@ == self@.add(element@),
            !self@.is_closed ==> parent == self,
            self.wf() && element.wf() ==> parent.wf(),
    {
        let mut parent = self;
        proof {
            self.lemma_view();
        }
        if parent.is_closed {
            parent.children.push(element.clone());
            proof {
                parent.lemma_view_is(self@.add(element@));
            }
        }
        parent
    }

    /// Appends a copy of `element` to the children of a closed element. A
    /// void element refuses and stays exactly as it was.
    pub fn push(&mut self, element: &GsElement) -> (result: Result<(), GsError>)
        ensures
            final(self)@ == old(self)@.add(element@),
            (match result {
                Ok(_) => old(self)@.is_closed,
                Err(e) => {
                    &&& !old(self)@.is_closed
                    &&& e == GsError::UnclosedTag
                    &&& *final(self) == *old(self)
                },
            }),
            old(self).wf() && element.wf() ==> final(self).wf(),
    {
        proof {
            self.lemma_view();
        }
        if self.is_closed {
            self.children.push(element.clone());
            proof {
                self.lemma_view_is(old(self)@.add(element@));
            }
            Ok(())
        } else {
            Err(GsError::UnclosedTag)
        }
    }

    /// Takes the child at `index` out and returns it; the later children move
    /// up by one. With no child at `index` the element refuses and stays
    /// exactly as it was.
    pub fn remove(&mut self, index: usize) -> (result: Result<Self, GsError>)
        ensures
            final(self)@ == old(self)@.remove(index as int),
            (match result {
                Ok(child) => {
                    &&& index < old(self)@.children.len()
                    &&& child@ == old(self)@.children[index as int]
                    &&& final(self)@.children.len() + 1 == old(self)@.children.len()
                    &&& old(self).wf() ==> child.wf()
                },
                Err(e) => {
                    &&& index >= old(self)@.children.len()
                    &&& e == GsError::IndexOutOfBounds
                    &&& *final(self) == *old(self)
                },
            }),
            old(self).wf() ==> final(self).wf(),
    {
        proof {
            self.lemma_view();
        }
        if index >= self.children.len() {
            Err(GsError::IndexOutOfBounds)
        } else {
            let child = self.children.remove(index);
            proof {
                self.lemma_view_is(old(self)@.remove(index as int));
                assert(child@ == old(self)@.children[index as int]);
            }
            Ok(child)
        }
    }

    /// Gives `value` for the attribute `attribute` and hands the element
    /// back: a new name is inserted with `value`, a known name has a space
    /// and `value` appended to what it held. Void elements take attributes
    /// like any other.
    pub fn add_attr(self, attribute: &'static str, value: &'static str) -> (element: Self)
        ensures
            element@ == self@.add_attr(attribute@, value@),
            self.wf() ==> element.wf(),
    {
        let mut element = self;
        element.push_attr(attribute, value);
        element
    }

    /// Gives `value` for the attribute `attribute`: a new name is inserted
    /// with `value`, a known name has a space and `value` appended to what it
    /// held. Void elements take attributes like any other.
    pub fn push_attr(&mut self, attribute: &'static str, value: &'static str)
        ensures
            final(self)@ == old(self)@.add_attr(attribute@, value@),
            old(self).wf() ==> final(self).wf(),
    {
        proof {
            self.lemma_view();
        }
        self.attribs.give(attribute.to_owned(), value);
        proof {
            lemma_merge_names(old(self)@.attrs, attribute@, value@);
        }
    }

    /// The attributes, each a name with its value, in order of first
    /// insertion.
    pub fn get_attr(&self) -> (attrs: &Vec<(String, String)>)
        ensures
            attrs_of(attrs@) == self@.attrs,
            names_distinct(self@.attrs),
    {
        proof {
            self.lemma_view();
        }
        self.attribs.pairs()
    }
}

impl Clone for GsElement {
    /// An independent copy of the element and of everything below it.
    fn clone(&self) -> (copy: Self)
        ensures
            copy@ == self@,
        decreases self,
    {
        let mut children: Vec<GsElement> = Vec::new();
        let mut i: usize = 0;
        while i < self.children.len()
            invariant
                i <= self.children.len(),
                children@.len() == i,
                forall|j: int| 0 <= j < i ==> (#[trigger] children@[j])@ == self.children@[j]@,
            decreases self.children.len() - i,
        {
            children.push(self.children[i].clone());
            i += 1;
        }
        let attribs = self.attribs.clone();
        let copy = GsElement {
            tag: self.tag.clone(),
            inner_html: self.inner_html.clone(),
            is_closed: self.is_closed,
            children,
            attribs,
        };
        proof {
            self.lemma_view();
            copy.lemma_view_is(self@);
        }
        copy
    }
}

impl<'a> From<(&'a str, bool)> for GsElement {
    /// The fresh element that `new` builds from the pair's two parts.
    fn from(pair: (&'a str, bool)) -> (element: Self)
        ensures
            element@ == Element::new(pair.0@, pair.1),
    {
        GsElement::new(pair.0, pair.1)
    }
}

/// What the conversion returns is stated over its view, in the `ensures` of
/// `from`; no value in specifications is named for it.
impl<'a> vstd::std_specs::convert::FromSpecImpl<(&'a str, bool)> for GsElement {
    open spec fn obeys_from_spec() -> bool {
        false
    }

    open spec fn from_spec(pair: (&'a str, bool)) -> Self {
        arbitrary()
    }
}

impl From<(String, bool)> for GsElement {
    /// The fresh element that `new` builds from the pair's two parts.
    fn from(pair: (String, bool)) -> (element: Self)
        ensures
            element@ == Element::new(pair.0@, pair.1),
    {
        GsElement::new(pair.0.as_str(), pair.1)
    }
}

/// What the conversion returns is stated over its view, in the `ensures` of
/// `from`; no value in specifications is named for it.
impl vstd::std_specs::convert::FromSpecImpl<(String, bool)> for GsElement {
    open spec fn obeys_from_spec() -> bool {
        false
    }

    open spec fn from_spec(pair: (String, bool)) -> Self {
        arbitrary()
    }
}

} // verus!
