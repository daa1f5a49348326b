//! The mathematical element that the library's contracts speak of.
//!
//! An [`Element`] is a tree of plain values. Every operation of the builder is
//! a function from elements to elements here, and the markup of an element is
//! a sequence of characters defined by recursion over the tree.

use vstd::prelude::*;

verus! {

/// One attribute: a name and the value gathered under it.
#[verifier::ext_equal]
pub struct Attr {
    pub name: Seq<char>,
    pub value: Seq<char>,
}

/// An element as a mathematical value: a tag, whether it is closed, its
/// text, its children in insertion order and its attributes in order of first
/// insertion.
#[verifier::ext_equal]
pub struct Element {
    pub tag: Seq<char>,
    /// `true` for an element with a closing tag, `false` for a void one.
    pub is_closed: bool,
    pub text: Seq<char>,
    pub children: Seq<Element>,
    pub attrs: Seq<Attr>,
}

/// `i` is the first position in `attrs` that carries `name`.
pub open spec fn first_named(attrs: Seq<Attr>, name: Seq<char>, i: int) -> bool {
    &&& 0 <= i < attrs.len()
    &&& attrs[i].name == name
    &&& forall|j: int| 0 <= j < i ==> (#[trigger] attrs[j]).name != name
}

/// The first position in `attrs` that carries `name`, if there is one.
pub open spec fn lookup(attrs: Seq<Attr>, name: Seq<char>) -> Option<int> {
    if exists|i: int| first_named(attrs, name, i) {
        Some(choose|i: int| first_named(attrs, name, i))
    } else {
        None
    }
}

/// `attrs` after `value` has been given for `name`: a new name goes to the
/// end, a known name keeps its place and has a space and `value` appended to
/// what it held.
pub open spec fn merge(attrs: Seq<Attr>, name: Seq<char>, value: Seq<char>) -> Seq<Attr> {
    match lookup(attrs, name) {
        Some(i) => attrs.update(i, Attr { name, value: attrs[i].value + seq![' '] + value }),
        None => attrs.push(Attr { name, value }),
    }
}

/// No name occurs twice in `attrs`.
pub open spec fn names_distinct(attrs: Seq<Attr>) -> bool {
    forall|i: int, j: int|
        0 <= i < j < attrs.len() ==> (#[trigger] attrs[i]).name != (#[trigger] attrs[j]).name
}

/// The attributes as a mapping from name to value.
pub open spec fn as_map(attrs: Seq<Attr>) -> Map<Seq<char>, Seq<char>> {
    Map::new(
        |name: Seq<char>| lookup(attrs, name) is Some,
        |name: Seq<char>| attrs[lookup(attrs, name).unwrap()].value,
    )
}

/// The markup of one attribute: a space, the name, ` = "`, the value, `"`.
pub open spec fn attr_markup(a: Attr) -> Seq<char> {
    seq![' '] + a.name + seq![' ', '=', ' ', '"'] + a.value + seq!['"']
}

/// The markup of all of `attrs`, in their order.
pub open spec fn attrs_markup(attrs: Seq<Attr>) -> Seq<char> {
    attrs.map_values(|a: Attr| attr_markup(a)).flatten()
}

/// The first position that carries a name is what `lookup` finds.
pub proof fn lemma_lookup_found(attrs: Seq<Attr>, name: Seq<char>, i: int)
    requires
        first_named(attrs, name, i),
    ensures
        lookup(attrs, name) == Some(i),
{
    let found = choose|k: int| first_named(attrs, name, k);
    if found < i {
        assert(attrs[found].name != name);
    } else if i < found {
        assert(attrs[i].name != name);
    }
}

/// A name that some position carries has a first position.
proof fn lemma_first_exists(attrs: Seq<Attr>, name: Seq<char>, k: int)
    requires
        0 <= k < attrs.len(),
        attrs[k].name == name,
    ensures
        exists|i: int| first_named(attrs, name, i),
    decreases k,
{
    if exists|j: int| 0 <= j < k && (#[trigger] attrs[j]).name == name {
        let j = choose|j: int| 0 <= j < k && (#[trigger] attrs[j]).name == name;
        lemma_first_exists(attrs, name, j);
    } else {
        assert(first_named(attrs, name, k));
    }
}

/// What `lookup` finds is the first position that carries the name, and it
/// finds nothing only where no position carries it.
pub proof fn lemma_lookup(attrs: Seq<Attr>, name: Seq<char>)
    ensures
        (match lookup(attrs, name) {
            Some(i) => first_named(attrs, name, i),
            None => forall|j: int| 0 <= j < attrs.len() ==> (#[trigger] attrs[j]).name != name,
        }),
{
    if lookup(attrs, name) is None {
        assert forall|j: int| 0 <= j < attrs.len() implies (#[trigger] attrs[j]).name != name by {
            if attrs[j].name == name {
                lemma_first_exists(attrs, name, j);
            }
        }
    }
}

/// Giving a value for a name moves no name: names that were distinct stay
/// distinct, and each stays at its position.
pub proof fn lemma_merge_names(attrs: Seq<Attr>, name: Seq<char>, value: Seq<char>)
    ensures
        forall|i: int|
            0 <= i < attrs.len() ==> (#[trigger] merge(attrs, name, value)[i]).name
                == attrs[i].name,
        names_distinct(attrs) ==> names_distinct(merge(attrs, name, value)),
{
    lemma_lookup(attrs, name);
}

/// One more attribute adds its markup at the end.
pub proof fn lemma_attrs_markup_push(attrs: Seq<Attr>, a: Attr)
    ensures
        attrs_markup(attrs.push(a)) == attrs_markup(attrs) + attr_markup(a),
{
    let each = |a: Attr| attr_markup(a);
    assert(attrs.push(a).map_values(each) =~= attrs.map_values(each).push(attr_markup(a)));
    attrs.map_values(each).lemma_flatten_push(attr_markup(a));
}

impl Element {
    /// A fresh element: no text, no children, no attributes.
    pub open spec fn new(tag: Seq<char>, is_closed: bool) -> Element {
        Element {
            tag,
            is_closed,
            text: Seq::empty(),
            children: Seq::empty(),
            attrs: Seq::empty(),
        }
    }

    /// The invariant of the tree: a void element holds neither text nor
    /// children, no element names an attribute twice, and the same holds of
    /// every descendant.
    pub open spec fn wf(self) -> bool
        decreases self,
    {
        &&& self.is_closed || (self.text.len() == 0 && self.children.len() == 0)
        &&& names_distinct(self.attrs)
        &&& forall|i: int| 0 <= i < self.children.len() ==> (#[trigger] self.children[i]).wf()
    }

    /// The element with `value` as its text; a void element stays as it is.
    pub open spec fn set_value(self, value: Seq<char>) -> Element {
        if self.is_closed {
            Element { text: value, ..self }
        } else {
            self
        }
    }

    /// The element with `value` appended to its text; a void element stays
    /// as it is.
    pub open spec fn add_value(self, value: Seq<char>) -> Element {
        if self.is_closed {
            Element { text: self.text + value, ..self }
        } else {
            self
        }
    }

    /// The element with `child` as its new last child; a void element stays
    /// as it is.
    pub open spec fn add(self, child: Element) -> Element {
        if self.is_closed {
            Element { children: self.children.push(child), ..self }
        } else {
            self
        }
    }

    /// The element without its child at `index`, the later children moved up
    /// by one; with no child at `index` the element stays as it is.
    pub open spec fn remove(self, index: int) -> Element {
        if 0 <= index < self.children.len() {
            Element { children: self.children.remove(index), ..self }
        } else {
            self
        }
    }

    /// The element after `value` has been given for the attribute `name`.
    pub open spec fn add_attr(self, name: Seq<char>, value: Seq<char>) -> Element {
        Element { attrs: merge(self.attrs, name, value), ..self }
    }

    /// The opening tag: `<`, the tag name, the attributes, `>`.
    pub open spec fn opening(self) -> Seq<char> {
        seq!['<'] + self.tag + attrs_markup(self.attrs) + seq!['>']
    }

    /// The closing tag `</tag>` of a closed element; nothing for a void one.
    pub open spec fn closing(self) -> Seq<char> {
        if self.is_closed {
            seq!['<', '/'] + self.tag + seq!['>']
        } else {
            Seq::empty()
        }
    }

    /// The markup of each child, in insertion order.
    pub open spec fn child_markups(self) -> Seq<Seq<char>>
        decreases self, 0nat,
    {
        Seq::new(
            self.children.len(),
            |i: int|
                if 0 <= i < self.children.len() {
                    self.children[i].render()
                } else {
                    Seq::empty()
                },
        )
    }

    /// The markup of the element: the opening tag, the text, the markup of
    /// every child in insertion order, and the closing tag if there is one.
    /// Nothing is escaped.
    pub open spec fn render(self) -> Seq<char>
        decreases self, 1nat,
    {
        self.opening() + self.text + self.child_markups().flatten() + self.closing()
    }
}

} // verus!
