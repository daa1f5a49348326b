//! What holds of every element, stated over the model and proved once.
//!
//! The contracts of the builder say that each operation computes the function
//! of the same name on [`Element`]. The laws below speak of those functions,
//! so each of them holds of the builder as well.

use crate::model::{
    as_map, lemma_lookup, lemma_lookup_found, lemma_merge_names, lookup, merge, names_distinct,
    Element,
};
use vstd::prelude::*;

verus! {

/// `values` with one space between neighbours.
pub open spec fn joined(values: Seq<Seq<char>>) -> Seq<char>
    decreases values.len(),
{
    if values.len() == 0 {
        Seq::empty()
    } else if values.len() == 1 {
        values[0]
    } else {
        joined(values.drop_last()) + seq![' '] + values.last()
    }
}

/// The element after each of `values` has been given for the attribute
/// `name`, in their order.
pub open spec fn add_attr_each(e: Element, name: Seq<char>, values: Seq<Seq<char>>) -> Element
    decreases values.len(),
{
    if values.len() == 0 {
        e
    } else {
        add_attr_each(e, name, values.drop_last()).add_attr(name, values.last())
    }
}

/// A fresh element meets the invariant.
pub proof fn law_new_wf(tag: Seq<char>, is_closed: bool)
    ensures
        Element::new(tag, is_closed).wf(),
{
}

/// Every operation keeps the invariant: new text, more text, one more child
/// that meets it, one child fewer, a value given for an attribute. A child
/// that is taken out meets it too.
pub proof fn law_wf_kept(
    e: Element,
    value: Seq<char>,
    child: Element,
    index: int,
    name: Seq<char>,
)
    requires
        e.wf(),
    ensures
        e.set_value(value).wf(),
        e.add_value(value).wf(),
        child.wf() ==> e.add(child).wf(),
        e.remove(index).wf(),
        0 <= index < e.children.len() ==> e.children[index].wf(),
        e.add_attr(name, value).wf(),
{
    lemma_merge_names(e.attrs, name, value);
}

/// A void element takes neither text nor children: each attempt leaves it as
/// it was.
pub proof fn law_void_unchanged(e: Element, value: Seq<char>, child: Element)
    requires
        !e.is_closed,
    ensures
        e.set_value(value) == e,
        e.add_value(value) == e,
        e.add(child) == e,
{
}

/// On a closed element, the text that was set is the text that is read,
/// whatever the element held before.
pub proof fn law_set_value_overwrites(e: Element, value: Seq<char>)
    requires
        e.is_closed,
    ensures
        e.set_value(value).text == value,
{
}

/// On a closed element, text added twice is read back as the old text
/// followed by the first and then the second addition.
pub proof fn law_add_value_concatenates(e: Element, a: Seq<char>, b: Seq<char>)
    requires
        e.is_closed,
    ensures
        e.add_value(a).add_value(b).text == e.text + a + b,
        e.text.len() == 0 ==> e.add_value(a).add_value(b).text == a + b,
{
}

/// A fresh closed element renders as its opening and its closing tag, a
/// fresh void element as its opening tag alone.
pub proof fn law_fresh_render(tag: Seq<char>)
    ensures
        Element::new(tag, true).render() == seq!['<'] + tag + seq!['>', '<', '/'] + tag + seq!['>'],
        Element::new(tag, false).render() == seq!['<'] + tag + seq!['>'],
{
}

/// A void element that meets the invariant renders as its opening tag alone.
pub proof fn law_void_render(e: Element)
    requires
        e.wf(),
        !e.is_closed,
    ensures
        e.render() == e.opening(),
{
}

/// Removing the child at a valid index leaves one child fewer, keeps the
/// children before it in place and moves the later ones up by one.
pub proof fn law_remove_valid(e: Element, index: int)
    requires
        0 <= index < e.children.len(),
    ensures
        e.remove(index).children.len() == e.children.len() - 1,
        forall|j: int| 0 <= j < index ==> e.remove(index).children[j] == e.children[j],
        forall|j: int|
            index <= j < e.children.len() - 1 ==> e.remove(index).children[j] == e.children[j + 1],
{
}

/// Removing at an index that holds no child changes nothing.
pub proof fn law_remove_invalid(e: Element, index: int)
    requires
        index >= e.children.len(),
    ensures
        e.remove(index) == e,
{
}

/// A child that was added last and is removed again leaves the element as
/// it was.
pub proof fn law_add_then_remove(e: Element, child: Element)
    requires
        e.is_closed,
    ensures
        e.add(child).remove(e.children.len() as int) == e,
{
    assert(e.children.push(child).remove(e.children.len() as int) =~= e.children);
}

/// A new child renders last: after the text and after every earlier child.
pub proof fn law_add_render(e: Element, child: Element)
    requires
        e.is_closed,
    ensures
        e.add(child).render() == e.opening() + e.text + e.child_markups().flatten()
            + child.render() + e.closing(),
{
    let after = e.add(child);
    assert(after.child_markups() =~= e.child_markups().push(child.render()));
    e.child_markups().lemma_flatten_push(child.render());
    assert(after.render() =~= e.opening() + e.text + e.child_markups().flatten() + child.render()
        + e.closing());
}

/// Text renders before every child, whether it was set before the children
/// were added or after.
pub proof fn law_text_before_children(e: Element, text: Seq<char>, child: Element)
    requires
        e.is_closed,
    ensures
        e.set_value(text).add(child).render() == e.opening() + text
            + e.child_markups().flatten() + child.render() + e.closing(),
        e.add(child).set_value(text).render() == e.set_value(text).add(child).render(),
{
    law_add_render(e.set_value(text), child);
}

/// Giving a value for an attribute changes the mapping at that name alone:
/// a new name maps to the value, a known name to what it held, a space and
/// the value.
pub proof fn law_add_attr_map(e: Element, name: Seq<char>, value: Seq<char>)
    ensures
        as_map(e.add_attr(name, value).attrs) == as_map(e.attrs).insert(
            name,
            if as_map(e.attrs).dom().contains(name) {
                as_map(e.attrs)[name] + seq![' '] + value
            } else {
                value
            },
        ),
{
    let before = e.attrs;
    let after = merge(before, name, value);
    // Each name is found after the change where it was found before; the
    // name given, if it was new, is found at the end.
    assert forall|other: Seq<char>| #[trigger]
        lookup(after, other) == (if other == name && lookup(before, name) is None {
            Some(before.len() as int)
        } else {
            lookup(before, other)
        }) by {
        lemma_lookup(before, other);
        lemma_lookup(before, name);
        if other == name && lookup(before, name) is None {
            lemma_lookup_found(after, name, before.len() as int);
        } else if let Some(k) = lookup(before, other) {
            lemma_lookup_found(after, other, k);
        }
    }
    assert(as_map(after) =~= as_map(before).insert(
        name,
        if as_map(before).dom().contains(name) {
            as_map(before)[name] + seq![' '] + value
        } else {
            value
        },
    ));
}

/// Values given one after the other for one name are gathered under it in
/// the order given, with a single space before each but the first of all;
/// what other names map to stays as it was.
pub proof fn law_repeated_attr(e: Element, name: Seq<char>, values: Seq<Seq<char>>)
    requires
        values.len() > 0,
    ensures
        as_map(add_attr_each(e, name, values).attrs) == as_map(e.attrs).insert(
            name,
            if as_map(e.attrs).dom().contains(name) {
                as_map(e.attrs)[name] + seq![' '] + joined(values)
            } else {
                joined(values)
            },
        ),
    decreases values.len(),
{
    let earlier = add_attr_each(e, name, values.drop_last());
    let after = add_attr_each(e, name, values);
    law_add_attr_map(earlier, name, values.last());
    if values.len() > 1 {
        law_repeated_attr(e, name, values.drop_last());
        if as_map(e.attrs).dom().contains(name) {
            let held = as_map(e.attrs)[name];
            let gathered = joined(values.drop_last());
            assert((held + seq![' '] + gathered) + seq![' '] + values.last() =~= held + seq![' ']
                + (gathered + seq![' '] + values.last()));
        }
        assert(as_map(after.attrs) =~= as_map(e.attrs).insert(
            name,
            if as_map(e.attrs).dom().contains(name) {
                as_map(e.attrs)[name] + seq![' '] + joined(values)
            } else {
                joined(values)
            },
        ));
    }
}

/// Giving a value for an attribute moves no name and adds at most one, at
/// the end: names that were distinct stay distinct, in the order of first
/// insertion.
pub proof fn law_add_attr_keeps_order(e: Element, name: Seq<char>, value: Seq<char>)
    ensures
        forall|i: int|
            0 <= i < e.attrs.len() ==> (#[trigger] e.add_attr(name, value).attrs[i]).name
                == e.attrs[i].name,
        names_distinct(e.attrs) ==> names_distinct(e.add_attr(name, value).attrs),
        e.add_attr(name, value).attrs.len() == (if as_map(e.attrs).dom().contains(name) {
            e.attrs.len()
        } else {
            e.attrs.len() + 1
        }),
{
    lemma_merge_names(e.attrs, name, value);
}

} // verus!
