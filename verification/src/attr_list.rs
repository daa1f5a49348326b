//! The attributes of one element, kept in the order in which their names
//! were first given.

use crate::model::{
    attr_markup, attrs_markup, first_named, lemma_attrs_markup_push, lemma_merge_names, merge,
    names_distinct, Attr,
};
use vstd::prelude::*;
use vstd::string::StringExecFns;

verus! {

/// The attribute that a pair of name and value stands for.
pub open spec fn attr_of(pair: (String, String)) -> Attr {
    Attr { name: pair.0@, value: pair.1@ }
}

/// The attributes that a list of pairs stands for, in the same order.
pub open spec fn attrs_of(pairs: Seq<(String, String)>) -> Seq<Attr> {
    pairs.map_values(|pair: (String, String)| attr_of(pair))
}

/// The attributes of one element: pairs of name and value in the order in
/// which the names were first given. No name occurs twice.
#[derive(Debug, PartialEq)]
pub(crate) struct AttrList {
    entries: Vec<(String, String)>,
}

impl View for AttrList {
    type V = Seq<Attr>;

    closed spec fn view(&self) -> Seq<Attr> {
        attrs_of(self.entries@)
    }
}

impl AttrList {
    /// No name occurs twice.
    #[verifier::type_invariant]
    spec fn distinct(&self) -> bool {
        names_distinct(attrs_of(self.entries@))
    }

    /// The list without any attribute.
    pub(crate) fn new() -> (list: Self)
        ensures
            list@ == Seq::<Attr>::empty(),
    {
        AttrList { entries: Vec::new() }
    }

    /// The pairs of name and value, in order of first insertion.
    pub(crate) fn pairs(&self) -> (pairs: &Vec<(String, String)>)
        ensures
            attrs_of(pairs@) == self@,
            names_distinct(self@),
    {
        proof {
            use_type_invariant(self);
        }
        &self.entries
    }

    /// Gives `value` for `name`: a new name goes to the end with `value`, a
    /// known name keeps its place and has a space and `value` appended to
    /// what it held.
    pub(crate) fn give(&mut self, name: String, value: &str)
        ensures
            final(self)@ == merge(old(self)@, name@, value@),
    {
        proof {
            use_type_invariant(&*self);
        }
        // The pairs are changed outside the list and put back at the end,
        // where the invariant is due again.
        let mut entries: Vec<(String, String)> = Vec::new();
        std::mem::swap(&mut entries, &mut self.entries);
        match position(&entries, &name) {
            Some(i) => {
                let entry = &mut entries[i];
                entry.1.append(" ");
                entry.1.append(value);
                proof {
                    reveal_strlit(" ");
                    assert(" "@ =~= seq![' ']);
                }
            },
            None => {
                entries.push((name, value.to_owned()));
            },
        }
        proof {
            lemma_merge_names(old(self)@, name@, value@);
            assert(attrs_of(entries@) =~= merge(old(self)@, name@, value@));
        }
        self.entries = entries;
    }

    /// Appends the markup of every attribute to `out`, in their order.
    pub(crate) fn write(&self, out: &mut String)
        ensures
            final(out)@ == old(out)@ + attrs_markup(self@),
    {
        let mut i: usize = 0;
        proof {
            assert(self@.subrange(0, 0) =~= Seq::<Attr>::empty());
        }
        while i < self.entries.len()
            invariant
                i <= self.entries.len(),
                self@.len() == self.entries.len(),
                out@ == old(out)@ + attrs_markup(self@.subrange(0, i as int)),
            decreases self.entries.len() - i,
        {
            let entry = &self.entries[i];
            proof {
                reveal_strlit(" ");
                reveal_strlit(" = \"");
                reveal_strlit("\"");
            }
            out.append(" ");
            out.append(entry.0.as_str());
            out.append(" = \"");
            out.append(entry.1.as_str());
            out.append("\"");
            proof {
                let done = self@.subrange(0, i as int);
                let a = self@[i as int];
                assert(self@.subrange(0, i + 1) =~= done.push(a));
                lemma_attrs_markup_push(done, a);
                assert(attr_markup(a) =~= " "@ + entry.0@ + " = \""@ + entry.1@ + "\""@);
            }
            i += 1;
        }
        proof {
            assert(self@.subrange(0, i as int) =~= self@);
        }
    }
}

impl Clone for AttrList {
    /// A copy that holds the same attributes.
    fn clone(&self) -> (copy: Self)
        ensures
            copy@ == self@,
    {
        proof {
            use_type_invariant(self);
        }
        let mut entries: Vec<(String, String)> = Vec::new();
        let mut k: usize = 0;
        while k < self.entries.len()
            invariant
                k <= self.entries.len(),
                entries@.len() == k,
                forall|j: int|
                    0 <= j < k ==> attr_of(#[trigger] entries@[j]) == attr_of(self.entries@[j]),
            decreases self.entries.len() - k,
        {
            let entry = &self.entries[k];
            entries.push((entry.0.clone(), entry.1.clone()));
            k += 1;
        }
        proof {
            assert(attrs_of(entries@) =~= attrs_of(self.entries@));
        }
        AttrList { entries }
    }
}

/// The first position in `entries` that carries `name`, if any.
fn position(entries: &Vec<(String, String)>, name: &String) -> (at: Option<usize>)
    ensures
        (match at {
            Some(i) => first_named(attrs_of(entries@), name@, i as int),
            None => forall|j: int|
                0 <= j < entries@.len() ==> (#[trigger] attrs_of(entries@)[j]).name != name@,
        }),
{
    let mut i: usize = 0;
    while i < entries.len()
        invariant
            i <= entries.len(),
            forall|j: int| 0 <= j < i ==> (#[trigger] attrs_of(entries@)[j]).name != name@,
        decreases entries.len() - i,
    {
        if entries[i].0 == *name {
            return Some(i);
        }
        i += 1;
    }
    None
}

} // verus!
