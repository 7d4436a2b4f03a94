//! Finding an entry of a list by its id.

use vstd::prelude::*;
use crate::model::{is_first, lemma_position_absent, lemma_position_found, position};

verus! {

/// Something that is found by its id.
pub trait Named {
    /// The characters of the id.
    spec fn spec_name(&self) -> Seq<char>;

    /// Whether `id` is the id of this entry.
    fn is_named(&self, id: &String) -> (same: bool)
        ensures
            same == (self.spec_name() == id@),
    ;
}

impl Named for String {
    open spec fn spec_name(&self) -> Seq<char> {
        self@
    }

    fn is_named(&self, id: &String) -> (same: bool) {
        *self == *id
    }
}

/// The characters of the ids of the entries, in order.
pub open spec fn names<T: Named>(items: Seq<T>) -> Seq<Seq<char>> {
    items.map_values(|t: T| t.spec_name())
}

/// The place of the first entry with this id, if there is one.
pub fn find<T: Named>(items: &Vec<T>, id: &String) -> (at: Option<usize>)
    ensures
        match at {
            Some(i) => i < items.len() && position(names(items@), id@) == Some(i as int),
            None => position(names(items@), id@) == None::<int>,
        },
{
    let mut i: usize = 0;
    while i < items.len()
        invariant
            i <= items.len(),
            forall|j: int| 0 <= j < i ==> names(items@)[j] != id@,
        decreases items.len() - i,
    {
        if items[i].is_named(id) {
            proof {
                assert(is_first(names(items@), id@, i as int));
                lemma_position_found(names(items@), id@, i as int);
            }
            return Some(i);
        }
        i += 1;
    }
    proof {
        lemma_position_absent(names(items@), id@);
    }
    None
}

} // verus!
