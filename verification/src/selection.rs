//! The list of sources on offer and the list of those that are selected.

use vstd::prelude::*;
use vstd::string::*;
use crate::text::views;

verus! {

/// A source as the list shows it: the name to display and the value
/// that stands for it in the selection.
#[derive(Debug, Clone, PartialEq, Eq)]
pub struct SourceItem {
    pub name: String,
    pub value: String,
}

impl View for SourceItem {
    type V = (Seq<char>, Seq<char>);

    open spec fn view(&self) -> (Seq<char>, Seq<char>) {
        (self.name@, self.value@)
    }
}

impl SourceItem {
    pub fn new(name: String, value: String) -> (item: SourceItem)
        ensures
            item.name == name,
            item.value == value,
    {
        SourceItem { name, value }
    }
}

/// The views of a list of items.
pub open spec fn item_views(items: Seq<SourceItem>) -> Seq<(Seq<char>, Seq<char>)> {
    Seq::new(items.len(), |i: int| items[i]@)
}

/// Where `value` stands first in `list`, or the length of `list` if it
/// stands nowhere.
pub open spec fn first_index(list: Seq<Seq<char>>, value: Seq<char>) -> int
    decreases list.len(),
{
    if list.len() == 0 {
        0
    } else if list[0] == value {
        0
    } else {
        1 + first_index(list.drop_first(), value)
    }
}

/// `first_index` is the least position at which `value` stands.
pub proof fn lemma_first_index(list: Seq<Seq<char>>, value: Seq<char>)
    ensures
        0 <= first_index(list, value) <= list.len(),
        first_index(list, value) < list.len() ==> list[first_index(list, value)] == value,
        forall|j: int| 0 <= j < first_index(list, value) ==> list[j] != value,
        list.contains(value) <==> first_index(list, value) < list.len(),
    decreases list.len(),
{
    if list.len() > 0 && list[0] != value {
        let rest = list.drop_first();
        lemma_first_index(rest, value);
        let k = first_index(rest, value);
        assert forall|j: int| 0 <= j < 1 + k implies list[j] != value by {
            if j > 0 {
                assert(rest[j - 1] == list[j]);
            }
        }
        if list.contains(value) {
            let w = choose|w: int| 0 <= w < list.len() && list[w] == value;
            assert(rest[w - 1] == value);
            assert(rest.contains(value));
        }
        if k < rest.len() {
            assert(list[1 + k] == rest[k]);
            assert(list.contains(value));
        }
    } else if list.len() > 0 {
        assert(list[0] == value);
        assert(list.contains(value));
    }
}

/// A position at which `value` stands, with no earlier one, is `first_index`.
pub proof fn lemma_first_index_is(list: Seq<Seq<char>>, value: Seq<char>, at: int)
    requires
        0 <= at <= list.len(),
        at < list.len() ==> list[at] == value,
        forall|j: int| 0 <= j < at ==> list[j] != value,
    ensures
        first_index(list, value) == at,
{
    lemma_first_index(list, value);
}

/// Where `value` stands first in `list`.
pub fn position(list: &Vec<String>, value: &String) -> (found: Option<usize>)
    ensures
        found matches Some(i) ==> i < list@.len() && i == first_index(views(list@), value@),
        found is None ==> !views(list@).contains(value@),
{
    let mut i: usize = 0;
    while i < list.len()
        invariant
            i <= list@.len(),
            forall|j: int| 0 <= j < i ==> views(list@)[j] != value@,
        decreases list@.len() - i,
    {
        if list[i] == *value {
            proof {
                lemma_first_index_is(views(list@), value@, i as int);
            }
            return Some(i);
        }
        i = i + 1;
    }
    proof {
        lemma_first_index_is(views(list@), value@, i as int);
        lemma_first_index(views(list@), value@);
    }
    None
}

/// Whether `value` stands in `list`.
pub fn is_selected(list: &Vec<String>, value: &String) -> (found: bool)
    ensures
        found == views(list@).contains(value@),
{
    proof {
        lemma_first_index(views(list@), value@);
    }
    position(list, value).is_some()
}

} // verus!
