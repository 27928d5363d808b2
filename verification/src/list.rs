//! The ordered list of identifiers, and the cursor that reads a snapshot of it.
//!
//! The list is changed through `&mut` and read through `&`: a cursor borrows
//! the list for as long as it lives, so no change can happen while a snapshot
//! is being read, and every snapshot is the list as it stood at one instant.

use vstd::prelude::*;
use crate::names::str_eq;

verus! {

/// The identifiers that a sequence of strings holds, in the same order.
pub open spec fn views(strings: Seq<String>) -> Seq<Seq<char>> {
    strings.map_values(|s: String| s@)
}

/// An ordered list of identifiers. An identifier may occur more than once.
#[derive(Debug)]
pub struct StringList {
    list: Vec<String>,
}

impl View for StringList {
    type V = Seq<Seq<char>>;

    closed spec fn view(&self) -> Seq<Seq<char>> {
        views(self.list@)
    }
}

impl StringList {
    /// The list that holds the identifiers of `vec`, in their order.
    pub fn from(vec: Vec<String>) -> (list: Self)
        ensures
            list@ == views(vec@),
    {
        StringList { list: vec }
    }

    /// How many identifiers the list holds.
    pub fn len(&self) -> (n: usize)
        ensures
            n == self@.len(),
    {
        self.list.len()
    }

    /// Whether `id` occurs in the list.
    pub fn contains(&self, id: &str) -> (found: bool)
        ensures
            found == self@.contains(id@),
    {
        let mut i: usize = 0;
        while i < self.list.len()
            invariant
                i <= self.list@.len(),
                forall|j: int| 0 <= j < i ==> self@[j] != id@,
            decreases self.list@.len() - i,
        {
            if str_eq(self.list[i].as_str(), id) {
                assert(self@[i as int] == id@);
                return true;
            }
            i = i + 1;
        }
        false
    }

    /// Appends `id` to the list, whether or not it is there already.
    pub fn add(&mut self, id: String)
        ensures
            final(self)@ == old(self)@.push(id@),
    {
        self.list.push(id);
        assert(self@ =~= old(self)@.push(id@));
    }

    /// Removes the first occurrence of `id`; leaves the list as it is where
    /// `id` does not occur.
    pub fn remove(&mut self, id: &str)
        ensures
            final(self)@ == old(self)@.remove_value(id@),
    {
        let mut i: usize = 0;
        while i < self.list.len()
            invariant
                i <= self.list@.len(),
                *self == *old(self),
                forall|j: int| 0 <= j < i ==> self@[j] != id@,
            decreases self.list@.len() - i,
        {
            if str_eq(self.list[i].as_str(), id) {
                proof {
                    lemma_first_occurrence(self@, id@, i as int);
                }
                let _ = self.list.remove(i);
                assert(self@ =~= old(self)@.remove(i as int));
                return ;
            }
            i = i + 1;
        }
        proof {
            old(self)@.index_of_first_ensures(id@);
        }
    }

    /// A cursor over the list as it stands now, from its first identifier to
    /// its last.
    pub fn snapshot(&self) -> (iter: StringIter<'_>)
        ensures
            iter@ == self@,
    {
        let iter = StringIter { list: &self.list, current: 0, end: self.list.len() };
        assert(iter@ =~= self@);
        iter
    }
}

/// The position before which `id` does not occur, and at which it does, is
/// the position of its first occurrence.
pub proof fn lemma_first_occurrence(ids: Seq<Seq<char>>, id: Seq<char>, k: int)
    requires
        0 <= k < ids.len(),
        ids[k] == id,
        forall|j: int| 0 <= j < k ==> ids[j] != id,
    ensures
        ids.index_of_first(id) == Some(k),
        ids.remove_value(id) == ids.remove(k),
{
    ids.index_of_first_ensures(id);
    assert(ids.contains(id));
}

/// Whether `id` occurs at one position of `ids` at most.
pub open spec fn at_most_once(ids: Seq<Seq<char>>, id: Seq<char>) -> bool {
    forall|i: int, j: int|
        0 <= i < ids.len() && 0 <= j < ids.len() && ids[i] == id && ids[j] == id ==> i == j
}

/// An identifier that was added is in the list.
pub proof fn lemma_add_contains(ids: Seq<Seq<char>>, id: Seq<char>)
    ensures
        ids.push(id).contains(id),
{
    assert(ids.push(id)[ids.len() as int] == id);
}

/// Removing an identifier that does not occur changes nothing.
pub proof fn lemma_remove_absent(ids: Seq<Seq<char>>, id: Seq<char>)
    requires
        !ids.contains(id),
    ensures
        ids.remove_value(id) == ids,
{
    ids.index_of_first_ensures(id);
}

/// Removing an identifier that occurs takes out its first occurrence and
/// nothing else.
pub proof fn lemma_remove_present(ids: Seq<Seq<char>>, id: Seq<char>)
    requires
        ids.contains(id),
    ensures
        ids.remove_value(id).len() == ids.len() - 1,
        exists|k: int|
            0 <= k < ids.len() && ids[k] == id && (forall|j: int| 0 <= j < k ==> ids[j] != id)
                && ids.remove_value(id) == ids.remove(k),
{
    ids.index_of_first_ensures(id);
    let k = ids.index_of_first(id)->Some_0;
    assert(0 <= k < ids.len() && ids[k] == id && (forall|j: int| 0 <= j < k ==> ids[j] != id)
        && ids.remove_value(id) == ids.remove(k));
}

/// An identifier that occurred once at most is not in the list after it was
/// removed.
pub proof fn lemma_remove_contains(ids: Seq<Seq<char>>, id: Seq<char>)
    requires
        at_most_once(ids, id),
    ensures
        !ids.remove_value(id).contains(id),
{
    ids.index_of_first_ensures(id);
    match ids.index_of_first(id) {
        None => {},
        Some(k) => {
            let rest = ids.remove(k);
            assert forall|j: int| 0 <= j < rest.len() implies rest[j] != id by {
                if j < k {
                    assert(rest[j] == ids[j]);
                } else {
                    assert(rest[j] == ids[j + 1]);
                }
            }
        },
    }
}

/// An identifier that occurs twice or more is still in the list after it was
/// removed once.
pub proof fn lemma_remove_leaves_duplicate(ids: Seq<Seq<char>>, id: Seq<char>)
    requires
        !at_most_once(ids, id),
    ensures
        ids.remove_value(id).contains(id),
{
    let (i, j) = choose|i: int, j: int|
        0 <= i < ids.len() && 0 <= j < ids.len() && ids[i] == id && ids[j] == id && i != j;
    assert(ids.contains(id));
    ids.index_of_first_ensures(id);
    let k = ids.index_of_first(id)->Some_0;
    let rest = ids.remove(k);
    let other = if i == k {
        j
    } else {
        i
    };
    if other < k {
        assert(rest[other] == ids[other]);
    } else {
        assert(rest[other - 1] == ids[other]);
    }
}

/// A cursor over a snapshot of a `StringList`: the identifiers between two
/// bounds that were fixed when the snapshot was taken. Its view is what is
/// still to come.
#[derive(Debug)]
pub struct StringIter<'a> {
    list: &'a Vec<String>,
    current: usize,
    end: usize,
}

impl<'a> View for StringIter<'a> {
    type V = Seq<Seq<char>>;

    closed spec fn view(&self) -> Seq<Seq<char>> {
        views(self.list@.subrange(self.current as int, self.end as int))
    }
}

impl<'a> StringIter<'a> {
    #[verifier::type_invariant]
    spec fn in_bounds(self) -> bool {
        self.current <= self.end <= self.list@.len()
    }

    /// The next identifier of the snapshot, or `None` once all were given.
    pub fn next(&mut self) -> (item: Option<&'a str>)
        ensures
            match item {
                Some(id) => old(self)@.len() > 0 && id@ == old(self)@[0] && final(self)@ == old(
                    self,
                )@.drop_first(),
                None => old(self)@.len() == 0 && final(self)@ == old(self)@,
            },
    {
        proof {
            use_type_invariant(&*self);
        }
        if self.current == self.end {
            None
        } else {
            let list: &'a Vec<String> = self.list;
            let string: &'a String = &list[self.current];
            self.current = self.current + 1;
            assert(self@ =~= old(self)@.drop_first());
            Some(string.as_str())
        }
    }

    /// How many identifiers are still to come.
    pub fn len(&self) -> (n: usize)
        ensures
            n == self@.len(),
    {
        proof {
            use_type_invariant(self);
        }
        self.end - self.current
    }

    /// The bounds on what is still to come: both are its exact number.
    pub fn size_hint(&self) -> (hint: (usize, Option<usize>))
        ensures
            hint.0 == self@.len(),
            hint.1 == Some(hint.0),
    {
        let len = self.len();
        (len, Some(len))
    }
}

} // verus!
