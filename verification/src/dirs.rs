//! The index of one directory, its readers, and the two ways to walk it.
//!
//! The cache that holds the assets is not part of this crate. Each step of a
//! walk is handed the cache's answer as a function from an identifier to an
//! outcome, and the contracts speak of what that function may return.

use vstd::prelude::*;
use crate::list::{StringIter, StringList, views};
use crate::names::{
    file_stem, has_extension, id_push, spec_file_stem, spec_has_extension, spec_id_push,
};

verus! {

/// Whether `f` may be called on every identifier.
pub open spec fn callable<R, F: Fn(&str) -> R>(f: &F) -> bool {
    forall|s: &str| #[trigger] f.requires((s,))
}

/// Whether `out` is an outcome that `f` may give for the identifier `id`.
pub open spec fn answers<R, F: Fn(&str) -> R>(f: &F, id: Seq<char>, out: R) -> bool {
    exists|s: &str| s@ == id && #[trigger] f.ensures((s,), out)
}

/// Whether `f` gives one outcome only for each identifier, as a cache does
/// that nothing changes meanwhile.
pub open spec fn settled<R, F: Fn(&str) -> R>(f: &F) -> bool {
    forall|id: Seq<char>, a: R, b: R| answers(f, id, a) && answers(f, id, b) ==> a == b
}

/// One step of a walk over cached assets only. From the identifiers `ids`
/// still to come, the step passes over those for which `lookup` finds
/// nothing. It yields the first value found and leaves `rest` after it, or
/// yields `None` when nothing is found up to the end.
pub open spec fn cached_step<V, F: Fn(&str) -> Option<V>>(
    ids: Seq<Seq<char>>,
    lookup: &F,
    item: Option<V>,
    rest: Seq<Seq<char>>,
) -> bool {
    match item {
        Some(v) => exists|k: int|
            0 <= k < ids.len() && #[trigger] answers(lookup, ids[k], Some(v)) && rest == ids.skip(
                k + 1,
            ) && forall|j: int| 0 <= j < k ==> answers(lookup, #[trigger] ids[j], None::<V>),
        None => rest.len() == 0 && forall|j: int|
            0 <= j < ids.len() ==> answers(lookup, #[trigger] ids[j], None::<V>),
    }
}

/// One step of a walk over all identifiers. It yields the first of `ids`
/// with an outcome of `load` for it, whatever that outcome is, and leaves
/// `rest` after it; it yields `None` only when `ids` is empty.
pub open spec fn all_step<V, E, F: Fn(&str) -> Result<V, E>>(
    ids: Seq<Seq<char>>,
    load: &F,
    item: Option<(Seq<char>, Result<V, E>)>,
    rest: Seq<Seq<char>>,
) -> bool {
    match item {
        Some((id, outcome)) => ids.len() > 0 && id == ids[0] && answers(load, id, outcome) && rest
            == ids.drop_first(),
        None => ids.len() == 0 && rest.len() == 0,
    }
}

/// A walk over the assets of a directory that are in the cache. Its view is
/// the identifiers still to be looked up.
#[derive(Debug)]
pub struct ReadDir<'a> {
    iter: StringIter<'a>,
}

impl<'a> View for ReadDir<'a> {
    type V = Seq<Seq<char>>;

    closed spec fn view(&self) -> Seq<Seq<char>> {
        self.iter@
    }
}

impl<'a> ReadDir<'a> {
    /// The next asset that `lookup` finds, or `None` when no identifier that
    /// is left has one. Identifiers without an asset are passed over.
    pub fn next<V, F: Fn(&str) -> Option<V>>(&mut self, lookup: &F) -> (item: Option<V>)
        requires
            callable(lookup),
        ensures
            cached_step(old(self)@, lookup, item, final(self)@),
    {
        let ghost ids = self@;
        let ghost mut k: int = 0;
        loop
            invariant
                callable(lookup),
                ids == old(self)@,
                0 <= k <= ids.len(),
                self@ == ids.skip(k),
                forall|j: int| 0 <= j < k ==> answers(lookup, #[trigger] ids[j], None::<V>),
            decreases self@.len(),
        {
            match self.iter.next() {
                None => {
                    return None;
                },
                Some(id) => {
                    let found = lookup(id);
                    assert(answers(lookup, ids[k], found));
                    proof {
                        assert(self@ == ids.skip(k + 1));
                    }
                    match found {
                        Some(v) => {
                            assert(answers(lookup, ids[k], Some(v)));
                            return Some(v);
                        },
                        None => {
                            proof {
                                k = k + 1;
                            }
                        },
                    }
                },
            }
        }
    }

    /// The bounds on how many assets are still to come: none at least, and
    /// at most one for each identifier that is left.
    pub fn size_hint(&self) -> (hint: (usize, Option<usize>))
        ensures
            hint.0 == 0,
            hint.1 is Some,
            hint.1->Some_0 == self@.len(),
    {
        (0, self.iter.size_hint().1)
    }
}

/// A walk over all assets of a directory, loaded or not. Its view is the
/// identifiers still to be loaded.
#[derive(Debug)]
pub struct ReadAllDir<'a> {
    iter: StringIter<'a>,
}

impl<'a> View for ReadAllDir<'a> {
    type V = Seq<Seq<char>>;

    closed spec fn view(&self) -> Seq<Seq<char>> {
        self.iter@
    }
}

impl<'a> ReadAllDir<'a> {
    /// The next identifier with what `load` gives for it, a value or an
    /// error; `None` once every identifier was given.
    pub fn next<V, E, F: Fn(&str) -> Result<V, E>>(&mut self, load: &F) -> (item: Option<
        (&'a str, Result<V, E>),
    >)
        requires
            callable(load),
        ensures
            all_step(
                old(self)@,
                load,
                match item {
                    Some((id, outcome)) => Some((id@, outcome)),
                    None => None,
                },
                final(self)@,
            ),
    {
        match self.iter.next() {
            None => None,
            Some(id) => {
                let outcome = load(id);
                assert(answers(load, id@, outcome));
                Some((id, outcome))
            },
        }
    }

    /// How many identifiers are still to come.
    pub fn len(&self) -> (n: usize)
        ensures
            n == self@.len(),
    {
        self.iter.len()
    }

    /// The bounds on what is still to come: both are its exact number.
    pub fn size_hint(&self) -> (hint: (usize, Option<usize>))
        ensures
            hint.0 == self@.len(),
            hint.1 == Some(hint.0),
    {
        self.iter.size_hint()
    }
}

/// A reader of the assets of one directory. It borrows the directory's
/// identifiers, so the index outlives it, and holds no snapshot itself: each
/// walk takes its own. Its view is the identifiers of the directory.
#[derive(Debug, Clone, Copy)]
pub struct DirReader<'a> {
    assets: &'a StringList,
}

impl<'a> View for DirReader<'a> {
    type V = Seq<Seq<char>>;

    closed spec fn view(&self) -> Seq<Seq<char>> {
        self.assets@
    }
}

impl<'a> DirReader<'a> {
    /// A walk over the assets that are in the cache, on a fresh snapshot of
    /// the directory.
    pub fn iter(&self) -> (walk: ReadDir<'a>)
        ensures
            walk@ == self@,
    {
        ReadDir { iter: self.assets.snapshot() }
    }

    /// A walk over every identifier of the directory with the outcome of
    /// loading it, on a fresh snapshot of the directory.
    pub fn iter_all(&self) -> (walk: ReadAllDir<'a>)
        ensures
            walk@ == self@,
    {
        ReadAllDir { iter: self.assets.snapshot() }
    }
}

/// One entry of a directory listing: its name, and whether it is a regular
/// file.
#[derive(Debug, Clone)]
pub struct DirEntry {
    pub name: String,
    pub is_file: bool,
}

/// Whether a scan records `entry`: it is a regular file, its name has a stem,
/// and its extension is one of `exts`.
pub open spec fn recorded(entry: DirEntry, exts: Seq<&str>) -> bool {
    spec_has_extension(entry.name@, exts) && spec_file_stem(entry.name@) is Some && entry.is_file
}

/// The identifier under which a scan below `parent` records `entry`.
pub open spec fn child_id(parent: Seq<char>, entry: DirEntry) -> Seq<char> {
    spec_id_push(parent, spec_file_stem(entry.name@)->Some_0)
}

/// The identifiers that a scan of `entries` below `parent` yields: that of
/// each recorded entry, in the order of the listing.
pub open spec fn scan_ids(entries: Seq<DirEntry>, exts: Seq<&str>, parent: Seq<char>) -> Seq<
    Seq<char>,
>
    decreases entries.len(),
{
    if entries.len() == 0 {
        Seq::empty()
    } else {
        let before = scan_ids(entries.drop_last(), exts, parent);
        if recorded(entries.last(), exts) {
            before.push(child_id(parent, entries.last()))
        } else {
            before
        }
    }
}

/// The index of one directory: the identifiers of the assets found in it, in
/// the order in which they were found, added or removed since.
#[derive(Debug)]
pub struct CachedDir {
    assets: StringList,
}

impl View for CachedDir {
    type V = Seq<Seq<char>>;

    closed spec fn view(&self) -> Seq<Seq<char>> {
        self.assets@
    }
}

impl CachedDir {
    /// Scans a directory listing. A listing that failed is the scan's
    /// failure. Otherwise each entry that is a regular file with an accepted
    /// extension is handed to `preload` under its identifier below `id`, and
    /// recorded whatever `preload` answers.
    pub fn load<E, R, F: Fn(&str) -> R>(
        listing: Result<Vec<DirEntry>, E>,
        exts: &[&str],
        id: &str,
        preload: &F,
    ) -> (dir: Result<Self, E>)
        requires
            callable(preload),
        ensures
            match listing {
                Ok(entries) => dir is Ok && dir->Ok_0@ == scan_ids(entries@, exts@, id@),
                Err(e) => dir is Err && dir->Err_0 == e,
            },
    {
        let entries = match listing {
            Ok(entries) => entries,
            Err(e) => {
                return Err(e);
            },
        };
        let mut loaded: Vec<String> = Vec::new();
        let mut i: usize = 0;
        while i < entries.len()
            invariant
                callable(preload),
                i <= entries@.len(),
                views(loaded@) == scan_ids(entries@.take(i as int), exts@, id@),
            decreases entries@.len() - i,
        {
            let entry = &entries[i];
            proof {
                assert(entries@.take(i + 1).drop_last() =~= entries@.take(i as int));
                assert(entries@.take(i + 1).last() == *entry);
            }
            if has_extension(entry.name.as_str(), exts) && entry.is_file {
                if let Some(name) = file_stem(entry.name.as_str()) {
                    let mut this_id = id.to_owned();
                    id_push(&mut this_id, name);
                    let _ = preload(this_id.as_str());
                    loaded.push(this_id);
                    assert(views(loaded@) =~= scan_ids(entries@.take(i + 1), exts@, id@));
                }
            }
            i = i + 1;
        }
        assert(entries@.take(i as int) =~= entries@);
        Ok(CachedDir { assets: StringList::from(loaded) })
    }

    /// Whether `id` is in the index.
    pub fn contains(&self, id: &str) -> (found: bool)
        ensures
            found == self@.contains(id@),
    {
        self.assets.contains(id)
    }

    /// Appends `id` to the index, whether or not it is there already.
    pub fn add(&mut self, id: String)
        ensures
            final(self)@ == old(self)@.push(id@),
    {
        self.assets.add(id);
    }

    /// Removes the first occurrence of `id` from the index; leaves the index
    /// as it is where `id` does not occur.
    pub fn remove(&mut self, id: &str)
        ensures
            final(self)@ == old(self)@.remove_value(id@),
    {
        self.assets.remove(id);
    }

    /// A reader of this directory.
    pub fn read(&self) -> (reader: DirReader<'_>)
        ensures
            reader@ == self@,
    {
        DirReader { assets: &self.assets }
    }
}

/// A scan yields exactly the identifiers of the recorded entries: an
/// identifier is among them if and only if it is that of an entry of the
/// listing that is a regular file with a stem and an accepted extension.
pub proof fn lemma_scan_exact(
    entries: Seq<DirEntry>,
    exts: Seq<&str>,
    parent: Seq<char>,
    id: Seq<char>,
)
    ensures
        scan_ids(entries, exts, parent).contains(id) <==> exists|i: int|
            0 <= i < entries.len() && recorded(#[trigger] entries[i], exts) && id == child_id(
                parent,
                entries[i],
            ),
    decreases entries.len(),
{
    if entries.len() > 0 {
        let front = entries.drop_last();
        let before = scan_ids(front, exts, parent);
        let ids = scan_ids(entries, exts, parent);
        lemma_scan_exact(front, exts, parent, id);
        if ids.contains(id) {
            let k = choose|k: int| 0 <= k < ids.len() && ids[k] == id;
            if k < before.len() {
                assert(before[k] == id);
                let i = choose|i: int|
                    0 <= i < front.len() && recorded(#[trigger] front[i], exts) && id == child_id(
                        parent,
                        front[i],
                    );
                assert(entries[i] == front[i]);
            } else {
                assert(recorded(entries[entries.len() - 1], exts));
            }
        }
        if exists|i: int|
            0 <= i < entries.len() && recorded(#[trigger] entries[i], exts) && id == child_id(
                parent,
                entries[i],
            ) {
            let i = choose|i: int|
                0 <= i < entries.len() && recorded(#[trigger] entries[i], exts) && id == child_id(
                    parent,
                    entries[i],
                );
            if i < front.len() {
                assert(front[i] == entries[i]);
                assert(before.contains(id));
                let k = choose|k: int| 0 <= k < before.len() && before[k] == id;
                assert(ids[k] == id);
            } else {
                assert(ids[ids.len() - 1] == id);
            }
        }
    }
}

/// A scan keeps the order of the listing and records one identifier for
/// each recorded entry: the scan of a listing followed by another is the
/// scan of the first followed by the scan of the second.
pub proof fn lemma_scan_concat(
    first: Seq<DirEntry>,
    second: Seq<DirEntry>,
    exts: Seq<&str>,
    parent: Seq<char>,
)
    ensures
        scan_ids(first + second, exts, parent) == scan_ids(first, exts, parent) + scan_ids(
            second,
            exts,
            parent,
        ),
    decreases second.len(),
{
    if second.len() == 0 {
        assert(first + second =~= first);
        assert(scan_ids(first, exts, parent) + Seq::<Seq<char>>::empty() =~= scan_ids(
            first,
            exts,
            parent,
        ));
    } else {
        assert((first + second).drop_last() =~= first + second.drop_last());
        assert((first + second).last() == second.last());
        lemma_scan_concat(first, second.drop_last(), exts, parent);
        let a = scan_ids(first, exts, parent);
        let b = scan_ids(second.drop_last(), exts, parent);
        if recorded(second.last(), exts) {
            assert((a + b).push(child_id(parent, second.last())) =~= a + b.push(
                child_id(parent, second.last()),
            ));
        }
    }
}

/// While the cache gives one answer for each identifier, a step of a walk
/// over cached assets has one result: two steps from the same identifiers
/// yield the same item and leave the same identifiers.
pub proof fn lemma_cached_step_settled<V, F: Fn(&str) -> Option<V>>(
    ids: Seq<Seq<char>>,
    lookup: &F,
    item1: Option<V>,
    rest1: Seq<Seq<char>>,
    item2: Option<V>,
    rest2: Seq<Seq<char>>,
)
    requires
        settled(lookup),
        cached_step(ids, lookup, item1, rest1),
        cached_step(ids, lookup, item2, rest2),
    ensures
        item1 == item2,
        rest1 == rest2,
{
    match (item1, item2) {
        (Some(v1), Some(v2)) => {
            let k1 = choose|k: int|
                0 <= k < ids.len() && #[trigger] answers(lookup, ids[k], Some(v1)) && rest1
                    == ids.skip(k + 1) && forall|j: int|
                    0 <= j < k ==> answers(lookup, #[trigger] ids[j], None::<V>);
            let k2 = choose|k: int|
                0 <= k < ids.len() && #[trigger] answers(lookup, ids[k], Some(v2)) && rest2
                    == ids.skip(k + 1) && forall|j: int|
                    0 <= j < k ==> answers(lookup, #[trigger] ids[j], None::<V>);
            if k1 < k2 {
                assert(answers(lookup, ids[k1], None::<V>));
            } else if k2 < k1 {
                assert(answers(lookup, ids[k2], None::<V>));
            }
        },
        (Some(v1), None) => {
            let k1 = choose|k: int|
                0 <= k < ids.len() && #[trigger] answers(lookup, ids[k], Some(v1)) && rest1
                    == ids.skip(k + 1) && forall|j: int|
                    0 <= j < k ==> answers(lookup, #[trigger] ids[j], None::<V>);
            assert(answers(lookup, ids[k1], None::<V>));
        },
        (None, Some(v2)) => {
            let k2 = choose|k: int|
                0 <= k < ids.len() && #[trigger] answers(lookup, ids[k], Some(v2)) && rest2
                    == ids.skip(k + 1) && forall|j: int|
                    0 <= j < k ==> answers(lookup, #[trigger] ids[j], None::<V>);
            assert(answers(lookup, ids[k2], None::<V>));
        },
        (None, None) => {
            assert(rest1 =~= rest2);
        },
    }
}

/// The values among `outcomes`, in their order.
pub open spec fn found_values<V>(outcomes: Seq<Option<V>>) -> Seq<V>
    decreases outcomes.len(),
{
    if outcomes.len() == 0 {
        Seq::empty()
    } else {
        let later = found_values(outcomes.drop_first());
        match outcomes.first() {
            Some(v) => seq![v] + later,
            None => later,
        }
    }
}

/// Whether `out` is what a whole walk over cached assets yields from `ids`:
/// the values that `lookup` finds, one identifier after the other.
pub open spec fn cached_walk<V, F: Fn(&str) -> Option<V>>(
    ids: Seq<Seq<char>>,
    lookup: &F,
    out: Seq<V>,
) -> bool {
    exists|outcomes: Seq<Option<V>>|
        outcomes.len() == ids.len() && out == #[trigger] found_values(outcomes) && forall|i: int|
            0 <= i < ids.len() ==> answers(lookup, ids[i], #[trigger] outcomes[i])
}

/// Whether `out` is what a whole walk over all identifiers yields from
/// `ids`: each identifier in its place, with an outcome of `load` for it.
pub open spec fn all_walk<V, E, F: Fn(&str) -> Result<V, E>>(
    ids: Seq<Seq<char>>,
    load: &F,
    out: Seq<(Seq<char>, Result<V, E>)>,
) -> bool {
    out.len() == ids.len() && forall|i: int|
        0 <= i < ids.len() ==> (#[trigger] out[i]).0 == ids[i] && answers(load, ids[i], out[i].1)
}

proof fn lemma_found_after_nothing<V>(k: nat, later: Seq<Option<V>>)
    ensures
        found_values(Seq::new(k, |i: int| None::<V>) + later) == found_values(later),
    decreases k,
{
    let nothing = Seq::new(k, |i: int| None::<V>);
    if k == 0 {
        assert(nothing + later =~= later);
    } else {
        assert((nothing + later).drop_first() =~= Seq::new((k - 1) as nat, |i: int| None::<V>)
            + later);
        lemma_found_after_nothing((k - 1) as nat, later);
    }
}

/// A walk over cached assets is made of its steps: a step that yields a
/// value, followed by a walk over what the step left, is a walk that yields
/// that value first; a step that yields nothing is a walk that yields
/// nothing.
pub proof fn lemma_cached_walk_steps<V, F: Fn(&str) -> Option<V>>(
    ids: Seq<Seq<char>>,
    lookup: &F,
    item: Option<V>,
    rest: Seq<Seq<char>>,
    later: Seq<V>,
)
    requires
        cached_step(ids, lookup, item, rest),
        item is Some ==> cached_walk(rest, lookup, later),
    ensures
        match item {
            Some(v) => cached_walk(ids, lookup, seq![v] + later),
            None => cached_walk(ids, lookup, Seq::<V>::empty()),
        },
{
    match item {
        Some(v) => {
            let k = choose|k: int|
                0 <= k < ids.len() && #[trigger] answers(lookup, ids[k], Some(v)) && rest
                    == ids.skip(k + 1) && forall|j: int|
                    0 <= j < k ==> answers(lookup, #[trigger] ids[j], None::<V>);
            let tail = choose|outcomes: Seq<Option<V>>|
                outcomes.len() == rest.len() && later == #[trigger] found_values(outcomes)
                    && forall|i: int|
                    0 <= i < rest.len() ==> answers(lookup, rest[i], #[trigger] outcomes[i]);
            let from_k = seq![Some(v)] + tail;
            let outcomes = Seq::new(k as nat, |i: int| None::<V>) + from_k;
            lemma_found_after_nothing(k as nat, from_k);
            assert(from_k.drop_first() =~= tail);
            assert forall|i: int| 0 <= i < ids.len() implies answers(
                lookup,
                ids[i],
                #[trigger] outcomes[i],
            ) by {
                if i > k {
                    assert(outcomes[i] == tail[i - k - 1]);
                    assert(rest[i - k - 1] == ids[i]);
                }
            }
            assert(seq![v] + later == found_values(outcomes));
        },
        None => {
            let outcomes = Seq::new(ids.len(), |i: int| None::<V>);
            lemma_found_after_nothing(ids.len(), Seq::<Option<V>>::empty());
            assert(outcomes + Seq::<Option<V>>::empty() =~= outcomes);
            assert(Seq::<V>::empty() == found_values(outcomes));
        },
    }
}

/// Two walks over cached assets yield the same values in the same order,
/// as long as the identifiers are the same and the cache gives one answer
/// for each of them.
pub proof fn lemma_cached_walk_settled<V, F: Fn(&str) -> Option<V>>(
    ids: Seq<Seq<char>>,
    lookup: &F,
    out1: Seq<V>,
    out2: Seq<V>,
)
    requires
        settled(lookup),
        cached_walk(ids, lookup, out1),
        cached_walk(ids, lookup, out2),
    ensures
        out1 == out2,
{
    let o1 = choose|outcomes: Seq<Option<V>>|
        outcomes.len() == ids.len() && out1 == #[trigger] found_values(outcomes) && forall|i: int|
            0 <= i < ids.len() ==> answers(lookup, ids[i], #[trigger] outcomes[i]);
    let o2 = choose|outcomes: Seq<Option<V>>|
        outcomes.len() == ids.len() && out2 == #[trigger] found_values(outcomes) && forall|i: int|
            0 <= i < ids.len() ==> answers(lookup, ids[i], #[trigger] outcomes[i]);
    assert(o1 =~= o2);
}

/// A walk over all identifiers is made of its steps: a step that yields an
/// item, followed by a walk over what the step left, is a walk that yields
/// that item first; the step yields nothing only where no identifier is
/// left, and the walk is then empty.
pub proof fn lemma_all_walk_steps<V, E, F: Fn(&str) -> Result<V, E>>(
    ids: Seq<Seq<char>>,
    load: &F,
    item: Option<(Seq<char>, Result<V, E>)>,
    rest: Seq<Seq<char>>,
    later: Seq<(Seq<char>, Result<V, E>)>,
)
    requires
        all_step(ids, load, item, rest),
        item is Some ==> all_walk(rest, load, later),
    ensures
        match item {
            Some(first) => all_walk(ids, load, seq![first] + later),
            None => all_walk(ids, load, Seq::<(Seq<char>, Result<V, E>)>::empty()),
        },
{
    match item {
        Some(first) => {
            let out = seq![first] + later;
            assert forall|i: int| 0 <= i < ids.len() implies (#[trigger] out[i]).0 == ids[i]
                && answers(load, ids[i], out[i].1) by {
                if i > 0 {
                    assert(out[i] == later[i - 1]);
                    assert(rest[i - 1] == ids[i]);
                }
            }
        },
        None => {},
    }
}

/// A walk over all identifiers yields as many items as there are
/// identifiers, and the identifiers in their order, whatever the outcomes
/// of loading are.
pub proof fn lemma_all_walk_exact<V, E, F: Fn(&str) -> Result<V, E>>(
    ids: Seq<Seq<char>>,
    load: &F,
    out: Seq<(Seq<char>, Result<V, E>)>,
)
    requires
        all_walk(ids, load, out),
    ensures
        out.len() == ids.len(),
        out.map_values(|item: (Seq<char>, Result<V, E>)| item.0) == ids,
{
    assert(out.map_values(|item: (Seq<char>, Result<V, E>)| item.0) =~= ids);
}

} // verus!
