use vstd::prelude::*;
use vstd::seq_lib::{to_multiset_insert, to_multiset_remove};
use crate::filters::kind::FilterKind;
use crate::filters::spatial::{BinLayout, SpatialFilter};
use crate::filters::temporal::TemporalFilter;

verus! {

/// One filter in a chain, with the id it was given and the tag of its kind.
pub struct FilterEntry<T> {
    pub id: usize,
    pub kind: FilterKind,
    pub filter: T,
}

impl<T> FilterEntry<T> {
    /// Access to the filter of this entry. The manager owns its filters
    /// outright, so access is always granted.
    pub fn try_lock(&self) -> (r: Option<&T>)
        ensures
            r == Some(&self.filter),
    {
        Some(&self.filter)
    }
}

/// The ids of `entries`, in list order.
pub open spec fn ids_of<T>(entries: Seq<FilterEntry<T>>) -> Seq<usize> {
    Seq::new(entries.len(), |i: int| entries[i].id)
}

/// The tags of `entries`, in list order.
pub open spec fn kinds_of<T>(entries: Seq<FilterEntry<T>>) -> Seq<FilterKind> {
    Seq::new(entries.len(), |i: int| entries[i].kind)
}

/// The first place in `entries` whose entry has id `id`, or the length of
/// `entries` where none has.
pub open spec fn index_of_id<T>(entries: Seq<FilterEntry<T>>, id: usize) -> int
    decreases entries.len(),
{
    if entries.len() == 0 {
        0
    } else if entries[0].id == id {
        0
    } else {
        1 + index_of_id(entries.subrange(1, entries.len() as int), id)
    }
}

/// `entries` without its first entry of id `id`; `entries` itself where no
/// entry has that id.
pub open spec fn without_id<T>(entries: Seq<FilterEntry<T>>, id: usize) -> Seq<FilterEntry<T>> {
    let pos = index_of_id(entries, id);
    if pos < entries.len() {
        entries.remove(pos)
    } else {
        entries
    }
}

/// `entries` with its first entry of id `id` taken out and put back at
/// place `index`, or at the end where `index` lies beyond it; `entries`
/// itself where no entry has that id.
pub open spec fn moved_to<T>(entries: Seq<FilterEntry<T>>, id: usize, index: usize) -> Seq<
    FilterEntry<T>,
> {
    let pos = index_of_id(entries, id);
    if pos < entries.len() {
        let rest = entries.remove(pos);
        let target = if index <= rest.len() {
            index as int
        } else {
            rest.len() as int
        };
        rest.insert(target, entries[pos])
    } else {
        entries
    }
}

/// Whether the entry at place `k` kept its id and its tag from `before` to
/// `after`.
pub open spec fn same_slot<T>(before: Seq<FilterEntry<T>>, after: Seq<FilterEntry<T>>, k: int) -> bool {
    after[k].id == before[k].id && after[k].kind == before[k].kind
}

/// Whether, in the run `stages`, the spatial filter at place `k` turned the
/// buffer it found into the one it left.
pub open spec fn spatial_step<S: SpatialFilter>(
    entries: Seq<FilterEntry<S>>,
    stages: Seq<Seq<S::Sample>>,
    k: int,
) -> bool {
    stages[k + 1].len() == stages[k].len() && entries[k].filter.maps(stages[k], stages[k + 1])
}

/// Whether `stages` records a run of the spatial chain `entries`: it holds
/// the buffer before the first filter and after each, and every filter
/// turned the buffer it found into the one it left.
pub open spec fn spatial_run<S: SpatialFilter>(
    entries: Seq<FilterEntry<S>>,
    stages: Seq<Seq<S::Sample>>,
) -> bool {
    &&& stages.len() == entries.len() + 1
    &&& forall|k: int| 0 <= k < entries.len() ==> #[trigger] spatial_step(entries, stages, k)
}

/// Whether, in the run `stages`, the temporal filter at place `k` turned the
/// frame it found into the one it left, and itself into its successor in
/// `after`.
pub open spec fn temporal_step<T: TemporalFilter>(
    before: Seq<FilterEntry<T>>,
    after: Seq<FilterEntry<T>>,
    stages: Seq<Seq<T::Sample>>,
    k: int,
) -> bool {
    stages[k + 1].len() == stages[k].len() && before[k].filter.steps(
        stages[k],
        after[k].filter,
        stages[k + 1],
    )
}

/// Whether `stages` records a run of the temporal chain that led from
/// `before` to `after`: ids, tags and order stayed, and every filter turned
/// the frame it found into the one it left and itself into its successor.
pub open spec fn temporal_run<T: TemporalFilter>(
    before: Seq<FilterEntry<T>>,
    after: Seq<FilterEntry<T>>,
    stages: Seq<Seq<T::Sample>>,
) -> bool {
    &&& after.len() == before.len()
    &&& stages.len() == before.len() + 1
    &&& forall|k: int| 0 <= k < before.len() ==> #[trigger] same_slot(before, after, k)
    &&& forall|k: int|
        0 <= k < before.len() ==> #[trigger] temporal_step(before, after, stages, k)
}

/// Whether `after` is the chain `before` with each filter re-derived for
/// `layout`: ids, tags and order stayed.
pub open spec fn relaid_all<S: SpatialFilter>(
    before: Seq<FilterEntry<S>>,
    layout: BinLayout<S::Sample>,
    after: Seq<FilterEntry<S>>,
) -> bool {
    &&& after.len() == before.len()
    &&& forall|k: int| 0 <= k < before.len() ==> #[trigger] same_slot(before, after, k)
    &&& forall|k: int|
        0 <= k < before.len() ==> #[trigger] before[k].filter.relays(layout, after[k].filter)
}

/// Whether `after` is the chain `before` with the history of each filter
/// forgotten: ids, tags and order stayed.
pub open spec fn cleared_all<T: TemporalFilter>(
    before: Seq<FilterEntry<T>>,
    after: Seq<FilterEntry<T>>,
) -> bool {
    &&& after.len() == before.len()
    &&& forall|k: int| 0 <= k < before.len() ==> #[trigger] same_slot(before, after, k)
    &&& forall|k: int|
        0 <= k < before.len() ==> #[trigger] before[k].filter.resets(after[k].filter)
}

/// A chain whose entries kept their ids and tags holds the same ids and
/// the same tags at the same places.
pub proof fn lemma_same_slots<T>(before: Seq<FilterEntry<T>>, after: Seq<FilterEntry<T>>)
    requires
        after.len() == before.len(),
        forall|k: int| 0 <= k < before.len() ==> #[trigger] same_slot(before, after, k),
    ensures
        forall|k: int| 0 <= k < before.len() ==> (#[trigger] after[k]).id == before[k].id,
        ids_of(after) == ids_of(before),
        kinds_of(after) == kinds_of(before),
{
    assert forall|k: int| 0 <= k < before.len() implies (#[trigger] after[k]).id == before[k].id
        && after[k].kind == before[k].kind by {
        assert(same_slot(before, after, k));
    }
    assert(ids_of(after) =~= ids_of(before));
    assert(kinds_of(after) =~= kinds_of(before));
}

/// `index_of_id` is the least place that holds the id.
pub proof fn lemma_index_of_id<T>(entries: Seq<FilterEntry<T>>, id: usize)
    ensures
        0 <= index_of_id(entries, id) <= entries.len(),
        index_of_id(entries, id) < entries.len() ==> entries[index_of_id(entries, id)].id == id,
        forall|j: int| 0 <= j < index_of_id(entries, id) ==> entries[j].id != id,
    decreases entries.len(),
{
    if entries.len() > 0 && entries[0].id != id {
        let tail = entries.subrange(1, entries.len() as int);
        lemma_index_of_id(tail, id);
        assert forall|j: int| 0 <= j < index_of_id(entries, id) implies entries[j].id != id by {
            if j > 0 {
                assert(tail[j - 1] == entries[j]);
            }
        }
    }
}

/// The id that a manager will give next is carried by none of its entries:
/// an id, once given, is never given again.
pub proof fn lemma_next_id_is_fresh<S: SpatialFilter, T: TemporalFilter<Sample = S::Sample>>(
    manager: FilterManager<S, T>,
)
    requires
        manager.wf(),
    ensures
        forall|i: int|
            0 <= i < manager.spatial().len() ==> (#[trigger] manager.spatial()[i]).id
                != manager.next_id_spec(),
        forall|i: int|
            0 <= i < manager.temporal().len() ==> (#[trigger] manager.temporal()[i]).id
                != manager.next_id_spec(),
{
}

/// Once an id has been removed from a chain in which no id occurs twice, no
/// entry of the chain carries it.
pub proof fn lemma_removed_id_is_gone<T>(entries: Seq<FilterEntry<T>>, id: usize)
    requires
        forall|i: int, j: int|
            0 <= i < j < entries.len() ==> (#[trigger] entries[i]).id != (#[trigger] entries[j]).id,
    ensures
        forall|k: int|
            0 <= k < without_id(entries, id).len() ==> (#[trigger] without_id(entries, id)[k]).id
                != id,
{
    lemma_index_of_id(entries, id);
    let pos = index_of_id(entries, id);
    assert forall|k: int| 0 <= k < without_id(entries, id).len() implies (#[trigger] without_id(
        entries,
        id,
    )[k]).id != id by {
        if pos < entries.len() {
            if k < pos {
                assert(without_id(entries, id)[k] == entries[k]);
            } else {
                assert(without_id(entries, id)[k] == entries[k + 1]);
            }
        } else {
            assert(without_id(entries, id)[k] == entries[k]);
        }
    }
}

/// Running a chain and then a second chain on what the first left is
/// running the two chains joined: the second run picks up where the first
/// one ended.
pub proof fn lemma_spatial_runs_join<S: SpatialFilter>(
    first: Seq<FilterEntry<S>>,
    second: Seq<FilterEntry<S>>,
    across_first: Seq<Seq<S::Sample>>,
    across_second: Seq<Seq<S::Sample>>,
)
    requires
        spatial_run(first, across_first),
        spatial_run(second, across_second),
        across_first.last() == across_second.first(),
    ensures
        spatial_run(first + second, across_first + across_second.drop_first()),
        (across_first + across_second.drop_first()).first() == across_first.first(),
        (across_first + across_second.drop_first()).last() == across_second.last(),
{
    let chain = first + second;
    let stages = across_first + across_second.drop_first();
    assert forall|k: int| 0 <= k < chain.len() implies #[trigger] spatial_step(
        chain,
        stages,
        k,
    ) by {
        if k < first.len() {
            assert(spatial_step(first, across_first, k));
            assert(chain[k] == first[k]);
            assert(stages[k] == across_first[k]);
            if k + 1 < across_first.len() {
                assert(stages[k + 1] == across_first[k + 1]);
            }
        } else {
            let j = k - first.len();
            assert(spatial_step(second, across_second, j));
            assert(chain[k] == second[j]);
            assert(stages[k + 1] == across_second[j + 1]);
            if j == 0 {
                assert(stages[k] == across_first.last());
            } else {
                assert(stages[k] == across_second[j]);
            }
        }
    }
}

/// Moving an entry permutes the chain: the moved chain holds the entries
/// of the old one, each as often as before.
pub proof fn lemma_moved_is_permutation<T>(entries: Seq<FilterEntry<T>>, id: usize, index: usize)
    ensures
        moved_to(entries, id, index).to_multiset() == entries.to_multiset(),
        moved_to(entries, id, index).len() == entries.len(),
{
    lemma_index_of_id(entries, id);
    let pos = index_of_id(entries, id);
    if pos < entries.len() {
        let rest = entries.remove(pos);
        let target = if index <= rest.len() {
            index as int
        } else {
            rest.len() as int
        };
        broadcast use vstd::multiset::group_multiset_axioms;

        to_multiset_remove(entries, pos);
        to_multiset_insert(rest, target, entries[pos]);
        entries.to_multiset_ensures();
        assert(entries.to_multiset().count(entries[pos]) > 0);
        assert(rest.to_multiset().insert(entries[pos]) =~= entries.to_multiset());
    }
}

/// The tags of `entries`, in list order.
fn kinds_in<T>(entries: &Vec<FilterEntry<T>>) -> (r: Vec<FilterKind>)
    ensures
        r@ == kinds_of(entries@),
{
    let mut kinds: Vec<FilterKind> = Vec::new();
    let mut i: usize = 0;
    while i < entries.len()
        invariant
            i <= entries@.len(),
            kinds@.len() == i,
            forall|j: int| 0 <= j < i ==> kinds@[j] == entries@[j].kind,
        decreases entries@.len() - i,
    {
        kinds.push(entries[i].kind);
        i += 1;
    }
    assert(kinds@ =~= kinds_of(entries@));
    kinds
}

/// Whether an entry of `entries` carries the tag `kind`.
fn has_kind<T>(entries: &Vec<FilterEntry<T>>, kind: FilterKind) -> (r: bool)
    ensures
        r == kinds_of(entries@).contains(kind),
{
    let mut i: usize = 0;
    while i < entries.len()
        invariant
            i <= entries@.len(),
            forall|j: int| 0 <= j < i ==> entries@[j].kind != kind,
        decreases entries@.len() - i,
    {
        if entries[i].kind == kind {
            assert(kinds_of(entries@)[i as int] == kind);
            return true;
        }
        i += 1;
    }
    assert forall|j: int| 0 <= j < kinds_of(entries@).len() implies kinds_of(entries@)[j]
        != kind by {
        assert(kinds_of(entries@)[j] == entries@[j].kind);
    }
    false
}

/// The place of the entry with id `id` in `entries`.
fn position_of<T>(entries: &Vec<FilterEntry<T>>, id: usize) -> (r: Option<usize>)
    ensures
        match r {
            Some(pos) => pos < entries@.len() && pos == index_of_id(entries@, id),
            None => index_of_id(entries@, id) == entries@.len(),
        },
{
    let mut i: usize = 0;
    while i < entries.len()
        invariant
            i <= entries@.len(),
            forall|j: int| 0 <= j < i ==> entries@[j].id != id,
        decreases entries@.len() - i,
    {
        if entries[i].id == id {
            proof {
                lemma_index_of_id(entries@, id);
            }
            return Some(i);
        }
        i += 1;
    }
    proof {
        lemma_index_of_id(entries@, id);
    }
    None
}

/// The owner of the two filter chains. List order is application order, and
/// one counter hands out the ids of both chains.
pub struct FilterManager<S, T> {
    spatial_filters: Vec<FilterEntry<S>>,
    temporal_filters: Vec<FilterEntry<T>>,
    next_id: usize,
}

impl<S: SpatialFilter, T: TemporalFilter<Sample = S::Sample>> FilterManager<S, T> {
    /// The spatial chain, in application order.
    pub closed spec fn spatial(&self) -> Seq<FilterEntry<S>> {
        self.spatial_filters@
    }

    /// The temporal chain, in application order.
    pub closed spec fn temporal(&self) -> Seq<FilterEntry<T>> {
        self.temporal_filters@
    }

    /// The id that the next added filter will get.
    pub closed spec fn next_id_spec(&self) -> usize {
        self.next_id
    }

    /// Every id in use lies below the counter, and no id is in use twice,
    /// within a chain or across the two.
    pub open spec fn wf(&self) -> bool {
        &&& forall|i: int|
            0 <= i < self.spatial().len() ==> (#[trigger] self.spatial()[i]).id
                < self.next_id_spec()
        &&& forall|i: int|
            0 <= i < self.temporal().len() ==> (#[trigger] self.temporal()[i]).id
                < self.next_id_spec()
        &&& forall|i: int, j: int|
            0 <= i < j < self.spatial().len() ==> (#[trigger] self.spatial()[i]).id != (
            #[trigger] self.spatial()[j]).id
        &&& forall|i: int, j: int|
            0 <= i < j < self.temporal().len() ==> (#[trigger] self.temporal()[i]).id != (
            #[trigger] self.temporal()[j]).id
        &&& forall|i: int, j: int|
            0 <= i < self.spatial().len() && 0 <= j < self.temporal().len() ==> (
            #[trigger] self.spatial()[i]).id != (#[trigger] self.temporal()[j]).id
    }

    /// A manager with two empty chains, whose first id will be 0.
    pub fn new() -> (m: Self)
        ensures
            m.wf(),
            m.spatial() == Seq::<FilterEntry<S>>::empty(),
            m.temporal() == Seq::<FilterEntry<T>>::empty(),
            m.next_id_spec() == 0,
    {
        FilterManager { spatial_filters: Vec::new(), temporal_filters: Vec::new(), next_id: 0 }
    }

    /// Takes the next id off the counter.
    fn gen_id(&mut self) -> (id: usize)
        requires
            old(self).next_id_spec() < usize::MAX,
        ensures
            id == old(self).next_id_spec(),
            final(self).next_id_spec() == id + 1,
            final(self).spatial() == old(self).spatial(),
            final(self).temporal() == old(self).temporal(),
    {
        let id = self.next_id;
        self.next_id += 1;
        id
    }

    /// The spatial chain, in application order.
    pub fn spatial_filters(&self) -> (r: &Vec<FilterEntry<S>>)
        ensures
            r@ == self.spatial(),
    {
        &self.spatial_filters
    }

    /// The temporal chain, in application order.
    pub fn temporal_filters(&self) -> (r: &Vec<FilterEntry<T>>)
        ensures
            r@ == self.temporal(),
    {
        &self.temporal_filters
    }

    /// The id that the next added filter will get.
    pub fn next_id(&self) -> (r: usize)
        ensures
            r == self.next_id_spec(),
    {
        self.next_id
    }

    /// The tags of the spatial chain, in list order.
    pub fn active_spatial_filters_types(&self) -> (r: Vec<FilterKind>)
        ensures
            r@ == kinds_of(self.spatial()),
    {
        kinds_in(&self.spatial_filters)
    }

    /// The tags of the temporal chain, in list order.
    pub fn active_temporal_filters_types(&self) -> (r: Vec<FilterKind>)
        ensures
            r@ == kinds_of(self.temporal()),
    {
        kinds_in(&self.temporal_filters)
    }

    /// Whether the spatial chain holds a filter of kind `kind`.
    pub fn is_spatial_active_type(&self, kind: FilterKind) -> (r: bool)
        ensures
            r == kinds_of(self.spatial()).contains(kind),
    {
        has_kind(&self.spatial_filters, kind)
    }

    /// Whether the temporal chain holds a filter of kind `kind`.
    pub fn is_temporal_active_type(&self, kind: FilterKind) -> (r: bool)
        ensures
            r == kinds_of(self.temporal()).contains(kind),
    {
        has_kind(&self.temporal_filters, kind)
    }

    /// Whether the spatial chain holds a filter of the kind of `filter`.
    pub fn is_spatial_active(&self, filter: &S) -> (r: bool)
        ensures
            exists|k: FilterKind|
                #[trigger] filter.tagged(k) && r == kinds_of(self.spatial()).contains(k),
    {
        self.is_spatial_active_type(filter.kind())
    }

    /// Appends `filter` to the spatial chain under a fresh id, and returns
    /// that id.
    pub fn add_spatial_filter(&mut self, filter: S) -> (id: usize)
        requires
            old(self).wf(),
            old(self).next_id_spec() < usize::MAX,
        ensures
            final(self).wf(),
            id == old(self).next_id_spec(),
            final(self).next_id_spec() == id + 1,
            final(self).spatial().len() == old(self).spatial().len() + 1,
            final(self).spatial().drop_last() == old(self).spatial(),
            final(self).spatial().last().id == id,
            final(self).spatial().last().filter == filter,
            filter.tagged(final(self).spatial().last().kind),
            final(self).temporal() == old(self).temporal(),
    {
        let kind = filter.kind();
        let id = self.gen_id();
        self.spatial_filters.push(FilterEntry { id, kind, filter });
        id
    }

    /// Takes the filter with id `id` out of the spatial chain; the others
    /// keep their order. An id that is not in the chain changes nothing.
    pub fn remove_spatial_filter(&mut self, id: usize)
        requires
            old(self).wf(),
        ensures
            final(self).wf(),
            final(self).next_id_spec() == old(self).next_id_spec(),
            final(self).temporal() == old(self).temporal(),
            final(self).spatial() == without_id(old(self).spatial(), id),
    {
        if let Some(idx) = position_of(&self.spatial_filters, id) {
            self.spatial_filters.remove(idx);
        }
    }

    /// Moves the filter with id `id` to place `index` of the spatial chain,
    /// or to its end where `index` lies beyond it. An id that is not in the
    /// chain changes nothing.
    pub fn move_spatial_filter(&mut self, id: usize, index: usize)
        requires
            old(self).wf(),
        ensures
            final(self).wf(),
            final(self).next_id_spec() == old(self).next_id_spec(),
            final(self).temporal() == old(self).temporal(),
            final(self).spatial() == moved_to(old(self).spatial(), id, index),
    {
        if let Some(pos) = position_of(&self.spatial_filters, id) {
            let entry = self.spatial_filters.remove(pos);
            let len = self.spatial_filters.len();
            let new_index = if index <= len {
                index
            } else {
                len
            };
            self.spatial_filters.insert(new_index, entry);
        }
    }

    /// Appends `filter` to the temporal chain under a fresh id, and returns
    /// that id.
    pub fn add_temporal_filter(&mut self, filter: T) -> (id: usize)
        requires
            old(self).wf(),
            old(self).next_id_spec() < usize::MAX,
        ensures
            final(self).wf(),
            id == old(self).next_id_spec(),
            final(self).next_id_spec() == id + 1,
            final(self).temporal().len() == old(self).temporal().len() + 1,
            final(self).temporal().drop_last() == old(self).temporal(),
            final(self).temporal().last().id == id,
            final(self).temporal().last().filter == filter,
            filter.tagged(final(self).temporal().last().kind),
            final(self).spatial() == old(self).spatial(),
    {
        let kind = filter.kind();
        let id = self.gen_id();
        self.temporal_filters.push(FilterEntry { id, kind, filter });
        id
    }

    /// Takes the filter with id `id` out of the temporal chain; the others
    /// keep their order. An id that is not in the chain changes nothing.
    pub fn remove_temporal_filter(&mut self, id: usize)
        requires
            old(self).wf(),
        ensures
            final(self).wf(),
            final(self).next_id_spec() == old(self).next_id_spec(),
            final(self).spatial() == old(self).spatial(),
            final(self).temporal() == without_id(old(self).temporal(), id),
    {
        if let Some(idx) = position_of(&self.temporal_filters, id) {
            self.temporal_filters.remove(idx);
        }
    }

    /// Moves the filter with id `id` to place `index` of the temporal chain,
    /// or to its end where `index` lies beyond it. An id that is not in the
    /// chain changes nothing.
    pub fn move_temporal_filter(&mut self, id: usize, index: usize)
        requires
            old(self).wf(),
        ensures
            final(self).wf(),
            final(self).next_id_spec() == old(self).next_id_spec(),
            final(self).spatial() == old(self).spatial(),
            final(self).temporal() == moved_to(old(self).temporal(), id, index),
    {
        if let Some(pos) = position_of(&self.temporal_filters, id) {
            let entry = self.temporal_filters.remove(pos);
            let len = self.temporal_filters.len();
            let new_index = if index <= len {
                index
            } else {
                len
            };
            self.temporal_filters.insert(new_index, entry);
        }
    }

    /// The filter with id `id` in the spatial chain, to be changed in place;
    /// nothing where no entry of the chain has that id. Whatever is done to
    /// the filter, its entry keeps its place, its id and its tag.
    pub fn spatial_filter_mut(&mut self, id: usize) -> (r: Option<&mut S>)
        requires
            old(self).wf(),
        ensures
            final(self).wf(),
            final(self).temporal() == old(self).temporal(),
            final(self).next_id_spec() == old(self).next_id_spec(),
            match r {
                Some(filter) => {
                    let pos = index_of_id(old(self).spatial(), id);
                    &&& pos < old(self).spatial().len()
                    &&& *filter == old(self).spatial()[pos].filter
                    &&& final(self).spatial() == old(self).spatial().update(
                        pos,
                        (FilterEntry {
                            id: old(self).spatial()[pos].id,
                            kind: old(self).spatial()[pos].kind,
                            filter: *final(filter),
                        }),
                    )
                },
                None => index_of_id(old(self).spatial(), id) == old(self).spatial().len()
                    && final(self).spatial() == old(self).spatial(),
            },
    {
        match position_of(&self.spatial_filters, id) {
            Some(pos) => Some(&mut self.spatial_filters[pos].filter),
            None => None,
        }
    }

    /// The filter with id `id` in the temporal chain, to be changed in place;
    /// nothing where no entry of the chain has that id. Whatever is done to
    /// the filter, its entry keeps its place, its id and its tag.
    pub fn temporal_filter_mut(&mut self, id: usize) -> (r: Option<&mut T>)
        requires
            old(self).wf(),
        ensures
            final(self).wf(),
            final(self).spatial() == old(self).spatial(),
            final(self).next_id_spec() == old(self).next_id_spec(),
            match r {
                Some(filter) => {
                    let pos = index_of_id(old(self).temporal(), id);
                    &&& pos < old(self).temporal().len()
                    &&& *filter == old(self).temporal()[pos].filter
                    &&& final(self).temporal() == old(self).temporal().update(
                        pos,
                        (FilterEntry {
                            id: old(self).temporal()[pos].id,
                            kind: old(self).temporal()[pos].kind,
                            filter: *final(filter),
                        }),
                    )
                },
                None => index_of_id(old(self).temporal(), id) == old(self).temporal().len()
                    && final(self).temporal() == old(self).temporal(),
            },
    {
        match position_of(&self.temporal_filters, id) {
            Some(pos) => Some(&mut self.temporal_filters[pos].filter),
            None => None,
        }
    }

    /// Runs the spatial chain over the buffer: each filter in list order,
    /// each on what its predecessor left.
    pub fn apply_spatial_filters(&self, samples: &mut Vec<S::Sample>)
        ensures
            final(samples)@.len() == old(samples)@.len(),
            exists|stages: Seq<Seq<S::Sample>>|
                #[trigger] spatial_run(self.spatial(), stages) && stages.first() == old(samples)@
                    && stages.last() == final(samples)@,
    {
        let ghost mut stages: Seq<Seq<S::Sample>> = seq![samples@];
        let mut i: usize = 0;
        assert(self.spatial_filters@.take(0).len() == 0);
        while i < self.spatial_filters.len()
            invariant
                i <= self.spatial_filters@.len(),
                spatial_run(self.spatial_filters@.take(i as int), stages),
                stages.first() == old(samples)@,
                stages.last() == samples@,
                samples@.len() == old(samples)@.len(),
            decreases self.spatial_filters@.len() - i,
        {
            let ghost found = stages;
            self.spatial_filters[i].filter.process(samples);
            proof {
                stages = found.push(samples@);
                let seen = self.spatial_filters@.take(i as int);
                let done = self.spatial_filters@.take(i + 1);
                assert forall|k: int| 0 <= k < done.len() implies #[trigger] spatial_step(
                    done,
                    stages,
                    k,
                ) by {
                    if k < i {
                        assert(spatial_step(seen, found, k));
                        assert(seen[k] == done[k]);
                    }
                }
            }
            i += 1;
        }
        assert(self.spatial_filters@.take(i as int) == self.spatial_filters@);
        assert(spatial_run(self.spatial(), stages));
    }

    /// Runs the temporal chain over the frame: each filter in list order,
    /// each on what its predecessor left, and each remembers what it saw.
    pub fn apply_temporal_filters(&mut self, samples: &mut Vec<T::Sample>)
        requires
            old(self).wf(),
        ensures
            final(self).wf(),
            final(samples)@.len() == old(samples)@.len(),
            exists|stages: Seq<Seq<T::Sample>>|
                #[trigger] temporal_run(old(self).temporal(), final(self).temporal(), stages)
                    && stages.first() == old(samples)@ && stages.last() == final(samples)@,
            final(self).spatial() == old(self).spatial(),
            final(self).next_id_spec() == old(self).next_id_spec(),
    {
        let ghost before = self.temporal_filters@;
        let ghost mut stages: Seq<Seq<T::Sample>> = seq![samples@];
        let mut i: usize = 0;
        while i < self.temporal_filters.len()
            invariant
                i <= before.len(),
                self.temporal_filters@.len() == before.len(),
                self.spatial_filters@ == old(self).spatial_filters@,
                self.next_id == old(self).next_id,
                stages.len() == i + 1,
                stages.first() == old(samples)@,
                stages.last() == samples@,
                samples@.len() == old(samples)@.len(),
                forall|k: int| 0 <= k < i ==> #[trigger] same_slot(before, self.temporal_filters@, k),
                forall|k: int|
                    0 <= k < i ==> #[trigger] temporal_step(
                        before,
                        self.temporal_filters@,
                        stages,
                        k,
                    ),
                forall|k: int| i <= k < before.len() ==> self.temporal_filters@[k] == before[k],
            decreases before.len() - i,
        {
            let ghost found = stages;
            let ghost chain = self.temporal_filters@;
            self.temporal_filters[i].filter.process(samples);
            proof {
                stages = found.push(samples@);
                let now = self.temporal_filters@;
                assert forall|k: int| 0 <= k < i + 1 implies #[trigger] same_slot(
                    before,
                    now,
                    k,
                ) by {
                    if k < i {
                        assert(same_slot(before, chain, k));
                        assert(now[k] == chain[k]);
                    }
                }
                assert forall|k: int| 0 <= k < i + 1 implies #[trigger] temporal_step(
                    before,
                    now,
                    stages,
                    k,
                ) by {
                    if k < i {
                        assert(temporal_step(before, chain, found, k));
                        assert(now[k] == chain[k]);
                    }
                }
            }
            i += 1;
        }
        proof {
            lemma_same_slots(before, self.temporal_filters@);
            assert(temporal_run(before, self.temporal(), stages));
        }
    }

    /// Runs both chains over the frame: the spatial chain first, then the
    /// temporal chain on what the spatial chain left.
    pub fn apply_filters(&mut self, samples: &mut Vec<S::Sample>)
        requires
            old(self).wf(),
        ensures
            final(self).wf(),
            final(samples)@.len() == old(samples)@.len(),
            exists|across: Seq<Seq<S::Sample>>, over: Seq<Seq<S::Sample>>|
                {
                    &&& #[trigger] spatial_run(old(self).spatial(), across)
                    &&& #[trigger] temporal_run(old(self).temporal(), final(self).temporal(), over)
                    &&& across.first() == old(samples)@
                    &&& over.first() == across.last()
                    &&& over.last() == final(samples)@
                },
            final(self).spatial() == old(self).spatial(),
            final(self).next_id_spec() == old(self).next_id_spec(),
    {
        self.apply_spatial_filters(samples);
        self.apply_temporal_filters(samples);
    }

    /// Hands `layout` to every spatial filter, which re-derives what it
    /// precomputes per bin. Ids, tags and order stay.
    pub fn refresh_layout(&mut self, layout: &BinLayout<S::Sample>)
        requires
            old(self).wf(),
        ensures
            final(self).wf(),
            relaid_all(old(self).spatial(), *layout, final(self).spatial()),
            final(self).temporal() == old(self).temporal(),
            final(self).next_id_spec() == old(self).next_id_spec(),
    {
        let ghost before = self.spatial_filters@;
        let mut i: usize = 0;
        while i < self.spatial_filters.len()
            invariant
                i <= before.len(),
                self.spatial_filters@.len() == before.len(),
                self.temporal_filters@ == old(self).temporal_filters@,
                self.next_id == old(self).next_id,
                forall|k: int| 0 <= k < i ==> #[trigger] same_slot(before, self.spatial_filters@, k),
                forall|k: int|
                    0 <= k < i ==> #[trigger] before[k].filter.relays(
                        *layout,
                        self.spatial_filters@[k].filter,
                    ),
                forall|k: int| i <= k < before.len() ==> self.spatial_filters@[k] == before[k],
            decreases before.len() - i,
        {
            let ghost chain = self.spatial_filters@;
            self.spatial_filters[i].filter.on_layout_change(layout);
            proof {
                let now = self.spatial_filters@;
                assert forall|k: int| 0 <= k < i + 1 implies #[trigger] same_slot(
                    before,
                    now,
                    k,
                ) by {
                    if k < i {
                        assert(same_slot(before, chain, k));
                        assert(now[k] == chain[k]);
                    }
                }
                assert forall|k: int| 0 <= k < i + 1 implies #[trigger] before[k].filter.relays(
                    *layout,
                    now[k].filter,
                ) by {
                    if k < i {
                        assert(before[k].filter.relays(*layout, chain[k].filter));
                        assert(now[k] == chain[k]);
                    }
                }
            }
            i += 1;
        }
        proof {
            lemma_same_slots(before, self.spatial_filters@);
        }
    }

    /// Makes every temporal filter forget its history. Ids, tags and order
    /// stay.
    pub fn reset_temporal_filters(&mut self)
        requires
            old(self).wf(),
        ensures
            final(self).wf(),
            cleared_all(old(self).temporal(), final(self).temporal()),
            final(self).spatial() == old(self).spatial(),
            final(self).next_id_spec() == old(self).next_id_spec(),
    {
        let ghost before = self.temporal_filters@;
        let mut i: usize = 0;
        while i < self.temporal_filters.len()
            invariant
                i <= before.len(),
                self.temporal_filters@.len() == before.len(),
                self.spatial_filters@ == old(self).spatial_filters@,
                self.next_id == old(self).next_id,
                forall|k: int| 0 <= k < i ==> #[trigger] same_slot(before, self.temporal_filters@, k),
                forall|k: int|
                    0 <= k < i ==> #[trigger] before[k].filter.resets(
                        self.temporal_filters@[k].filter,
                    ),
                forall|k: int| i <= k < before.len() ==> self.temporal_filters@[k] == before[k],
            decreases before.len() - i,
        {
            let ghost chain = self.temporal_filters@;
            self.temporal_filters[i].filter.reset();
            proof {
                let now = self.temporal_filters@;
                assert forall|k: int| 0 <= k < i + 1 implies #[trigger] same_slot(
                    before,
                    now,
                    k,
                ) by {
                    if k < i {
                        assert(same_slot(before, chain, k));
                        assert(now[k] == chain[k]);
                    }
                }
                assert forall|k: int| 0 <= k < i + 1 implies #[trigger] before[k].filter.resets(
                    now[k].filter,
                ) by {
                    if k < i {
                        assert(before[k].filter.resets(chain[k].filter));
                        assert(now[k] == chain[k]);
                    }
                }
            }
            i += 1;
        }
        proof {
            lemma_same_slots(before, self.temporal_filters@);
        }
    }
}

} // verus!
