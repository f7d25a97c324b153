use vstd::prelude::*;
use crate::filters::kind::FilterKind;

verus! {

/// A spatial filter that can be offered for adding: its tag and the name it
/// is offered under.
pub struct SpatialFactory {
    pub kind: FilterKind,
    pub name: &'static str,
}

/// The spatial filters on offer, in the order they are offered: the
/// Gaussian smoothing filter, then the A-weighting curve.
pub open spec fn spatial_offer() -> Seq<(FilterKind, Seq<char>)> {
    seq![(FilterKind::Gaussian, "Gaussian"@), (FilterKind::AWeighting, "A-Weighting"@)]
}

/// The spatial filters on offer, in the order they are offered.
pub fn spatial_factories() -> (r: Vec<SpatialFactory>)
    ensures
        r@.len() == spatial_offer().len(),
        forall|i: int|
            0 <= i < r@.len() ==> (#[trigger] r@[i]).kind == spatial_offer()[i].0 && r@[i].name@
                == spatial_offer()[i].1,
{
    let mut offer: Vec<SpatialFactory> = Vec::new();
    offer.push(SpatialFactory { kind: FilterKind::Gaussian, name: "Gaussian" });
    offer.push(SpatialFactory { kind: FilterKind::AWeighting, name: "A-Weighting" });
    offer
}

/// Those of `offer`, in order, whose kind is not among `active`.
pub open spec fn addable(offer: Seq<(FilterKind, Seq<char>)>, active: Seq<FilterKind>) -> Seq<
    (FilterKind, Seq<char>),
>
    decreases offer.len(),
{
    if offer.len() == 0 {
        offer
    } else if active.contains(offer.last().0) {
        addable(offer.drop_last(), active)
    } else {
        addable(offer.drop_last(), active).push(offer.last())
    }
}

/// The kind and the name of each of `factories`, in order.
pub open spec fn offer_of(factories: Seq<SpatialFactory>) -> Seq<(FilterKind, Seq<char>)> {
    Seq::new(factories.len(), |i: int| (factories[i].kind, factories[i].name@))
}

/// Whether `kind` is among `kinds`.
fn holds_kind(kinds: &Vec<FilterKind>, kind: FilterKind) -> (r: bool)
    ensures
        r == kinds@.contains(kind),
{
    let mut i: usize = 0;
    while i < kinds.len()
        invariant
            i <= kinds@.len(),
            forall|j: int| 0 <= j < i ==> kinds@[j] != kind,
        decreases kinds@.len() - i,
    {
        if kinds[i] == kind {
            return true;
        }
        i += 1;
    }
    false
}

/// The spatial filters that can still be added to a chain whose kinds are
/// `active`: those on offer, in the order they are offered, whose kind the
/// chain does not hold yet.
pub fn addable_spatial_factories(active: &Vec<FilterKind>) -> (r: Vec<SpatialFactory>)
    ensures
        offer_of(r@) == addable(spatial_offer(), active@),
{
    let offer = spatial_factories();
    assert(offer_of(offer@) =~= spatial_offer());
    let mut open: Vec<SpatialFactory> = Vec::new();
    let mut i: usize = 0;
    assert(offer_of(offer@).take(0) =~= Seq::empty());
    assert(offer_of(open@) =~= Seq::empty());
    while i < offer.len()
        invariant
            i <= offer@.len(),
            offer_of(open@) == addable(offer_of(offer@).take(i as int), active@),
        decreases offer@.len() - i,
    {
        let ghost seen = offer_of(offer@).take(i as int);
        let ghost next = offer_of(offer@).take(i + 1);
        let ghost before = open@;
        assert(next.drop_last() =~= seen);
        assert(next.last() == (offer@[i as int].kind, offer@[i as int].name@));
        if !holds_kind(active, offer[i].kind) {
            open.push(SpatialFactory { kind: offer[i].kind, name: offer[i].name });
            assert(offer_of(open@) =~= offer_of(before).push(next.last()));
        }
        i += 1;
    }
    assert(offer_of(offer@).take(i as int) =~= offer_of(offer@));
    open
}

} // verus!
