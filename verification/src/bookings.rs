//! Keeping, of the bookings that the service returned, those that concern
//! the rooms that were asked for. The service is not relied upon to have
//! filtered by room itself.

use vstd::prelude::*;
use crate::models::{Aula, Impegno};

verus! {

/// The identifier is one of those in the list.
pub open spec fn listed(ids: Seq<String>, id: Seq<char>) -> bool {
    exists|j: int| 0 <= j < ids.len() && (#[trigger] ids[j])@ == id
}

/// One of the rooms has an identifier that is in the list.
pub open spec fn any_listed(aule: Seq<Aula>, ids: Seq<String>) -> bool {
    exists|k: int| 0 <= k < aule.len() && listed(ids, (#[trigger] aule[k]).id@)
}

/// The booking occupies at least one of the rooms in the list.
pub open spec fn concerns(impegno: Impegno, ids: Seq<String>) -> bool {
    any_listed(impegno.aule@, ids)
}

/// The bookings that occupy at least one of the rooms in the list, in the
/// order in which they came.
pub open spec fn bookings_of(impegni: Seq<Impegno>, ids: Seq<String>) -> Seq<Impegno> {
    impegni.filter(|i: Impegno| concerns(i, ids))
}

/// Whether the identifier is one of those in the list.
pub fn is_listed(ids: &Vec<String>, id: &String) -> (r: bool)
    ensures
        r == listed(ids@, id@),
{
    let mut j: usize = 0;
    while j < ids.len()
        invariant
            j <= ids.len(),
            forall|l: int| 0 <= l < j ==> (#[trigger] ids@[l])@ != id@,
        decreases ids.len() - j,
    {
        if ids[j] == *id {
            return true;
        }
        j += 1;
    }
    false
}

/// Whether the booking occupies at least one of the rooms in the list.
pub fn concerns_rooms(impegno: &Impegno, ids: &Vec<String>) -> (r: bool)
    ensures
        r == concerns(*impegno, ids@),
{
    let mut k: usize = 0;
    while k < impegno.aule.len()
        invariant
            k <= impegno.aule.len(),
            forall|l: int| 0 <= l < k ==> !listed(ids@, (#[trigger] impegno.aule@[l]).id@),
        decreases impegno.aule.len() - k,
    {
        if is_listed(ids, &impegno.aule[k].id) {
            return true;
        }
        k += 1;
    }
    false
}

/// Keeps the bookings that occupy at least one of the rooms in the list.
pub fn filter_bookings(impegni: Vec<Impegno>, aule_ids: &Vec<String>) -> (kept: Vec<Impegno>)
    ensures
        kept@ == bookings_of(impegni@, aule_ids@),
{
    let ghost all = impegni@;
    let ghost wanted = |i: Impegno| concerns(i, aule_ids@);
    let mut kept: Vec<Impegno> = Vec::new();
    proof {
        reveal(Seq::filter);
        assert(all.take(0) =~= Seq::<Impegno>::empty());
    }
    for impegno in it: impegni
        invariant
            it.seq() == all,
            wanted == |i: Impegno| concerns(i, aule_ids@),
            kept@ == all.take(it.index() as int).filter(wanted),
    {
        proof {
            reveal(Seq::filter);
            let before = all.take(it.index() as int);
            assert(before.push(impegno).drop_last() =~= before);
            assert(before.push(impegno) =~= all.take(it.index() + 1));
        }
        if concerns_rooms(&impegno, aule_ids) {
            kept.push(impegno);
        }
    }
    proof {
        assert(all.take(all.len() as int) =~= all);
    }
    kept
}

} // verus!
