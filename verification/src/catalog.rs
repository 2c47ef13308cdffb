//! The label sets that grants can refer to, as handed over by the content
//! store.

use crate::matching::{first_of, lemma_first_match, lemma_scan_done, lemma_scan_step};
use crate::models::{LabelSet, LabelSetView};
use vstd::prelude::*;

verus! {

/// The views of a run of label sets.
pub open spec fn views_of(sets: Seq<LabelSet>) -> Seq<LabelSetView> {
    sets.map_values(|set: LabelSet| set@)
}

/// The predicate "carries the external identifier `uuid`".
pub open spec fn uuid_is(uuid: Seq<char>) -> spec_fn(LabelSetView) -> bool {
    |set: LabelSetView| set.uuid == uuid
}

/// The label set that an external identifier resolves to: the first one, in
/// the catalog's order, that carries it.
pub open spec fn resolve_uuid(sets: Seq<LabelSetView>, uuid: Seq<char>) -> Option<LabelSetView> {
    first_of(sets.filter(uuid_is(uuid)))
}

/// Whether some label set of `sets` has the identifier `id`.
pub open spec fn has_id(sets: Seq<LabelSetView>, id: int) -> bool {
    exists|i: int| 0 <= i < sets.len() && (#[trigger] sets[i]).id == id
}

/// The label sets known to the content store, in its order.
pub struct LabelSetCatalog {
    sets: Vec<LabelSet>,
}

impl View for LabelSetCatalog {
    type V = Seq<LabelSetView>;

    closed spec fn view(&self) -> Seq<LabelSetView> {
        views_of(self.sets@)
    }
}

impl LabelSetCatalog {
    /// A catalog of the given label sets, in the given order.
    pub fn new(sets: Vec<LabelSet>) -> (catalog: LabelSetCatalog)
        ensures
            catalog@ == views_of(sets@),
    {
        LabelSetCatalog { sets }
    }

    /// The label sets of the catalog, in its order.
    pub fn sets(&self) -> (sets: &Vec<LabelSet>)
        ensures
            views_of(sets@) == self@,
    {
        &self.sets
    }

    /// Resolves an external identifier to the first label set that carries
    /// it.
    pub fn find_by_uuid(&self, uuid: &str) -> (found: Option<&LabelSet>)
        ensures
            match found {
                Some(set) => resolve_uuid(self@, uuid@) == Some(set@),
                None => resolve_uuid(self@, uuid@) is None,
            },
    {
        let wanted: String = uuid.to_owned();
        let mut i: usize = 0;
        while i < self.sets.len()
            invariant
                i <= self.sets.len(),
                wanted@ == uuid@,
                self@.take(i as int).filter(uuid_is(uuid@)).len() == 0,
            decreases self.sets.len() - i,
        {
            if self.sets[i].uuid == wanted {
                proof {
                    lemma_first_match(self@, uuid_is(uuid@), i as int);
                }
                return Some(&self.sets[i]);
            }
            proof {
                lemma_scan_step(self@, uuid_is(uuid@), i as int);
            }
            i += 1;
        }
        proof {
            lemma_scan_done(self@);
        }
        None
    }

    /// Whether some label set has the identifier `id`.
    pub fn contains_id(&self, id: i32) -> (present: bool)
        ensures
            present == has_id(self@, id as int),
    {
        let mut i: usize = 0;
        while i < self.sets.len()
            invariant
                i <= self.sets.len(),
                forall|j: int| 0 <= j < i ==> (#[trigger] self@[j]).id != id,
            decreases self.sets.len() - i,
        {
            if self.sets[i].id == id {
                assert(self@[i as int].id == id);
                return true;
            }
            i += 1;
        }
        false
    }
}

/// A label set that an external identifier resolves to is one of the
/// catalog's.
pub proof fn lemma_resolved_set_exists(sets: Seq<LabelSetView>, uuid: Seq<char>)
    ensures
        resolve_uuid(sets, uuid) matches Some(set) ==> has_id(sets, set.id),
{
    let hits = sets.filter(uuid_is(uuid));
    if hits.len() > 0 {
        hits.lemma_index_contains(0);
        sets.lemma_filter_contains_rev(uuid_is(uuid), hits[0]);
        let j = choose|j: int| 0 <= j < sets.len() && sets[j] == hits[0];
    }
}

} // verus!
