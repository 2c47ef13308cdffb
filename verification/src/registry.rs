//! The ownership registry: which user has been granted which label set.

use crate::catalog::{has_id, views_of, LabelSetCatalog};
use crate::errors::CoreError;
use crate::matching::{lemma_all_fail, lemma_scan_done, lemma_scan_step};
use crate::models::{Grant, LabelSet, LabelSetView, UserLabelSet};
use vstd::prelude::*;

verus! {

/// The grants that a run of rows stands for.
pub open spec fn grants_of(rows: Seq<UserLabelSet>) -> Seq<Grant> {
    rows.map_values(|row: UserLabelSet| row@)
}

/// The predicate "is the grant of `label_set` to `user`".
pub open spec fn is_pair(user: int, label_set: int) -> spec_fn(Grant) -> bool {
    |grant: Grant| grant.user == user && grant.label_set == label_set
}

/// The predicate "is any grant but that of `label_set` to `user`".
pub open spec fn is_other_pair(user: int, label_set: int) -> spec_fn(Grant) -> bool {
    |grant: Grant| !(grant.user == user && grant.label_set == label_set)
}

/// How many rows grant `label_set` to `user`.
pub open spec fn match_count(rows: Seq<Grant>, user: int, label_set: int) -> nat {
    rows.filter(is_pair(user, label_set)).len()
}

/// Whether `label_set` is granted to `user`.
pub open spec fn is_granted(rows: Seq<Grant>, user: int, label_set: int) -> bool {
    rows.contains(Grant { user, label_set })
}

/// The uniqueness invariant: no grant is recorded twice.
pub open spec fn unique(rows: Seq<Grant>) -> bool {
    rows.no_duplicates()
}

/// How a request to grant a label set ends.
#[derive(Clone, Copy, Debug, PartialEq, Eq, Structural)]
pub enum GrantOutcome {
    /// The grant was recorded.
    Granted,
    /// The grant was there already; nothing changed.
    AlreadyGranted,
    /// No such label set exists; nothing changed.
    ResourceNotFound,
}

/// How a request to revoke a grant ends.
#[derive(Clone, Copy, Debug, PartialEq, Eq, Structural)]
pub enum RevokeOutcome {
    /// No such grant was recorded; nothing changed.
    NotGranted,
    /// The grant was removed.
    Revoked,
    /// More than one matching row was removed: the uniqueness invariant had
    /// been broken.
    InvariantViolation,
}

/// The outcome of granting `label_set` to `user`.
pub open spec fn grant_outcome(
    rows: Seq<Grant>,
    sets: Seq<LabelSetView>,
    user: int,
    label_set: int,
) -> GrantOutcome {
    if !has_id(sets, label_set) {
        GrantOutcome::ResourceNotFound
    } else if is_granted(rows, user, label_set) {
        GrantOutcome::AlreadyGranted
    } else {
        GrantOutcome::Granted
    }
}

/// The rows after granting `label_set` to `user`: a new row at the end when
/// the outcome is `Granted`, and the same rows otherwise.
pub open spec fn after_grant(
    rows: Seq<Grant>,
    sets: Seq<LabelSetView>,
    user: int,
    label_set: int,
) -> Seq<Grant> {
    if grant_outcome(rows, sets, user, label_set) == GrantOutcome::Granted {
        rows.push(Grant { user, label_set })
    } else {
        rows
    }
}

/// The outcome of a revocation that removed `deleted` rows.
pub open spec fn revoke_outcome(deleted: nat) -> RevokeOutcome {
    if deleted == 0 {
        RevokeOutcome::NotGranted
    } else if deleted == 1 {
        RevokeOutcome::Revoked
    } else {
        RevokeOutcome::InvariantViolation
    }
}

/// The rows after revoking the grant of `label_set` to `user`: all others,
/// in their order.
pub open spec fn after_revoke(rows: Seq<Grant>, user: int, label_set: int) -> Seq<Grant> {
    rows.filter(is_other_pair(user, label_set))
}

/// The predicate "is granted to `user` by `rows`".
pub open spec fn granted_to(rows: Seq<Grant>, user: int) -> spec_fn(LabelSetView) -> bool {
    |set: LabelSetView| is_granted(rows, user, set.id)
}

/// The label sets of `sets` that `rows` grant to `user`, each once, in the
/// order of `sets`.
pub open spec fn granted_sets(rows: Seq<Grant>, sets: Seq<LabelSetView>, user: int) -> Seq<
    LabelSetView,
> {
    sets.filter(granted_to(rows, user))
}

impl RevokeOutcome {
    /// The outcome as an answer or a failure: a grant that was removed or
    /// was not there is an answer, and a broken uniqueness invariant is the
    /// failure `InvariantViolation`.
    pub open spec fn spec_settled(self) -> Result<RevokeOutcome, CoreError> {
        match self {
            RevokeOutcome::InvariantViolation => Err(CoreError::InvariantViolation),
            outcome => Ok(outcome),
        }
    }

    /// The outcome as an answer or a failure.
    pub fn settled(self) -> (settled: Result<RevokeOutcome, CoreError>)
        ensures
            settled == self.spec_settled(),
    {
        match self {
            RevokeOutcome::InvariantViolation => Err(CoreError::InvariantViolation),
            outcome => Ok(outcome),
        }
    }

    /// The outcome of a revocation, from the number of rows it removed.
    pub fn from_deleted(deleted: usize) -> (outcome: RevokeOutcome)
        ensures
            outcome == revoke_outcome(deleted as nat),
    {
        if deleted == 0 {
            RevokeOutcome::NotGranted
        } else if deleted == 1 {
            RevokeOutcome::Revoked
        } else {
            RevokeOutcome::InvariantViolation
        }
    }
}

/// The grant table between users and label sets.
pub struct OwnershipRegistry {
    grants: Vec<UserLabelSet>,
}

impl View for OwnershipRegistry {
    type V = Seq<Grant>;

    closed spec fn view(&self) -> Seq<Grant> {
        grants_of(self.grants@)
    }
}

impl OwnershipRegistry {
    /// A registry without grants.
    pub fn new() -> (registry: OwnershipRegistry)
        ensures
            registry@ == Seq::<Grant>::empty(),
            unique(registry@),
    {
        OwnershipRegistry { grants: Vec::new() }
    }

    /// A registry of the given rows, as they were read from a store. Nothing
    /// is assumed of them: the same grant may occur twice.
    pub fn from_rows(rows: Vec<UserLabelSet>) -> (registry: OwnershipRegistry)
        ensures
            registry@ == grants_of(rows@),
    {
        OwnershipRegistry { grants: rows }
    }

    /// The rows of the registry, in its order.
    pub fn rows(&self) -> (rows: &Vec<UserLabelSet>)
        ensures
            grants_of(rows@) == self@,
    {
        &self.grants
    }

    /// Whether `label_set_id` is granted to `user_id`.
    pub fn has_grant(&self, user_id: i32, label_set_id: i32) -> (present: bool)
        ensures
            present == is_granted(self@, user_id as int, label_set_id as int),
    {
        let ghost wanted = Grant { user: user_id as int, label_set: label_set_id as int };
        let mut i: usize = 0;
        while i < self.grants.len()
            invariant
                i <= self.grants.len(),
                wanted == (Grant { user: user_id as int, label_set: label_set_id as int }),
                forall|j: int| 0 <= j < i ==> #[trigger] self@[j] != wanted,
            decreases self.grants.len() - i,
        {
            if self.grants[i].userid == user_id && self.grants[i].labelset == label_set_id {
                assert(self@[i as int] == wanted);
                return true;
            }
            i += 1;
        }
        false
    }

    /// How many rows grant `label_set_id` to `user_id`.
    pub fn count(&self, user_id: i32, label_set_id: i32) -> (n: usize)
        ensures
            n == match_count(self@, user_id as int, label_set_id as int),
    {
        let ghost pred = is_pair(user_id as int, label_set_id as int);
        let mut n: usize = 0;
        let mut i: usize = 0;
        while i < self.grants.len()
            invariant
                i <= self.grants.len(),
                pred == is_pair(user_id as int, label_set_id as int),
                n == self@.take(i as int).filter(pred).len(),
                n <= i,
            decreases self.grants.len() - i,
        {
            proof {
                lemma_scan_step(self@, pred, i as int);
            }
            if self.grants[i].userid == user_id && self.grants[i].labelset == label_set_id {
                n += 1;
            }
            i += 1;
        }
        proof {
            lemma_scan_done(self@);
        }
        n
    }

    /// Grants `label_set_id` to `user_id`. A grant that exists is left as it
    /// is, and a label set that the catalog does not know is refused.
    pub fn grant(&mut self, user_id: i32, label_set_id: i32, catalog: &LabelSetCatalog) -> (outcome:
        GrantOutcome)
        ensures
            outcome == grant_outcome(old(self)@, catalog@, user_id as int, label_set_id as int),
            final(self)@ == after_grant(old(self)@, catalog@, user_id as int, label_set_id as int),
            unique(old(self)@) ==> unique(final(self)@),
    {
        proof {
            if unique(self@) {
                lemma_grant_keeps_unique(self@, catalog@, user_id as int, label_set_id as int);
            }
        }
        if !catalog.contains_id(label_set_id) {
            return GrantOutcome::ResourceNotFound;
        }
        if self.has_grant(user_id, label_set_id) {
            return GrantOutcome::AlreadyGranted;
        }
        let row = UserLabelSet { userid: user_id, labelset: label_set_id };
        self.grants.push(row);
        GrantOutcome::Granted
    }

    /// Revokes the grant of `label_set_id` to `user_id`: removes every row
    /// that matches both, and reports by their number.
    pub fn revoke(&mut self, user_id: i32, label_set_id: i32) -> (outcome: RevokeOutcome)
        ensures
            outcome == revoke_outcome(
                match_count(old(self)@, user_id as int, label_set_id as int),
            ),
            final(self)@ == after_revoke(old(self)@, user_id as int, label_set_id as int),
            unique(old(self)@) ==> unique(final(self)@),
    {
        let ghost before = self@;
        let ghost hit = is_pair(user_id as int, label_set_id as int);
        let ghost miss = is_other_pair(user_id as int, label_set_id as int);
        let mut kept: Vec<UserLabelSet> = Vec::new();
        let mut deleted: usize = 0;
        let mut i: usize = 0;
        assert(grants_of(kept@) =~= before.take(0).filter(miss)) by {
            reveal(Seq::filter);
        }
        while i < self.grants.len()
            invariant
                i <= self.grants.len(),
                before == self@,
                hit == is_pair(user_id as int, label_set_id as int),
                miss == is_other_pair(user_id as int, label_set_id as int),
                grants_of(kept@) == before.take(i as int).filter(miss),
                deleted == before.take(i as int).filter(hit).len(),
                deleted <= i,
            decreases self.grants.len() - i,
        {
            let row = self.grants[i];
            proof {
                lemma_scan_step(before, hit, i as int);
                lemma_scan_step(before, miss, i as int);
            }
            if row.userid == user_id && row.labelset == label_set_id {
                deleted += 1;
            } else {
                kept.push(row);
            }
            i += 1;
        }
        proof {
            lemma_scan_done(before);
            if unique(before) {
                lemma_revoke_keeps_unique(before, user_id as int, label_set_id as int);
            }
        }
        self.grants = kept;
        RevokeOutcome::from_deleted(deleted)
    }

    /// The label sets of the catalog that are granted to `user_id`, each
    /// once, in the catalog's order.
    pub fn list_for_user(&self, user_id: i32, catalog: &LabelSetCatalog) -> (listing: Vec<LabelSet>)
        ensures
            views_of(listing@) == granted_sets(self@, catalog@, user_id as int),
    {
        let sets = catalog.sets();
        let ghost pred = granted_to(self@, user_id as int);
        let mut listing: Vec<LabelSet> = Vec::new();
        let mut i: usize = 0;
        assert(views_of(listing@) =~= catalog@.take(0).filter(pred)) by {
            reveal(Seq::filter);
        }
        while i < sets.len()
            invariant
                i <= sets.len(),
                views_of(sets@) == catalog@,
                pred == granted_to(self@, user_id as int),
                views_of(listing@) == catalog@.take(i as int).filter(pred),
            decreases sets.len() - i,
        {
            let set = &sets[i];
            proof {
                lemma_scan_step(catalog@, pred, i as int);
            }
            if self.has_grant(user_id, set.id) {
                let copy = LabelSet {
                    id: set.id,
                    uuid: set.uuid.clone(),
                    name: set.name.clone(),
                    model: set.model,
                };
                listing.push(copy);
            }
            i += 1;
        }
        proof {
            lemma_scan_done(catalog@);
        }
        listing
    }
}

/// A grant is absent from the rows exactly when no row matches it.
pub proof fn lemma_absent_iff_no_match(rows: Seq<Grant>, user: int, label_set: int)
    ensures
        is_granted(rows, user, label_set) <==> match_count(rows, user, label_set) > 0,
{
    let wanted = Grant { user, label_set };
    let hit = is_pair(user, label_set);
    if rows.contains(wanted) {
        let i = choose|i: int| 0 <= i < rows.len() && rows[i] == wanted;
        rows.lemma_filter_contains(hit, i);
    } else {
        assert forall|i: int| 0 <= i < rows.len() implies !hit(#[trigger] rows[i]) by {}
        lemma_all_fail(rows, hit);
    }
}

/// Filtering keeps a sequence free of duplicates.
pub proof fn lemma_filter_keeps_unique<A>(rows: Seq<A>, pred: spec_fn(A) -> bool)
    requires
        rows.no_duplicates(),
    ensures
        rows.filter(pred).no_duplicates(),
    decreases rows.len(),
{
    reveal(Seq::filter);
    if rows.len() > 0 {
        let front = rows.drop_last();
        lemma_filter_keeps_unique(front, pred);
        if pred(rows.last()) {
            let kept = front.filter(pred);
            assert forall|i: int| 0 <= i < kept.len() implies kept[i] != rows.last() by {
                kept.lemma_index_contains(i);
                front.lemma_filter_contains_rev(pred, kept[i]);
            }
        }
    }
}

/// A sequence whose rows all satisfy the predicate is its own filter.
pub proof fn lemma_all_pass<A>(rows: Seq<A>, pred: spec_fn(A) -> bool)
    requires
        forall|i: int| 0 <= i < rows.len() ==> pred(#[trigger] rows[i]),
    ensures
        rows.filter(pred) == rows,
    decreases rows.len(),
{
    reveal(Seq::filter);
    if rows.len() > 0 {
        lemma_all_pass(rows.drop_last(), pred);
    }
}

/// Granting keeps the uniqueness invariant.
pub proof fn lemma_grant_keeps_unique(
    rows: Seq<Grant>,
    sets: Seq<LabelSetView>,
    user: int,
    label_set: int,
)
    requires
        unique(rows),
    ensures
        unique(after_grant(rows, sets, user, label_set)),
{
}

/// Revoking keeps the uniqueness invariant.
pub proof fn lemma_revoke_keeps_unique(rows: Seq<Grant>, user: int, label_set: int)
    requires
        unique(rows),
    ensures
        unique(after_revoke(rows, user, label_set)),
{
    lemma_filter_keeps_unique(rows, is_other_pair(user, label_set));
}

/// Under the uniqueness invariant at most one row matches a pair, so a
/// revocation never ends in `InvariantViolation`.
pub proof fn lemma_unique_matches_once(rows: Seq<Grant>, user: int, label_set: int)
    requires
        unique(rows),
    ensures
        match_count(rows, user, label_set) <= 1,
        revoke_outcome(match_count(rows, user, label_set)) != RevokeOutcome::InvariantViolation,
{
    let hit = is_pair(user, label_set);
    let hits = rows.filter(hit);
    lemma_filter_keeps_unique(rows, hit);
    if hits.len() >= 2 {
        rows.lemma_filter_pred(hit, 0);
        rows.lemma_filter_pred(hit, 1);
    }
}

/// Granting a pair that is not yet granted, twice in a row, ends in
/// `Granted` and then in `AlreadyGranted`; the second call changes nothing,
/// and exactly one row matches the pair afterwards.
pub proof fn lemma_grant_twice(rows: Seq<Grant>, sets: Seq<LabelSetView>, user: int, label_set: int)
    requires
        has_id(sets, label_set),
        !is_granted(rows, user, label_set),
    ensures
        grant_outcome(rows, sets, user, label_set) == GrantOutcome::Granted,
        grant_outcome(after_grant(rows, sets, user, label_set), sets, user, label_set)
            == GrantOutcome::AlreadyGranted,
        after_grant(after_grant(rows, sets, user, label_set), sets, user, label_set)
            == after_grant(rows, sets, user, label_set),
        match_count(after_grant(rows, sets, user, label_set), user, label_set) == 1,
{
    let wanted = Grant { user, label_set };
    let once = rows.push(wanted);
    assert(once[rows.len() as int] == wanted);
    lemma_absent_iff_no_match(rows, user, label_set);
    rows.lemma_filter_len_push(is_pair(user, label_set), wanted);
}

/// Granting is idempotent: whatever the first call did, a second call for
/// the same pair never adds a row and never reports `Granted`.
pub proof fn lemma_grant_idempotent(
    rows: Seq<Grant>,
    sets: Seq<LabelSetView>,
    user: int,
    label_set: int,
)
    ensures
        after_grant(after_grant(rows, sets, user, label_set), sets, user, label_set)
            == after_grant(rows, sets, user, label_set),
        grant_outcome(after_grant(rows, sets, user, label_set), sets, user, label_set)
            != GrantOutcome::Granted,
{
    let wanted = Grant { user, label_set };
    let once = rows.push(wanted);
    assert(once[rows.len() as int] == wanted);
}

/// Revoking a pair that is not granted ends in `NotGranted` and leaves the
/// rows as they were.
pub proof fn lemma_revoke_absent(rows: Seq<Grant>, user: int, label_set: int)
    requires
        !is_granted(rows, user, label_set),
    ensures
        revoke_outcome(match_count(rows, user, label_set)) == RevokeOutcome::NotGranted,
        after_revoke(rows, user, label_set) == rows,
{
    let wanted = Grant { user, label_set };
    let miss = is_other_pair(user, label_set);
    lemma_absent_iff_no_match(rows, user, label_set);
    assert forall|i: int| 0 <= i < rows.len() implies miss(#[trigger] rows[i]) by {}
    lemma_all_pass(rows, miss);
}

/// After a revocation, whatever its outcome, the pair is no longer granted:
/// revoking it again ends in `NotGranted` and changes nothing.
pub proof fn lemma_revoke_twice(rows: Seq<Grant>, user: int, label_set: int)
    ensures
        !is_granted(after_revoke(rows, user, label_set), user, label_set),
        revoke_outcome(match_count(after_revoke(rows, user, label_set), user, label_set))
            == RevokeOutcome::NotGranted,
        after_revoke(after_revoke(rows, user, label_set), user, label_set) == after_revoke(
            rows,
            user,
            label_set,
        ),
{
    let wanted = Grant { user, label_set };
    let miss = is_other_pair(user, label_set);
    let once = rows.filter(miss);
    if once.contains(wanted) {
        let i = choose|i: int| 0 <= i < once.len() && once[i] == wanted;
        rows.lemma_filter_pred(miss, i);
    }
    lemma_revoke_absent(once, user, label_set);
}

/// The rows after `n` grants of the same pair, one after the other.
pub open spec fn after_grants(
    rows: Seq<Grant>,
    sets: Seq<LabelSetView>,
    user: int,
    label_set: int,
    n: nat,
) -> Seq<Grant>
    decreases n,
{
    if n == 0 {
        rows
    } else {
        after_grant(after_grants(rows, sets, user, label_set, (n - 1) as nat), sets, user, label_set)
    }
}

/// Any number of grants of the same pair, in whatever order they are
/// served, leave exactly one matching row in a registry that held the
/// uniqueness invariant. None of them is refused, and every one after the
/// first ends in `AlreadyGranted`.
pub proof fn lemma_repeated_grants(
    rows: Seq<Grant>,
    sets: Seq<LabelSetView>,
    user: int,
    label_set: int,
    n: nat,
)
    requires
        unique(rows),
        has_id(sets, label_set),
        n >= 1,
    ensures
        unique(after_grants(rows, sets, user, label_set, n)),
        match_count(after_grants(rows, sets, user, label_set, n), user, label_set) == 1,
        grant_outcome(rows, sets, user, label_set) != GrantOutcome::ResourceNotFound,
        forall|k: nat|
            1 <= k < n ==> grant_outcome(
                #[trigger] after_grants(rows, sets, user, label_set, k),
                sets,
                user,
                label_set,
            ) == GrantOutcome::AlreadyGranted,
    decreases n,
{
    let before = after_grants(rows, sets, user, label_set, (n - 1) as nat);
    if n > 1 {
        lemma_repeated_grants(rows, sets, user, label_set, (n - 1) as nat);
    }
    lemma_grant_keeps_unique(before, sets, user, label_set);
    let after = after_grant(before, sets, user, label_set);
    lemma_absent_iff_no_match(before, user, label_set);
    lemma_unique_matches_once(after, user, label_set);
    if !is_granted(before, user, label_set) {
        lemma_grant_twice(before, sets, user, label_set);
    }
    assert forall|k: nat| 1 <= k < n implies grant_outcome(
        #[trigger] after_grants(rows, sets, user, label_set, k),
        sets,
        user,
        label_set,
    ) == GrantOutcome::AlreadyGranted by {
        lemma_repeated_grants(rows, sets, user, label_set, k);
        lemma_absent_iff_no_match(after_grants(rows, sets, user, label_set, k), user, label_set);
    }
}

} // verus!
