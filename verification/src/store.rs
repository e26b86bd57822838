//! The durable rule store.
//!
//! The store is the single local source of truth for declared rules: a list
//! of records keyed by their `id`, together with the two bookkeeping
//! timestamps of the persisted container. Its invariant — no two records
//! share an `id` — is established by every constructor and preserved by
//! every mutation.
//!
//! Persistence itself (the file read and the atomic rewrite) happens outside
//! this engine; a caller persists the value `snapshot` hands out after each
//! mutation, and rebuilds the store through `load` at start-up. `load`
//! accepts whatever the durable medium yields and re-establishes the
//! invariant by keeping the first record of each `id`.

use vstd::prelude::*;
use crate::clock::now_seconds;
use crate::naming::str_eq;
use crate::rule::DeclaredRule;
use crate::rule::RuleModel;

verus! {

/// A local identity error of the store.
#[derive(Clone, Copy, PartialEq, Eq, Structural, Debug)]
pub enum StoreError {
    /// A record with this `id` is already present.
    DuplicateId,
    /// No record with this `id` is present.
    NotFound,
}

/// The persisted container: the records and the bookkeeping timestamps.
pub struct RuleDatabase {
    pub(crate) rules: Vec<DeclaredRule>,
    pub(crate) created_at: i64,
    pub(crate) last_updated: i64,
}

/// Mathematical model of the store.
pub struct StoreModel {
    pub rules: Seq<RuleModel>,
    pub created_at: int,
    pub last_updated: int,
}

impl View for RuleDatabase {
    type V = StoreModel;

    closed spec fn view(&self) -> StoreModel {
        StoreModel {
            rules: self.rules.deep_view(),
            created_at: self.created_at as int,
            last_updated: self.last_updated as int,
        }
    }
}

/// No two records share an `id`.
pub open spec fn ids_unique(rules: Seq<RuleModel>) -> bool {
    forall|i: int, j: int| 0 <= i < j < rules.len() ==> rules[i].id != rules[j].id
}

/// Some record carries this `id`.
pub open spec fn contains_id(rules: Seq<RuleModel>, id: Seq<char>) -> bool {
    exists|k: int| 0 <= k < rules.len() && rules[k].id == id
}

/// The position of the first record with this `id`; the length when none has
/// it.
pub open spec fn first_index(rules: Seq<RuleModel>, id: Seq<char>) -> int
    decreases rules.len(),
{
    if rules.len() == 0 {
        0
    } else if rules[0].id == id {
        0
    } else {
        1 + first_index(rules.drop_first(), id)
    }
}

/// Where `first_index` points: at the first record with the `id` when one
/// exists, one past the end otherwise.
pub proof fn lemma_first_index(rules: Seq<RuleModel>, id: Seq<char>)
    ensures
        contains_id(rules, id) ==> {
            &&& 0 <= first_index(rules, id) < rules.len()
            &&& rules[first_index(rules, id)].id == id
            &&& forall|j: int| 0 <= j < first_index(rules, id) ==> rules[j].id != id
        },
        !contains_id(rules, id) ==> first_index(rules, id) == rules.len(),
    decreases rules.len(),
{
    if rules.len() == 0 {
    } else if rules[0].id == id {
    } else {
        let rest = rules.drop_first();
        lemma_first_index(rest, id);
        assert forall|k: int| 0 <= k < rules.len() && rules[k].id == id implies contains_id(
            rest,
            id,
        ) by {
            assert(rest[k - 1] == rules[k]);
        }
        if contains_id(rules, id) {
            let fi = first_index(rules, id);
            assert(rules[fi] == rest[fi - 1]);
            assert forall|j: int| 0 <= j < fi implies rules[j].id != id by {
                if j > 0 {
                    assert(rules[j] == rest[j - 1]);
                }
            }
        } else {
            if contains_id(rest, id) {
                let k = choose|k: int| 0 <= k < rest.len() && rest[k].id == id;
                assert(rules[k + 1] == rest[k]);
                assert(contains_id(rules, id));
            }
        }
    }
}

/// A position that carries the `id` with none before it is the first index.
pub proof fn lemma_first_index_at(rules: Seq<RuleModel>, id: Seq<char>, pos: int)
    requires
        0 <= pos < rules.len(),
        rules[pos].id == id,
        forall|j: int| 0 <= j < pos ==> rules[j].id != id,
    ensures
        first_index(rules, id) == pos,
    decreases rules.len(),
{
    if pos == 0 {
    } else {
        let rest = rules.drop_first();
        assert(rest[pos - 1] == rules[pos]);
        assert forall|j: int| 0 <= j < pos - 1 implies rest[j].id != id by {
            assert(rest[j] == rules[j + 1]);
        }
        lemma_first_index_at(rest, id, pos - 1);
    }
}

/// The records with the first occurrence of each `id` kept and every later
/// duplicate dropped.
pub open spec fn dedup_ids(rules: Seq<RuleModel>) -> Seq<RuleModel>
    decreases rules.len(),
{
    if rules.len() == 0 {
        Seq::empty()
    } else {
        let front = dedup_ids(rules.drop_last());
        if contains_id(front, rules.last().id) {
            front
        } else {
            front.push(rules.last())
        }
    }
}

/// Law: records whose ids are already unique come out of `dedup_ids`
/// unchanged — so a store rebuilt from its own persisted records is the
/// same store.
pub proof fn lemma_dedup_ids_identity(rules: Seq<RuleModel>)
    requires
        ids_unique(rules),
    ensures
        dedup_ids(rules) == rules,
    decreases rules.len(),
{
    if rules.len() == 0 {
        assert(dedup_ids(rules) =~= rules);
    } else {
        let front = rules.drop_last();
        lemma_dedup_ids_identity(front);
        assert forall|k: int| 0 <= k < front.len() implies front[k].id != rules.last().id by {
            assert(front[k] == rules[k]);
            assert(rules.last() == rules[rules.len() - 1]);
        }
        assert(!contains_id(front, rules.last().id));
        assert(front.push(rules.last()) =~= rules);
    }
}

/// Law: no two records a well-formed store holds share an `id`.
pub proof fn lemma_no_shared_id(rules: Seq<RuleModel>, i: int, j: int)
    requires
        ids_unique(rules),
        0 <= i < rules.len(),
        0 <= j < rules.len(),
        i != j,
    ensures
        rules[i].id != rules[j].id,
{
}

impl RuleDatabase {
    /// The store invariant: record ids are unique.
    pub open spec fn wf(&self) -> bool {
        ids_unique(self@.rules)
    }

    /// An empty store stamped with the current clock reading.
    pub fn new() -> (r: Self)
        ensures
            r@.rules == Seq::<RuleModel>::empty(),
            r@.created_at == r@.last_updated,
            r.wf(),
    {
        let now = now_seconds();
        let r = RuleDatabase { rules: Vec::new(), created_at: now, last_updated: now };
        proof {
            assert(r@.rules =~= Seq::<RuleModel>::empty());
        }
        r
    }

    /// Rebuilds a store from persisted records, keeping the first record of
    /// each `id` so that the invariant holds whatever the medium yielded.
    pub fn load(records: Vec<DeclaredRule>, created_at: i64, last_updated: i64) -> (r: Self)
        ensures
            r@.rules == dedup_ids(records.deep_view()),
            r@.created_at == created_at as int,
            r@.last_updated == last_updated as int,
            r.wf(),
    {
        let ghost all = records.deep_view();
        let mut db = RuleDatabase { rules: Vec::new(), created_at, last_updated };
        proof {
            assert(db@.rules =~= Seq::<RuleModel>::empty());
            assert(all.take(0) =~= Seq::<RuleModel>::empty());
        }
        for i in 0..records.len()
            invariant
                all == records.deep_view(),
                all.len() == records@.len(),
                db@.rules == dedup_ids(all.take(i as int)),
                db@.created_at == created_at as int,
                db@.last_updated == last_updated as int,
                db.wf(),
        {
            proof {
                assert(all.take(i as int + 1).drop_last() =~= all.take(i as int));
                assert(all.take(i as int + 1).last() == all[i as int]);
            }
            let present = db.contains_rule(records[i].id.as_str());
            if !present {
                let ghost before = db@.rules;
                db.rules.push(records[i].clone());
                proof {
                    assert(db@.rules =~= before.push(all[i as int]));
                    assert forall|p: int, q: int|
                        0 <= p < q < db@.rules.len() implies db@.rules[p].id
                        != db@.rules[q].id by {
                        if q < before.len() {
                        } else {
                            assert(db@.rules[q] == all[i as int]);
                            assert(!contains_id(before, all[i as int].id));
                        }
                    }
                }
            }
        }
        proof {
            assert(all.take(records@.len() as int) =~= all);
        }
        db
    }

    /// Whether a record with this `id` is present.
    pub fn contains_rule(&self, rule_id: &str) -> (r: bool)
        ensures
            r == contains_id(self@.rules, rule_id@),
    {
        let mut i: usize = 0;
        while i < self.rules.len()
            invariant
                i <= self.rules@.len(),
                self@.rules.len() == self.rules@.len(),
                forall|j: int| 0 <= j < i ==> self@.rules[j].id != rule_id@,
            decreases self.rules@.len() - i,
        {
            if str_eq(self.rules[i].id.as_str(), rule_id) {
                assert(self@.rules[i as int].id == rule_id@);
                return true;
            }
            i = i + 1;
        }
        false
    }

    /// Inserts a record, refusing a duplicate `id`; stamps the update time.
    pub fn add_rule(&mut self, rule: DeclaredRule, now: i64) -> (r: Result<(), StoreError>)
        requires
            old(self).wf(),
        ensures
            final(self).wf(),
            r is Ok <==> !contains_id(old(self)@.rules, rule@.id),
            r is Err ==> r == Err::<(), StoreError>(StoreError::DuplicateId) && *final(self)
                == *old(self),
            r is Ok ==> {
                &&& final(self)@.rules == old(self)@.rules.push(rule@)
                &&& final(self)@.created_at == old(self)@.created_at
                &&& final(self)@.last_updated == now as int
            },
    {
        let present = self.contains_rule(rule.id.as_str());
        if present {
            return Err(StoreError::DuplicateId);
        }
        let ghost before = self@.rules;
        self.rules.push(rule);
        self.last_updated = now;
        proof {
            assert(self@.rules =~= before.push(rule@));
            assert forall|p: int, q: int|
                0 <= p < q < self@.rules.len() implies self@.rules[p].id != self@.rules[q].id by {
                if q == before.len() {
                    assert(!contains_id(before, rule@.id));
                }
            }
        }
        Ok(())
    }

    /// The position of the first record with this `id`, if any.
    pub fn find_position(&self, rule_id: &str) -> (r: Option<usize>)
        ensures
            r is Some <==> contains_id(self@.rules, rule_id@),
            r matches Some(i) ==> {
                &&& i < self@.rules.len()
                &&& i as int == first_index(self@.rules, rule_id@)
                &&& self@.rules[i as int].id == rule_id@
                &&& forall|j: int| 0 <= j < i ==> self@.rules[j].id != rule_id@
            },
    {
        let mut i: usize = 0;
        while i < self.rules.len()
            invariant
                i <= self.rules@.len(),
                self@.rules.len() == self.rules@.len(),
                forall|j: int| 0 <= j < i ==> self@.rules[j].id != rule_id@,
            decreases self.rules@.len() - i,
        {
            if str_eq(self.rules[i].id.as_str(), rule_id) {
                proof {
                    assert(self@.rules[i as int].id == rule_id@);
                    lemma_first_index_at(self@.rules, rule_id@, i as int);
                }
                return Some(i);
            }
            i = i + 1;
        }
        None
    }

    /// Removes the record with this `id` and returns it so that a caller can
    /// roll back; leaves the store untouched when the `id` is unknown.
    pub fn remove_rule(&mut self, rule_id: &str, now: i64) -> (r: Option<DeclaredRule>)
        requires
            old(self).wf(),
        ensures
            final(self).wf(),
            r is Some <==> contains_id(old(self)@.rules, rule_id@),
            r is None ==> *final(self) == *old(self),
            r matches Some(removed) ==> {
                let pos = first_index(old(self)@.rules, rule_id@);
                &&& removed@ == old(self)@.rules[pos]
                &&& removed@.id == rule_id@
                &&& final(self)@.rules == old(self)@.rules.remove(pos)
                &&& final(self)@.created_at == old(self)@.created_at
                &&& final(self)@.last_updated == now as int
            },
    {
        let ghost before = self@.rules;
        match self.find_position(rule_id) {
            None => None,
            Some(i) => {
                let removed = self.rules.remove(i);
                self.last_updated = now;
                proof {
                    assert(self@.rules =~= before.remove(i as int));
                    assert forall|p: int, q: int|
                        0 <= p < q < self@.rules.len() implies self@.rules[p].id
                        != self@.rules[q].id by {
                        let pp = if p < i as int {
                            p
                        } else {
                            p + 1
                        };
                        let qq = if q < i as int {
                            q
                        } else {
                            q + 1
                        };
                        assert(self@.rules[p] == before[pp]);
                        assert(self@.rules[q] == before[qq]);
                    }
                }
                Some(removed)
            },
        }
    }

    /// Replaces the record with this `id` in place; the replacement must
    /// carry the same `id`, so the invariant is kept.
    pub fn update_rule(&mut self, rule_id: &str, updated: DeclaredRule, now: i64) -> (r: Result<
        (),
        StoreError,
    >)
        requires
            old(self).wf(),
            updated@.id == rule_id@,
        ensures
            final(self).wf(),
            r is Ok <==> contains_id(old(self)@.rules, rule_id@),
            r is Err ==> r == Err::<(), StoreError>(StoreError::NotFound) && *final(self)
                == *old(self),
            r is Ok ==> {
                let pos = first_index(old(self)@.rules, rule_id@);
                &&& final(self)@.rules == old(self)@.rules.update(pos, updated@)
                &&& final(self)@.created_at == old(self)@.created_at
                &&& final(self)@.last_updated == now as int
            },
    {
        let ghost before = self@.rules;
        match self.find_position(rule_id) {
            None => Err(StoreError::NotFound),
            Some(i) => {
                self.rules.set(i, updated);
                self.last_updated = now;
                proof {
                    assert(self@.rules =~= before.update(i as int, updated@));
                    assert forall|p: int, q: int|
                        0 <= p < q < self@.rules.len() implies self@.rules[p].id
                        != self@.rules[q].id by {
                        assert(before[p].id != before[q].id);
                    }
                }
                Ok(())
            },
        }
    }

    /// Empties the store; stamps the update time.
    pub fn clear_all(&mut self, now: i64)
        ensures
            final(self).wf(),
            final(self)@.rules == Seq::<RuleModel>::empty(),
            final(self)@.created_at == old(self)@.created_at,
            final(self)@.last_updated == now as int,
    {
        self.rules = Vec::new();
        self.last_updated = now;
        proof {
            assert(self@.rules =~= Seq::<RuleModel>::empty());
        }
    }

    /// The records, in insertion order.
    pub fn get_rules(&self) -> (r: &Vec<DeclaredRule>)
        ensures
            r.deep_view() == self@.rules,
    {
        &self.rules
    }

    /// The number of records.
    pub fn len(&self) -> (r: usize)
        ensures
            r == self@.rules.len(),
    {
        self.rules.len()
    }

    /// The creation stamp of the persisted container.
    pub fn created_at(&self) -> (r: i64)
        ensures
            r as int == self@.created_at,
    {
        self.created_at
    }

    /// The stamp of the last completed mutation.
    pub fn last_updated(&self) -> (r: i64)
        ensures
            r as int == self@.last_updated,
    {
        self.last_updated
    }

    /// Stamps the update time, as the persistence pass after a completed
    /// mutation does; the records are untouched.
    pub fn touch(&mut self, now: i64)
        ensures
            final(self)@.rules == old(self)@.rules,
            final(self)@.created_at == old(self)@.created_at,
            final(self)@.last_updated == now as int,
    {
        self.last_updated = now;
    }

    /// The record at this position.
    pub fn rule_at(&self, i: usize) -> (r: &DeclaredRule)
        requires
            i < self@.rules.len(),
        ensures
            r@ == self@.rules[i as int],
    {
        &self.rules[i]
    }

    /// Attaches (or replaces) the remote link of the record at this
    /// position; everything else about the record is unchanged.
    pub fn link_remote(&mut self, i: usize, remote_id: String, now: i64)
        requires
            old(self).wf(),
            i < old(self)@.rules.len(),
        ensures
            final(self).wf(),
            final(self)@.rules == old(self)@.rules.update(
                i as int,
                crate::rule::with_remote(old(self)@.rules[i as int], Some(remote_id@)),
            ),
            final(self)@.created_at == old(self)@.created_at,
            final(self)@.last_updated == now as int,
    {
        let ghost before = self@.rules;
        let mut tmp = self.rules[i].clone();
        tmp.remote_id = Some(remote_id);
        self.rules.set(i, tmp);
        self.last_updated = now;
        proof {
            assert(self@.rules =~= before.update(
                i as int,
                crate::rule::with_remote(before[i as int], self@.rules[i as int].remote_id),
            ));
            assert forall|p: int, q: int|
                0 <= p < q < self@.rules.len() implies self@.rules[p].id != self@.rules[q].id by {
                assert(before[p].id != before[q].id);
            }
        }
    }

    /// A read-only copy of the records for listing, persistence and
    /// reconciliation.
    pub fn snapshot(&self) -> (r: Vec<DeclaredRule>)
        ensures
            r.deep_view() == self@.rules,
    {
        let mut out: Vec<DeclaredRule> = Vec::new();
        let mut i: usize = 0;
        while i < self.rules.len()
            invariant
                i <= self.rules@.len(),
                self@.rules.len() == self.rules@.len(),
                out@.len() == i,
                forall|k: int| 0 <= k < i ==> out@[k]@ == #[trigger] self@.rules[k],
            decreases self.rules@.len() - i,
        {
            out.push(self.rules[i].clone());
            i = i + 1;
        }
        proof {
            assert forall|k: int| 0 <= k < self@.rules.len() implies out.deep_view()[k]
                == self@.rules[k] by {
                assert(out.deep_view()[k] == out@[k]@);
            }
            assert(out.deep_view() =~= self@.rules);
        }
        out
    }
}

} // verus!
