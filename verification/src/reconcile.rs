//! Two-way reconciliation between the local store and the remote
//! enumeration.
//!
//! Both algorithms read the same two inputs: the store and a full
//! enumeration of the remote controller's enforcement objects, handed in as
//! plain id/name pairs.
//!
//! *Sync* recovers lost links: a record declared before a crash may hold no
//! remote identifier although its object exists remotely. Every unlinked
//! record whose derived name exactly matches an enumerated object is linked
//! to that object (first match wins; two records with the same app list
//! derive the same name and are not disambiguated).
//!
//! *Cleanup* removes orphans: an enumerated object named with this engine's
//! reserved prefix but referenced by no local record was created in a
//! previous life and has no owner; `cleanup_plan` lists exactly those, the
//! transport deletes them one by one, and `cleanup_report` accounts for
//! every outcome. Run sync before cleanup: sync may link records that
//! cleanup would otherwise treat as orphaned.

use vstd::prelude::*;
use crate::lifecycle::RemoteError;
use crate::lifecycle::RemoteErrorModel;
use crate::naming::derived_name;
use crate::naming::derived_name_spec;
use crate::naming::has_name_prefix;
use crate::naming::is_name_prefixed;
use crate::naming::str_eq;
use crate::rule::RuleModel;
use crate::rule::with_remote;
use crate::store::RuleDatabase;

verus! {

/// One remote enforcement object, as the enumeration lists it.
pub struct RemoteObject {
    pub remote_id: String,
    pub name: String,
}

/// Mathematical model of an enumerated remote object.
pub struct RemoteObjectModel {
    pub remote_id: Seq<char>,
    pub name: Seq<char>,
}

impl View for RemoteObject {
    type V = RemoteObjectModel;

    open spec fn view(&self) -> RemoteObjectModel {
        RemoteObjectModel { remote_id: self.remote_id@, name: self.name@ }
    }
}

impl DeepView for RemoteObject {
    type V = RemoteObjectModel;

    open spec fn deep_view(&self) -> RemoteObjectModel {
        self.view()
    }
}

impl Clone for RemoteObject {
    /// A copy whose model is identical to this value's.
    fn clone(&self) -> (r: Self)
        ensures
            r@ == self@,
    {
        RemoteObject { remote_id: self.remote_id.clone(), name: self.name.clone() }
    }
}

/// The identifier of the first enumerated object with this name, if any.
pub open spec fn first_match(remote: Seq<RemoteObjectModel>, name: Seq<char>) -> Option<Seq<char>>
    decreases remote.len(),
{
    if remote.len() == 0 {
        None
    } else if remote[0].name == name {
        Some(remote[0].remote_id)
    } else {
        first_match(remote.drop_first(), name)
    }
}

/// The identifier of the first enumerated object with this name, if any.
pub fn find_by_name(remote: &Vec<RemoteObject>, name: &str) -> (r: Option<String>)
    ensures
        r.deep_view() == first_match(remote.deep_view(), name@),
{
    let ghost all = remote.deep_view();
    proof {
        assert(all.skip(0) =~= all);
    }
    let mut i: usize = 0;
    while i < remote.len()
        invariant
            i <= remote@.len(),
            all == remote.deep_view(),
            all.len() == remote@.len(),
            first_match(all, name@) == first_match(all.skip(i as int), name@),
        decreases remote@.len() - i,
    {
        if str_eq(remote[i].name.as_str(), name) {
            let r = Some(remote[i].remote_id.clone());
            proof {
                assert(all.skip(i as int)[0] == all[i as int]);
            }
            return r;
        }
        proof {
            assert(all.skip(i as int)[0] == all[i as int]);
            assert(all.skip(i as int).drop_first() =~= all.skip(i as int + 1));
        }
        i = i + 1;
    }
    proof {
        assert(all.skip(remote@.len() as int).len() == 0);
    }
    None
}

/// What one record becomes under sync: an unlinked record whose derived
/// name matches an enumerated object takes that object's identifier; every
/// other record is unchanged.
pub open spec fn synced_rule(rule: RuleModel, remote: Seq<RemoteObjectModel>) -> RuleModel {
    if rule.remote_id is None {
        match first_match(remote, derived_name_spec(rule.apps)) {
            Some(rid) => with_remote(rule, Some(rid)),
            None => rule,
        }
    } else {
        rule
    }
}

/// Links every unlinked record whose derived name matches an enumerated
/// remote object to that object's identifier, record for record; records
/// with no match stay unlinked for a future pass, already-linked records
/// are untouched. This recovers from a crash between "remote object
/// created" and "local link persisted".
pub fn sync_rules(store: &mut RuleDatabase, remote: &Vec<RemoteObject>, now: i64)
    requires
        old(store).wf(),
    ensures
        final(store).wf(),
        final(store)@.rules.len() == old(store)@.rules.len(),
        forall|k: int|
            0 <= k < old(store)@.rules.len() ==> final(store)@.rules[k] == synced_rule(
                #[trigger] old(store)@.rules[k],
                remote.deep_view(),
            ),
        final(store)@.created_at == old(store)@.created_at,
        final(store)@.last_updated == now as int,
{
    let ghost initial = store@.rules;
    let ghost enumeration = remote.deep_view();
    let n = store.len();
    let mut i: usize = 0;
    while i < n
        invariant
            i <= n,
            store.wf(),
            n == initial.len(),
            enumeration == remote.deep_view(),
            store@.rules.len() == initial.len(),
            forall|k: int|
                0 <= k < i ==> store@.rules[k] == synced_rule(
                    #[trigger] initial[k],
                    enumeration,
                ),
            forall|k: int| i <= k < initial.len() ==> store@.rules[k] == #[trigger] initial[k],
            store@.created_at == old(store)@.created_at,
        decreases n - i,
    {
        let rule = store.rule_at(i);
        let unlinked = rule.remote_id.is_none();
        if unlinked {
            let name = derived_name(&rule.apps);
            match find_by_name(remote, name.as_str()) {
                Some(rid) => {
                    store.link_remote(i, rid, now);
                    proof {
                        assert(store@.rules[i as int] == synced_rule(initial[i as int], enumeration));
                        assert forall|k: int|
                            0 <= k < i + 1 implies store@.rules[k] == synced_rule(
                            #[trigger] initial[k],
                            enumeration,
                        ) by {}
                    }
                },
                None => {
                    proof {
                        assert(store@.rules[i as int] == synced_rule(initial[i as int], enumeration));
                    }
                },
            }
        } else {
            proof {
                assert(store@.rules[i as int] == synced_rule(initial[i as int], enumeration));
            }
        }
        i = i + 1;
    }
    store.touch(now);
}

/// Whether some record holds this remote identifier as its link.
pub open spec fn referenced(rules: Seq<RuleModel>, remote_id: Seq<char>) -> bool {
    exists|k: int| 0 <= k < rules.len() && rules[k].remote_id == Some(remote_id)
}

/// Whether some record holds this remote identifier as its link.
pub fn references_remote(store: &RuleDatabase, remote_id: &str) -> (r: bool)
    ensures
        r == referenced(store@.rules, remote_id@),
{
    let n = store.len();
    let mut i: usize = 0;
    while i < n
        invariant
            i <= n,
            n == store@.rules.len(),
            forall|j: int| 0 <= j < i ==> #[trigger] store@.rules[j].remote_id != Some(remote_id@),
        decreases n - i,
    {
        let rule = store.rule_at(i);
        match &rule.remote_id {
            Some(rid) => {
                if str_eq(rid.as_str(), remote_id) {
                    proof {
                        assert(store@.rules[i as int].remote_id == Some(remote_id@));
                    }
                    return true;
                }
            },
            None => {},
        }
        i = i + 1;
    }
    false
}

/// The orphans of an enumeration: objects named with the reserved prefix
/// that no local record references, in enumeration order.
pub open spec fn orphans_spec(
    rules: Seq<RuleModel>,
    remote: Seq<RemoteObjectModel>,
) -> Seq<RemoteObjectModel>
    decreases remote.len(),
{
    if remote.len() == 0 {
        Seq::empty()
    } else {
        let front = orphans_spec(rules, remote.drop_last());
        let last = remote.last();
        if is_name_prefixed(last.name) && !referenced(rules, last.remote_id) {
            front.push(last)
        } else {
            front
        }
    }
}

/// The remote objects a cleanup pass must delete: exactly those named with
/// the reserved prefix that no local record references. Reads only; the
/// transport performs the deletes and `cleanup_report` accounts for them.
pub fn cleanup_plan(store: &RuleDatabase, remote: &Vec<RemoteObject>) -> (r: Vec<RemoteObject>)
    ensures
        r.deep_view() == orphans_spec(store@.rules, remote.deep_view()),
{
    let ghost rules = store@.rules;
    let ghost enumeration = remote.deep_view();
    let mut out: Vec<RemoteObject> = Vec::new();
    proof {
        assert(enumeration.take(0) =~= Seq::<RemoteObjectModel>::empty());
        assert(out.deep_view() =~= orphans_spec(rules, enumeration.take(0)));
    }
    let mut i: usize = 0;
    while i < remote.len()
        invariant
            i <= remote@.len(),
            rules == store@.rules,
            enumeration == remote.deep_view(),
            enumeration.len() == remote@.len(),
            out.deep_view() == orphans_spec(rules, enumeration.take(i as int)),
        decreases remote@.len() - i,
    {
        proof {
            assert(enumeration.take(i as int + 1).drop_last() =~= enumeration.take(i as int));
            assert(enumeration.take(i as int + 1).last() == enumeration[i as int]);
        }
        if has_name_prefix(remote[i].name.as_str()) {
            let owned = references_remote(store, remote[i].remote_id.as_str());
            if !owned {
                out.push(remote[i].clone());
            }
        }
        proof {
            assert(out.deep_view() =~= orphans_spec(rules, enumeration.take(i as int + 1)));
        }
        i = i + 1;
    }
    proof {
        assert(enumeration.take(remote@.len() as int) =~= enumeration);
    }
    out
}

/// The outcome of a cleanup pass: how many orphaned objects were deleted
/// and which deletes failed.
#[derive(Debug)]
pub struct CleanupReport {
    pub deleted_count: usize,
    pub failures: Vec<RemoteError>,
}

/// The model of delete outcomes, for stating contracts.
pub open spec fn outcomes_model(outcomes: Seq<Result<(), RemoteError>>) -> Seq<
    Result<(), RemoteErrorModel>,
> {
    Seq::new(
        outcomes.len(),
        |i: int|
            match outcomes[i] {
                Ok(()) => Ok(()),
                Err(e) => Err(e@),
            },
    )
}

/// How many deletes succeeded.
pub open spec fn delete_ok_count(outcomes: Seq<Result<(), RemoteErrorModel>>) -> int
    decreases outcomes.len(),
{
    if outcomes.len() == 0 {
        0
    } else {
        delete_ok_count(outcomes.drop_last()) + if outcomes.last() is Ok {
            1int
        } else {
            0int
        }
    }
}

/// The failed deletes, in order.
pub open spec fn delete_failures(outcomes: Seq<Result<(), RemoteErrorModel>>) -> Seq<
    RemoteErrorModel,
>
    decreases outcomes.len(),
{
    if outcomes.len() == 0 {
        Seq::empty()
    } else {
        let front = delete_failures(outcomes.drop_last());
        match outcomes.last() {
            Ok(()) => front,
            Err(e) => front.push(e),
        }
    }
}

/// Law: every cleanup delete is accounted for — the successes counted and
/// the failures listed add up to all outcomes handed in.
pub proof fn lemma_cleanup_accounting(outcomes: Seq<Result<(), RemoteErrorModel>>)
    ensures
        delete_ok_count(outcomes) + delete_failures(outcomes).len() == outcomes.len(),
        0 <= delete_ok_count(outcomes),
    decreases outcomes.len(),
{
    if outcomes.len() > 0 {
        lemma_cleanup_accounting(outcomes.drop_last());
    }
}

/// Accounts for a cleanup pass: the count of successful deletes and the
/// list of failures, one entry per failed delete, in order. Individual
/// failures never fail the pass as a whole.
pub fn cleanup_report(outcomes: &Vec<Result<(), RemoteError>>) -> (r: CleanupReport)
    ensures
        r.deleted_count as int == delete_ok_count(outcomes_model(outcomes@)),
        r.failures.deep_view() == delete_failures(outcomes_model(outcomes@)),
{
    let ghost all = outcomes_model(outcomes@);
    let mut deleted: usize = 0;
    let mut failures: Vec<RemoteError> = Vec::new();
    proof {
        assert(all.take(0) =~= Seq::<Result<(), RemoteErrorModel>>::empty());
        assert(failures.deep_view() =~= delete_failures(all.take(0)));
    }
    let mut i: usize = 0;
    while i < outcomes.len()
        invariant
            i <= outcomes@.len(),
            all == outcomes_model(outcomes@),
            all.len() == outcomes@.len(),
            deleted <= i,
            deleted as int == delete_ok_count(all.take(i as int)),
            failures.deep_view() == delete_failures(all.take(i as int)),
        decreases outcomes@.len() - i,
    {
        proof {
            assert(all.take(i as int + 1).drop_last() =~= all.take(i as int));
            assert(all.take(i as int + 1).last() == all[i as int]);
        }
        match &outcomes[i] {
            Ok(()) => {
                deleted = deleted + 1;
            },
            Err(e) => {
                failures.push(e.clone());
                proof {
                    assert(failures.deep_view() =~= delete_failures(all.take(i as int + 1)));
                }
            },
        }
        i = i + 1;
    }
    proof {
        assert(all.take(outcomes@.len() as int) =~= all);
    }
    CleanupReport { deleted_count: deleted, failures }
}

} // verus!
