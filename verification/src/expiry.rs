//! Time-based expiry.
//!
//! A `duration` or `until` rule carries an absolute deadline; a timer armed
//! at declaration fires no earlier than that deadline and revokes the rule.
//! Timers are not persisted: after a restart the caller asks `expired_ids`
//! which stored rules have already lapsed — those are revoked first, before
//! new requests are served — and re-arms a timer for each remaining
//! deadline. The timer path and the manual path both run the same
//! revocation, and `lemma_expiry_idempotent` shows the second of the two
//! always finds nothing, so the pair produces exactly one removal.

use vstd::prelude::*;
use crate::rule::DeclaredRule;
use crate::rule::RuleModel;
use crate::rule::RulePolicy;
use crate::store::RuleDatabase;
use crate::store::contains_id;
use crate::store::first_index;
use crate::store::ids_unique;
use crate::store::lemma_first_index;

verus! {

/// The absolute instant a rule must be revoked at, if its policy is
/// time-bounded: creation plus the declared hours for a `duration` rule
/// (clamped to the representable range), the fixed end for an `until` rule,
/// nothing for `permanent` and `recurring` rules.
pub open spec fn deadline_spec(rule: RuleModel) -> Option<int> {
    match rule.policy {
        RulePolicy::Duration { hours } => if rule.created_at + hours * 3600 <= i64::MAX as int {
            Some(rule.created_at + hours * 3600)
        } else {
            Some(i64::MAX as int)
        },
        RulePolicy::Until { end_at } => Some(end_at as int),
        RulePolicy::Permanent => None,
        RulePolicy::Recurring { .. } => None,
    }
}

/// The deadline to arm a timer for, if the rule's policy is time-bounded.
pub fn deadline(rule: &DeclaredRule) -> (r: Option<i64>)
    ensures
        r is Some <==> deadline_spec(rule@) is Some,
        r matches Some(d) ==> deadline_spec(rule@) == Some(d as int),
{
    match rule.policy {
        RulePolicy::Duration { hours } => {
            let span: i64 = (hours as i64) * 3600;
            if rule.created_at <= i64::MAX - span {
                Some(rule.created_at + span)
            } else {
                Some(i64::MAX)
            }
        },
        RulePolicy::Until { end_at } => Some(end_at),
        RulePolicy::Permanent => None,
        RulePolicy::Recurring { .. } => None,
    }
}

/// The ids of the records whose deadline is at or before `now`, in store
/// order.
pub open spec fn expired_spec(rules: Seq<RuleModel>, now: int) -> Seq<Seq<char>>
    decreases rules.len(),
{
    if rules.len() == 0 {
        Seq::empty()
    } else {
        let front = expired_spec(rules.drop_last(), now);
        match deadline_spec(rules.last()) {
            Some(d) => if d <= now {
                front.push(rules.last().id)
            } else {
                front
            },
            None => front,
        }
    }
}

/// The records that lapsed while no timer was armed — the restart path
/// revokes these before serving any new request.
pub fn expired_ids(store: &RuleDatabase, now: i64) -> (r: Vec<String>)
    ensures
        r.deep_view() == expired_spec(store@.rules, now as int),
{
    let ghost all = store@.rules;
    let mut out: Vec<String> = Vec::new();
    proof {
        assert(all.take(0) =~= Seq::<RuleModel>::empty());
        assert(out.deep_view() =~= expired_spec(all.take(0), now as int));
    }
    let n = store.len();
    let mut i: usize = 0;
    while i < n
        invariant
            i <= n,
            n == all.len(),
            all == store@.rules,
            out.deep_view() == expired_spec(all.take(i as int), now as int),
        decreases n - i,
    {
        let rule = store.rule_at(i);
        proof {
            assert(all.take(i as int + 1).drop_last() =~= all.take(i as int));
            assert(all.take(i as int + 1).last() == all[i as int]);
        }
        let lapsed = match deadline(rule) {
            Some(d) => d <= now,
            None => false,
        };
        if lapsed {
            out.push(rule.id.clone());
        }
        proof {
            assert(out.deep_view() =~= expired_spec(all.take(i as int + 1), now as int));
        }
        i = i + 1;
    }
    proof {
        assert(all.take(all.len() as int) =~= all);
    }
    out
}

/// Law: a timer firing after its rule was already removed finds nothing.
/// Removing the one record with an `id` from a well-formed store leaves a
/// store with no record of that `id`, so the second of the two revocation
/// paths — manual removal and timer fire, in either order — is a no-op and
/// the pair produces exactly one removal.
pub proof fn lemma_expiry_idempotent(rules: Seq<RuleModel>, id: Seq<char>)
    requires
        ids_unique(rules),
        contains_id(rules, id),
    ensures
        !contains_id(rules.remove(first_index(rules, id)), id),
{
    lemma_first_index(rules, id);
    let pos = first_index(rules, id);
    let after = rules.remove(pos);
    if contains_id(after, id) {
        let k = choose|k: int| 0 <= k < after.len() && after[k].id == id;
        let kk = if k < pos {
            k
        } else {
            k + 1
        };
        assert(after[k] == rules[kk]);
        assert(rules[kk].id == rules[pos].id);
        assert(false);
    }
}

} // verus!
