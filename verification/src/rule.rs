//! The declared-rule data model.
//!
//! A `DeclaredRule` is the caller's persisted intent to block a set of apps
//! for a set of devices under a time policy. The time policy is a sum type:
//! exactly one schedule field exists per kind, by construction, so a record
//! can never carry the wrong field for its kind.

use vstd::prelude::*;
use crate::naming::str_eq;

verus! {

/// Desired enforcement state of a declared rule. It does not itself drive
/// expiry; it only selects whether the remote object is created enabled.
#[derive(Clone, Copy, PartialEq, Eq, Structural, Debug)]
pub enum RuleStatus {
    Active,
    Disabled,
}

/// Recurring window: a bitmask of weekdays and a start/end minute of day.
#[derive(Clone, Copy, PartialEq, Eq, Structural, Debug)]
pub struct SchedulePlan {
    pub days: u8,
    pub start_minute: u16,
    pub end_minute: u16,
}

/// The time policy of a rule.
#[derive(Clone, Copy, PartialEq, Eq, Structural, Debug)]
pub enum RulePolicy {
    Permanent,
    Duration { hours: u32 },
    Until { end_at: i64 },
    Recurring { plan: SchedulePlan },
}

/// The kind tag of a declaration, before the schedule fields are checked.
#[derive(Clone, Copy, PartialEq, Eq, Structural, Debug)]
pub enum RuleKind {
    Permanent,
    Duration,
    Until,
    Recurring,
}

/// A stored rule record. `id` is the primary key of the rule store;
/// `remote_id` is the identifier of the corresponding enforcement object in
/// the remote controller, `None` until the create call returns one or a later
/// sync links it.
pub struct DeclaredRule {
    pub id: String,
    pub apps: Vec<String>,
    pub devices: Vec<String>,
    pub status: RuleStatus,
    pub created_at: i64,
    pub policy: RulePolicy,
    pub remote_id: Option<String>,
}

/// Mathematical model of a declared rule.
pub struct RuleModel {
    pub id: Seq<char>,
    pub apps: Seq<Seq<char>>,
    pub devices: Seq<Seq<char>>,
    pub status: RuleStatus,
    pub created_at: int,
    pub policy: RulePolicy,
    pub remote_id: Option<Seq<char>>,
}

impl View for DeclaredRule {
    type V = RuleModel;

    open spec fn view(&self) -> RuleModel {
        RuleModel {
            id: self.id@,
            apps: self.apps.deep_view(),
            devices: self.devices.deep_view(),
            status: self.status,
            created_at: self.created_at as int,
            policy: self.policy,
            remote_id: self.remote_id.deep_view(),
        }
    }
}

impl DeepView for DeclaredRule {
    type V = RuleModel;

    open spec fn deep_view(&self) -> RuleModel {
        self.view()
    }
}

/// Copies a list of strings, element for element.
pub(crate) fn clone_strings(v: &Vec<String>) -> (r: Vec<String>)
    ensures
        r.deep_view() == v.deep_view(),
{
    let mut out: Vec<String> = Vec::new();
    let mut i: usize = 0;
    while i < v.len()
        invariant
            i <= v.len(),
            out@.len() == i,
            forall|k: int| 0 <= k < i ==> out@[k]@ == #[trigger] v.deep_view()[k],
        decreases v.len() - i,
    {
        out.push(v[i].clone());
        i = i + 1;
    }
    proof {
        assert forall|k: int| 0 <= k < v@.len() implies out.deep_view()[k] == v.deep_view()[k] by {
            assert(out.deep_view()[k] == out@[k]@);
        }
        assert(out.deep_view() =~= v.deep_view());
    }
    out
}

impl Clone for DeclaredRule {
    /// A copy whose model is identical to this value's.
    fn clone(&self) -> (r: Self)
        ensures
            r@ == self@,
    {
        let r = DeclaredRule {
            id: self.id.clone(),
            apps: clone_strings(&self.apps),
            devices: clone_strings(&self.devices),
            status: self.status,
            created_at: self.created_at,
            policy: self.policy,
            remote_id: match &self.remote_id {
                Some(s) => Some(s.clone()),
                None => None,
            },
        };
        r
    }
}

/// A declaration as the caller hands it in: a flat record whose schedule
/// fields are optional, keyed by `kind`. Validation turns it into a
/// `DeclaredRule` with the one schedule field its kind requires.
pub struct RuleIntent {
    pub id: String,
    pub apps: Vec<String>,
    pub kind: RuleKind,
    pub devices: Vec<String>,
    pub status: RuleStatus,
    pub created_at: i64,
    pub duration_hours: Option<u32>,
    pub end_at: Option<i64>,
    pub plan: Option<SchedulePlan>,
}

/// Mathematical model of a declaration.
pub struct IntentModel {
    pub id: Seq<char>,
    pub apps: Seq<Seq<char>>,
    pub kind: RuleKind,
    pub devices: Seq<Seq<char>>,
    pub status: RuleStatus,
    pub created_at: int,
    pub duration_hours: Option<u32>,
    pub end_at: Option<i64>,
    pub plan: Option<SchedulePlan>,
}

impl View for RuleIntent {
    type V = IntentModel;

    open spec fn view(&self) -> IntentModel {
        IntentModel {
            id: self.id@,
            apps: self.apps.deep_view(),
            kind: self.kind,
            devices: self.devices.deep_view(),
            status: self.status,
            created_at: self.created_at as int,
            duration_hours: self.duration_hours,
            end_at: self.end_at,
            plan: self.plan,
        }
    }
}

/// The policy an intent resolves to: `None` exactly when the schedule field
/// its kind requires is missing.
pub open spec fn policy_of(intent: IntentModel) -> Option<RulePolicy> {
    match intent.kind {
        RuleKind::Permanent => Some(RulePolicy::Permanent),
        RuleKind::Duration => match intent.duration_hours {
            Some(hours) => Some(RulePolicy::Duration { hours }),
            None => None,
        },
        RuleKind::Until => match intent.end_at {
            Some(end_at) => Some(RulePolicy::Until { end_at }),
            None => None,
        },
        RuleKind::Recurring => match intent.plan {
            Some(plan) => Some(RulePolicy::Recurring { plan }),
            None => None,
        },
    }
}

/// Resolves the intent's kind tag and optional fields to a policy;
/// `None` exactly when the field the kind requires is absent.
pub fn build_policy(intent: &RuleIntent) -> (r: Option<RulePolicy>)
    ensures
        r == policy_of(intent@),
{
    match intent.kind {
        RuleKind::Permanent => Some(RulePolicy::Permanent),
        RuleKind::Duration => match intent.duration_hours {
            Some(hours) => Some(RulePolicy::Duration { hours }),
            None => None,
        },
        RuleKind::Until => match intent.end_at {
            Some(end_at) => Some(RulePolicy::Until { end_at }),
            None => None,
        },
        RuleKind::Recurring => match intent.plan {
            Some(plan) => Some(RulePolicy::Recurring { plan }),
            None => None,
        },
    }
}

/// The record an accepted intent is stored as, with the given remote link.
pub open spec fn rule_of(
    intent: IntentModel,
    policy: RulePolicy,
    remote_id: Option<Seq<char>>,
) -> RuleModel {
    RuleModel {
        id: intent.id,
        apps: intent.apps,
        devices: intent.devices,
        status: intent.status,
        created_at: intent.created_at,
        policy,
        remote_id,
    }
}

/// The same record with a different remote link.
pub open spec fn with_remote(r: RuleModel, remote_id: Option<Seq<char>>) -> RuleModel {
    RuleModel {
        id: r.id,
        apps: r.apps,
        devices: r.devices,
        status: r.status,
        created_at: r.created_at,
        policy: r.policy,
        remote_id,
    }
}

/// Reads a rule-kind tag: `permanent`, `duration`, `until` or `recurring`.
pub fn parse_rule_kind(s: &str) -> (r: Option<RuleKind>)
    ensures
        r == (if s@ == "permanent"@ {
            Some(RuleKind::Permanent)
        } else if s@ == "duration"@ {
            Some(RuleKind::Duration)
        } else if s@ == "until"@ {
            Some(RuleKind::Until)
        } else if s@ == "recurring"@ {
            Some(RuleKind::Recurring)
        } else {
            None::<RuleKind>
        }),
{
    if str_eq(s, "permanent") {
        Some(RuleKind::Permanent)
    } else if str_eq(s, "duration") {
        Some(RuleKind::Duration)
    } else if str_eq(s, "until") {
        Some(RuleKind::Until)
    } else if str_eq(s, "recurring") {
        Some(RuleKind::Recurring)
    } else {
        None
    }
}

/// Reads a status tag: `active` or `disabled`.
pub fn parse_status(s: &str) -> (r: Option<RuleStatus>)
    ensures
        r == (if s@ == "active"@ {
            Some(RuleStatus::Active)
        } else if s@ == "disabled"@ {
            Some(RuleStatus::Disabled)
        } else {
            None::<RuleStatus>
        }),
{
    if str_eq(s, "active") {
        Some(RuleStatus::Active)
    } else if str_eq(s, "disabled") {
        Some(RuleStatus::Disabled)
    } else {
        None
    }
}

} // verus!
