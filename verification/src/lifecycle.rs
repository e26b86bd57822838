//! The rule lifecycle controller.
//!
//! A declaration runs create → active → removed. Every remote call is
//! asynchronous I/O performed by the thin transport around this engine, so
//! each lifecycle operation is split at the call: a *request* step that
//! validates and computes everything the call needs before any effect, and a
//! *completion* step that takes the call's outcome — whatever it was — and
//! applies the store transition it dictates. Both steps are verified for
//! every possible outcome; the transport only carries bytes.
//!
//! Failure discipline: a failed remote create leaves no local trace; a
//! failed remote delete re-inserts the already-removed record, so a rule is
//! never lost locally while still enforced remotely; a bulk revocation
//! clears the local store whatever the individual deletes did, and reports
//! every failure.

use vstd::prelude::*;
use crate::catalog::AppCatalog;
use crate::catalog::AppEntryModel;
use crate::catalog::resolve_spec;
use crate::naming::derived_name;
use crate::naming::derived_name_spec;
use crate::rule::DeclaredRule;
use crate::rule::IntentModel;
use crate::rule::RuleIntent;
use crate::rule::RuleModel;
use crate::rule::RuleStatus;
use crate::rule::clone_strings;
use crate::rule::policy_of;
use crate::rule::rule_of;
use crate::rule::build_policy;
use crate::store::RuleDatabase;
use crate::store::contains_id;
use crate::store::first_index;

verus! {

/// The session against the remote controller: its address and the opaque
/// credential the excluded login flow produced. A missing credential means
/// "not authenticated"; the engine then refuses to call the remote client.
pub struct SessionContext {
    pub controller_url: String,
    pub credential: Option<String>,
}

impl SessionContext {
    /// Whether the engine may call the remote controller.
    pub open spec fn authenticated(&self) -> bool {
        self.credential is Some
    }

    /// Whether the engine may call the remote controller.
    pub fn is_authenticated(&self) -> (r: bool)
        ensures
            r == self.authenticated(),
    {
        self.credential.is_some()
    }
}

/// The failure class of a remote controller call.
#[derive(Clone, Copy, PartialEq, Eq, Structural, Debug)]
pub enum RemoteFaultKind {
    /// The controller refused the request.
    ClientError,
    /// The controller failed on its side.
    ServerError,
    /// The transport failed before an answer came.
    Transport,
    /// The bounded timeout elapsed.
    Timeout,
}

/// A failed remote controller call: its class and the upstream message.
#[derive(Debug)]
pub struct RemoteError {
    pub kind: RemoteFaultKind,
    pub message: String,
}

/// Mathematical model of a remote failure.
pub struct RemoteErrorModel {
    pub kind: RemoteFaultKind,
    pub message: Seq<char>,
}

impl View for RemoteError {
    type V = RemoteErrorModel;

    open spec fn view(&self) -> RemoteErrorModel {
        RemoteErrorModel { kind: self.kind, message: self.message@ }
    }
}

impl DeepView for RemoteError {
    type V = RemoteErrorModel;

    open spec fn deep_view(&self) -> RemoteErrorModel {
        self.view()
    }
}

impl Clone for RemoteError {
    /// A copy whose model is identical to this value's.
    fn clone(&self) -> (r: Self)
        ensures
            r@ == self@,
    {
        RemoteError { kind: self.kind, message: self.message.clone() }
    }
}

/// Why a declaration was refused.
#[derive(Debug)]
pub enum DeclareError {
    /// No credential is held; the remote client was not called.
    NotAuthenticated,
    /// The app list resolved to no known application identifier.
    InvalidApps,
    /// The schedule field the declared kind requires is absent.
    MissingField,
    /// A record with this `id` is already stored.
    DuplicateId,
    /// The remote create call failed; no local state was touched.
    RemoteRejected(RemoteError),
}

/// Why a revocation failed.
#[derive(Debug)]
pub enum RevokeError {
    /// No credential is held; the remote client was not called.
    NotAuthenticated,
    /// No record carries this `id`.
    NotFound,
    /// The remote delete call failed; the record was re-inserted.
    RemoteRejected(RemoteError),
}

/// Everything the remote create call needs, fixed before any effect: the
/// derived object name, the resolved app identifiers, the target devices and
/// the enable flag.
pub struct CreateRequest {
    pub name: String,
    pub app_ids: Vec<String>,
    pub devices: Vec<String>,
    pub enabled: bool,
}

/// Mathematical model of a create request.
pub struct CreateRequestModel {
    pub name: Seq<char>,
    pub app_ids: Seq<Seq<char>>,
    pub devices: Seq<Seq<char>>,
    pub enabled: bool,
}

impl View for CreateRequest {
    type V = CreateRequestModel;

    open spec fn view(&self) -> CreateRequestModel {
        CreateRequestModel {
            name: self.name@,
            app_ids: self.app_ids.deep_view(),
            devices: self.devices.deep_view(),
            enabled: self.enabled,
        }
    }
}

/// What `declare_request` answers: the create request it hands the remote
/// client, or the exact refusal, in the order the checks run — credential,
/// app resolution, schedule fields, duplicate id.
pub open spec fn declare_request_outcome(
    authenticated: bool,
    rules: Seq<RuleModel>,
    intent: IntentModel,
    table: Seq<AppEntryModel>,
) -> Result<CreateRequestModel, DeclareError> {
    if !authenticated {
        Err(DeclareError::NotAuthenticated)
    } else if resolve_spec(table, intent.apps).len() == 0 {
        Err(DeclareError::InvalidApps)
    } else if policy_of(intent) is None {
        Err(DeclareError::MissingField)
    } else if contains_id(rules, intent.id) {
        Err(DeclareError::DuplicateId)
    } else {
        Ok(
            CreateRequestModel {
                name: derived_name_spec(intent.apps),
                app_ids: resolve_spec(table, intent.apps),
                devices: intent.devices,
                enabled: intent.status == RuleStatus::Active,
            },
        )
    }
}

/// The model of a request result, for stating contracts.
pub open spec fn request_model(r: Result<CreateRequest, DeclareError>) -> Result<
    CreateRequestModel,
    DeclareError,
> {
    match r {
        Ok(q) => Ok(q@),
        Err(e) => Err(e),
    }
}

/// Validates a declaration and computes the remote create request.
///
/// This step has no effect: it takes the store read-only and issues no
/// remote call, so a refused declaration — unresolvable apps, a missing
/// schedule field, a duplicate id, a missing credential — leaves both the
/// store and the remote controller untouched.
pub fn declare_request(
    session: &SessionContext,
    store: &RuleDatabase,
    intent: &RuleIntent,
    catalog: &AppCatalog,
) -> (r: Result<CreateRequest, DeclareError>)
    ensures
        request_model(r) == declare_request_outcome(
            session.authenticated(),
            store@.rules,
            intent@,
            catalog.entries.deep_view(),
        ),
{
    if !session.is_authenticated() {
        return Err(DeclareError::NotAuthenticated);
    }
    let app_ids = catalog.resolve(&intent.apps);
    if app_ids.len() == 0 {
        return Err(DeclareError::InvalidApps);
    }
    if build_policy(intent).is_none() {
        return Err(DeclareError::MissingField);
    }
    if store.contains_rule(intent.id.as_str()) {
        return Err(DeclareError::DuplicateId);
    }
    let name = derived_name(&intent.apps);
    let enabled = match intent.status {
        RuleStatus::Active => true,
        RuleStatus::Disabled => false,
    };
    Ok(CreateRequest { name, app_ids, devices: clone_strings(&intent.devices), enabled })
}

/// Finishes a declaration with the remote create call's outcome, whatever
/// it was. A failed call — any non-success status, a transport fault, a
/// timeout — leaves no local trace and reports `RemoteRejected` with the
/// upstream failure. On success the record is built, carrying the remote
/// identifier if the call returned one, and stored; the caller then arms
/// expiry from the stored record.
///
/// The store mutates exactly when the record is returned; a failed call, a
/// duplicate id or a missing schedule field leaves it untouched.
pub fn declare_complete(
    store: &mut RuleDatabase,
    intent: &RuleIntent,
    outcome: Result<Option<String>, RemoteError>,
    now: i64,
) -> (r: Result<DeclaredRule, DeclareError>)
    requires
        old(store).wf(),
    ensures
        final(store).wf(),
        outcome matches Err(e) ==> (r matches Err(DeclareError::RemoteRejected(e2)) && e2@ == e@
            && *final(store) == *old(store)),
        outcome is Ok && policy_of(intent@) is None ==> (r matches Err(DeclareError::MissingField)
            && *final(store) == *old(store)),
        outcome is Ok && policy_of(intent@) is Some && contains_id(old(store)@.rules, intent@.id)
            ==> (r matches Err(DeclareError::DuplicateId) && *final(store) == *old(store)),
        outcome is Ok && policy_of(intent@) is Some && !contains_id(
            old(store)@.rules,
            intent@.id,
        ) ==> {
            let remote_id = outcome->Ok_0;
            let policy = policy_of(intent@)->Some_0;
            &&& r matches Ok(rule) && rule@ == rule_of(intent@, policy, remote_id.deep_view())
            &&& final(store)@.rules == old(store)@.rules.push(
                rule_of(intent@, policy, remote_id.deep_view()),
            )
            &&& final(store)@.created_at == old(store)@.created_at
            &&& final(store)@.last_updated == now as int
        },
{
    let remote_id = match outcome {
        Err(e) => {
            return Err(DeclareError::RemoteRejected(e));
        },
        Ok(rid) => rid,
    };
    let policy = match build_policy(intent) {
        None => {
            return Err(DeclareError::MissingField);
        },
        Some(p) => p,
    };
    let rule = DeclaredRule {
        id: intent.id.clone(),
        apps: clone_strings(&intent.apps),
        devices: clone_strings(&intent.devices),
        status: intent.status,
        created_at: intent.created_at,
        policy,
        remote_id,
    };
    let stored = rule.clone();
    match store.add_rule(rule, now) {
        Ok(()) => Ok(stored),
        Err(_) => Err(DeclareError::DuplicateId),
    }
}

/// Starts a revocation: removes the record optimistically and hands it back
/// so that the caller can issue the remote delete — or roll the removal back
/// through `revoke_finish` if that delete fails.
///
/// Refuses without a credential; an unknown id is a no-op answered with
/// `NotFound`.
pub fn revoke_begin(
    session: &SessionContext,
    store: &mut RuleDatabase,
    rule_id: &str,
    now: i64,
) -> (r: Result<DeclaredRule, RevokeError>)
    requires
        old(store).wf(),
    ensures
        final(store).wf(),
        !session.authenticated() ==> (r matches Err(RevokeError::NotAuthenticated)
            && *final(store) == *old(store)),
        session.authenticated() && !contains_id(old(store)@.rules, rule_id@) ==> (r matches Err(
            RevokeError::NotFound,
        ) && *final(store) == *old(store)),
        session.authenticated() && contains_id(old(store)@.rules, rule_id@) ==> {
            let pos = first_index(old(store)@.rules, rule_id@);
            &&& r matches Ok(removed) && removed@ == old(store)@.rules[pos]
            &&& final(store)@.rules == old(store)@.rules.remove(pos)
            &&& final(store)@.created_at == old(store)@.created_at
            &&& final(store)@.last_updated == now as int
        },
{
    if !session.is_authenticated() {
        return Err(RevokeError::NotAuthenticated);
    }
    match store.remove_rule(rule_id, now) {
        None => Err(RevokeError::NotFound),
        Some(removed) => Ok(removed),
    }
}

/// Finishes a revocation with the remote delete's outcome. Success ends the
/// teardown; failure re-inserts the removed record — the compensating
/// action — so the rule is never lost locally while possibly still enforced
/// remotely, and reports `RemoteRejected` for the caller to retry.
pub fn revoke_finish(
    store: &mut RuleDatabase,
    removed: DeclaredRule,
    outcome: Result<(), RemoteError>,
    now: i64,
) -> (r: Result<(), RevokeError>)
    requires
        old(store).wf(),
    ensures
        final(store).wf(),
        outcome is Ok ==> r is Ok && *final(store) == *old(store),
        outcome matches Err(e) ==> {
            &&& r matches Err(RevokeError::RemoteRejected(e2)) && e2@ == e@
            &&& !contains_id(old(store)@.rules, removed@.id) ==> {
                &&& final(store)@.rules == old(store)@.rules.push(removed@)
                &&& final(store)@.created_at == old(store)@.created_at
                &&& final(store)@.last_updated == now as int
            }
            &&& contains_id(old(store)@.rules, removed@.id) ==> *final(store) == *old(store)
        },
{
    match outcome {
        Ok(()) => Ok(()),
        Err(e) => {
            let _ = store.add_rule(removed, now);
            Err(RevokeError::RemoteRejected(e))
        },
    }
}

/// Law: a failed remote delete loses nothing. A revocation removes the
/// first record with the `id` and, when the remote delete fails, pushes the
/// removed record back; the resulting store still contains a record with
/// that `id`, so the caller can retry and the rule is never lost locally
/// while still enforced remotely.
pub proof fn lemma_compensation_keeps_record(rules: Seq<RuleModel>, id: Seq<char>)
    requires
        contains_id(rules, id),
    ensures
        contains_id(
            rules.remove(first_index(rules, id)).push(rules[first_index(rules, id)]),
            id,
        ),
{
    crate::store::lemma_first_index(rules, id);
    let pos = first_index(rules, id);
    let after = rules.remove(pos).push(rules[pos]);
    assert(after[after.len() - 1] == rules[pos]);
    assert(contains_id(after, id));
}

/// Law: a declared record survives a restart. After a successful
/// declaration stored its record, rebuilding the store from its own
/// persisted records yields exactly the same records, the new one among
/// them — identical to the declared intent except for the attached remote
/// link.
pub proof fn lemma_durability_roundtrip(
    rules: Seq<RuleModel>,
    intent: IntentModel,
    policy: crate::rule::RulePolicy,
    remote_id: Option<Seq<char>>,
)
    requires
        crate::store::ids_unique(rules),
        !contains_id(rules, intent.id),
        policy_of(intent) == Some(policy),
    ensures
        crate::store::dedup_ids(rules.push(rule_of(intent, policy, remote_id))) == rules.push(
            rule_of(intent, policy, remote_id),
        ),
        rules.push(rule_of(intent, policy, remote_id)).last() == rule_of(
            intent,
            policy,
            remote_id,
        ),
        contains_id(rules.push(rule_of(intent, policy, remote_id)), intent.id),
{
    let stored = rules.push(rule_of(intent, policy, remote_id));
    assert forall|p: int, q: int|
        0 <= p < q < stored.len() implies stored[p].id != stored[q].id by {
        if q == rules.len() {
            assert(stored[q] == rule_of(intent, policy, remote_id));
            assert(stored[p] == rules[p]);
        }
    }
    crate::store::lemma_dedup_ids_identity(stored);
    assert(stored[stored.len() - 1] == rule_of(intent, policy, remote_id));
}

/// One record whose remote enforcement object a bulk revocation must
/// delete.
pub struct RemoteLink {
    pub rule_id: String,
    pub remote_id: String,
}

/// Mathematical model of a remote link.
pub struct RemoteLinkModel {
    pub rule_id: Seq<char>,
    pub remote_id: Seq<char>,
}

impl View for RemoteLink {
    type V = RemoteLinkModel;

    open spec fn view(&self) -> RemoteLinkModel {
        RemoteLinkModel { rule_id: self.rule_id@, remote_id: self.remote_id@ }
    }
}

impl DeepView for RemoteLink {
    type V = RemoteLinkModel;

    open spec fn deep_view(&self) -> RemoteLinkModel {
        self.view()
    }
}

/// The remote-linked records of the store, in order: each record that
/// carries a remote identifier, paired with it.
pub open spec fn linked_pairs(rules: Seq<RuleModel>) -> Seq<RemoteLinkModel>
    decreases rules.len(),
{
    if rules.len() == 0 {
        Seq::empty()
    } else {
        let front = linked_pairs(rules.drop_last());
        match rules.last().remote_id {
            Some(rid) => front.push(
                RemoteLinkModel { rule_id: rules.last().id, remote_id: rid },
            ),
            None => front,
        }
    }
}

/// Starts a bulk revocation: the list of remote deletes to issue, one per
/// remote-linked record. Reads only; refuses without a credential.
pub fn revoke_all_begin(session: &SessionContext, store: &RuleDatabase) -> (r: Result<
    Vec<RemoteLink>,
    RevokeError,
>)
    ensures
        !session.authenticated() ==> r matches Err(RevokeError::NotAuthenticated),
        session.authenticated() ==> (r matches Ok(links) && links.deep_view() == linked_pairs(
            store@.rules,
        )),
{
    if !session.is_authenticated() {
        return Err(RevokeError::NotAuthenticated);
    }
    let ghost all = store@.rules;
    let mut links: Vec<RemoteLink> = Vec::new();
    proof {
        assert(all.take(0) =~= Seq::<RuleModel>::empty());
        assert(links.deep_view() =~= linked_pairs(all.take(0)));
    }
    let n = store.len();
    let mut i: usize = 0;
    while i < n
        invariant
            i <= n,
            n == all.len(),
            all == store@.rules,
            links.deep_view() == linked_pairs(all.take(i as int)),
        decreases n - i,
    {
        let rule = store.rule_at(i);
        proof {
            assert(all.take(i as int + 1).drop_last() =~= all.take(i as int));
            assert(all.take(i as int + 1).last() == all[i as int]);
        }
        match &rule.remote_id {
            Some(rid) => {
                links.push(RemoteLink { rule_id: rule.id.clone(), remote_id: rid.clone() });
                proof {
                    assert(links.deep_view() =~= linked_pairs(all.take(i as int + 1)));
                }
            },
            None => {
                proof {
                    assert(links.deep_view() =~= linked_pairs(all.take(i as int + 1)));
                }
            },
        }
        i = i + 1;
    }
    proof {
        assert(all.take(all.len() as int) =~= all);
    }
    Ok(links)
}

/// The result the remote delete call returned for one linked record.
pub struct DeleteOutcome {
    pub rule_id: String,
    pub result: Result<(), RemoteError>,
}

/// Mathematical model of one delete outcome.
pub struct DeleteOutcomeModel {
    pub rule_id: Seq<char>,
    pub result: Result<(), RemoteErrorModel>,
}

impl View for DeleteOutcome {
    type V = DeleteOutcomeModel;

    open spec fn view(&self) -> DeleteOutcomeModel {
        DeleteOutcomeModel {
            rule_id: self.rule_id@,
            result: match self.result {
                Ok(()) => Ok(()),
                Err(e) => Err(e@),
            },
        }
    }
}

impl DeepView for DeleteOutcome {
    type V = DeleteOutcomeModel;

    open spec fn deep_view(&self) -> DeleteOutcomeModel {
        self.view()
    }
}

/// One failed delete in a bulk revocation.
#[derive(Debug)]
pub struct RevokeFailure {
    pub rule_id: String,
    pub error: RemoteError,
}

/// Mathematical model of one reported failure.
pub struct RevokeFailureModel {
    pub rule_id: Seq<char>,
    pub error: RemoteErrorModel,
}

impl View for RevokeFailure {
    type V = RevokeFailureModel;

    open spec fn view(&self) -> RevokeFailureModel {
        RevokeFailureModel { rule_id: self.rule_id@, error: self.error@ }
    }
}

impl DeepView for RevokeFailure {
    type V = RevokeFailureModel;

    open spec fn deep_view(&self) -> RevokeFailureModel {
        self.view()
    }
}

/// The outcome of a bulk revocation: how many remote deletes succeeded and
/// which failed.
#[derive(Debug)]
pub struct RevokeAllReport {
    pub deleted_count: usize,
    pub failures: Vec<RevokeFailure>,
}

/// How many deletes succeeded.
pub open spec fn ok_count(outcomes: Seq<DeleteOutcomeModel>) -> int
    decreases outcomes.len(),
{
    if outcomes.len() == 0 {
        0
    } else {
        ok_count(outcomes.drop_last()) + if outcomes.last().result is Ok {
            1int
        } else {
            0int
        }
    }
}

/// The failed deletes, in order, each with its record id and error.
pub open spec fn failures_of(outcomes: Seq<DeleteOutcomeModel>) -> Seq<RevokeFailureModel>
    decreases outcomes.len(),
{
    if outcomes.len() == 0 {
        Seq::empty()
    } else {
        let front = failures_of(outcomes.drop_last());
        match outcomes.last().result {
            Ok(()) => front,
            Err(e) => front.push(
                RevokeFailureModel { rule_id: outcomes.last().rule_id, error: e },
            ),
        }
    }
}

/// Law: every delete outcome is accounted for — the successes counted and
/// the failures listed add up to all outcomes handed in.
pub proof fn lemma_revoke_all_accounting(outcomes: Seq<DeleteOutcomeModel>)
    ensures
        ok_count(outcomes) + failures_of(outcomes).len() == outcomes.len(),
        0 <= ok_count(outcomes),
    decreases outcomes.len(),
{
    if outcomes.len() > 0 {
        lemma_revoke_all_accounting(outcomes.drop_last());
    }
}

/// Finishes a bulk revocation with the outcomes of all issued deletes:
/// clears the whole local store — deliberately, whatever the deletes did;
/// `cleanup` reconciles stragglers later — and reports the count of
/// successful deletes and the list of failures.
pub fn revoke_all_finish(
    store: &mut RuleDatabase,
    outcomes: &Vec<DeleteOutcome>,
    now: i64,
) -> (r: RevokeAllReport)
    ensures
        final(store).wf(),
        final(store)@.rules == Seq::<RuleModel>::empty(),
        final(store)@.created_at == old(store)@.created_at,
        final(store)@.last_updated == now as int,
        r.deleted_count as int == ok_count(outcomes.deep_view()),
        r.failures.deep_view() == failures_of(outcomes.deep_view()),
{
    let ghost all = outcomes.deep_view();
    let mut deleted: usize = 0;
    let mut failures: Vec<RevokeFailure> = Vec::new();
    proof {
        assert(all.take(0) =~= Seq::<DeleteOutcomeModel>::empty());
        assert(failures.deep_view() =~= failures_of(all.take(0)));
    }
    let mut i: usize = 0;
    while i < outcomes.len()
        invariant
            i <= outcomes@.len(),
            all == outcomes.deep_view(),
            all.len() == outcomes@.len(),
            deleted as int == ok_count(all.take(i as int)),
            deleted <= i,
            failures.deep_view() == failures_of(all.take(i as int)),
        decreases outcomes@.len() - i,
    {
        proof {
            assert(all.take(i as int + 1).drop_last() =~= all.take(i as int));
            assert(all.take(i as int + 1).last() == all[i as int]);
        }
        match &outcomes[i].result {
            Ok(()) => {
                deleted = deleted + 1;
            },
            Err(e) => {
                failures.push(
                    RevokeFailure { rule_id: outcomes[i].rule_id.clone(), error: e.clone() },
                );
                proof {
                    assert(failures.deep_view() =~= failures_of(all.take(i as int + 1)));
                }
            },
        }
        i = i + 1;
    }
    proof {
        assert(all.take(outcomes@.len() as int) =~= all);
    }
    store.clear_all(now);
    RevokeAllReport { deleted_count: deleted, failures }
}

} // verus!
