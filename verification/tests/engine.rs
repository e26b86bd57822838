use parental_rules::catalog::default_catalog;
use parental_rules::lifecycle::declare_complete;
use parental_rules::lifecycle::declare_request;
use parental_rules::lifecycle::revoke_all_begin;
use parental_rules::lifecycle::revoke_all_finish;
use parental_rules::lifecycle::revoke_begin;
use parental_rules::lifecycle::revoke_finish;
use parental_rules::lifecycle::DeclareError;
use parental_rules::lifecycle::DeleteOutcome;
use parental_rules::lifecycle::RemoteError;
use parental_rules::lifecycle::RemoteFaultKind;
use parental_rules::lifecycle::RevokeError;
use parental_rules::lifecycle::SessionContext;
use parental_rules::rule::DeclaredRule;
use parental_rules::rule::RuleIntent;
use parental_rules::rule::RuleKind;
use parental_rules::rule::RulePolicy;
use parental_rules::rule::RuleStatus;
use parental_rules::store::RuleDatabase;
use parental_rules::store::StoreError;

fn session() -> SessionContext {
    SessionContext {
        controller_url: "https://192.168.1.1:8443".to_string(),
        credential: Some("SECRET-REDACTED".to_string()),
    }
}

fn anonymous_session() -> SessionContext {
    SessionContext {
        controller_url: "https://192.168.1.1:8443".to_string(),
        credential: None,
    }
}

fn intent(id: &str, apps: &[&str], kind: RuleKind) -> RuleIntent {
    RuleIntent {
        id: id.to_string(),
        apps: apps.iter().map(|a| a.to_string()).collect(),
        kind,
        devices: vec!["all".to_string()],
        status: RuleStatus::Active,
        created_at: 1_700_000_000,
        duration_hours: None,
        end_at: None,
        plan: None,
    }
}

fn store_has(db: &RuleDatabase, id: &str) -> bool {
    db.get_rules().iter().any(|r| r.id == id)
}

#[test]
fn declare_stores_record_with_remote_id() {
    let mut db = RuleDatabase::new();
    let it = intent("rule-1", &["fortnite"], RuleKind::Permanent);
    let req = declare_request(&session(), &db, &it, &default_catalog()).unwrap();
    assert_eq!(req.name, "[PUC] fortnite");
    assert_eq!(req.app_ids, vec!["655369".to_string()]);
    assert_eq!(req.devices, vec!["all".to_string()]);
    assert!(req.enabled);
    let stored = declare_complete(&mut db, &it, Ok(Some("remote-9".to_string())), 7).unwrap();
    assert_eq!(stored.id, "rule-1");
    assert_eq!(stored.remote_id, Some("remote-9".to_string()));
    assert!(store_has(&db, "rule-1"));
    assert_eq!(db.last_updated(), 7);
}

#[test]
fn duplicate_declare_fails_and_leaves_store_unchanged() {
    let mut db = RuleDatabase::new();
    let it = intent("rule-1", &["fortnite"], RuleKind::Permanent);
    declare_complete(&mut db, &it, Ok(None), 1).unwrap();
    let before: Vec<String> = db.get_rules().iter().map(|r| r.id.clone()).collect();

    // A second declaration with the same id must stop at the request step.
    let second = intent("rule-1", &["roblox"], RuleKind::Permanent);
    let res = declare_request(&session(), &db, &second, &default_catalog());
    assert!(matches!(res, Err(DeclareError::DuplicateId)));

    // And the completion step refuses it as well.
    let res = declare_complete(&mut db, &second, Ok(None), 2);
    assert!(matches!(res, Err(DeclareError::DuplicateId)));

    let after: Vec<String> = db.get_rules().iter().map(|r| r.id.clone()).collect();
    assert_eq!(before, after);
    assert_eq!(db.get_rules().len(), 1);
}

#[test]
fn rejection_happens_before_any_effect() {
    let db = RuleDatabase::new();
    let it = intent("rule-1", &["unknown-app", "another-unknown"], RuleKind::Permanent);
    let res = declare_request(&session(), &db, &it, &default_catalog());
    // No request value exists, so the transport has nothing to send: zero
    // remote calls; and the store was taken read-only: zero mutations.
    assert!(matches!(res, Err(DeclareError::InvalidApps)));
    assert_eq!(db.get_rules().len(), 0);
}

#[test]
fn remote_create_failure_leaves_no_trace() {
    let mut db = RuleDatabase::new();
    let it = intent("rule-1", &["fortnite"], RuleKind::Permanent);
    let failure = RemoteError {
        kind: RemoteFaultKind::ClientError,
        message: "HTTP 403".to_string(),
    };
    let res = declare_complete(&mut db, &it, Err(failure), 4);
    match res {
        Err(DeclareError::RemoteRejected(e)) => {
            assert_eq!(e.kind, RemoteFaultKind::ClientError);
            assert_eq!(e.message, "HTTP 403");
        }
        _ => panic!("expected the upstream failure to be reported"),
    }
    assert_eq!(db.get_rules().len(), 0);
}

#[test]
fn duration_without_hours_is_missing_field() {
    let db = RuleDatabase::new();
    let it = intent("rule-1", &["fortnite"], RuleKind::Duration);
    let res = declare_request(&session(), &db, &it, &default_catalog());
    assert!(matches!(res, Err(DeclareError::MissingField)));
}

#[test]
fn until_without_end_is_missing_field() {
    let db = RuleDatabase::new();
    let it = intent("rule-1", &["fortnite"], RuleKind::Until);
    let res = declare_request(&session(), &db, &it, &default_catalog());
    assert!(matches!(res, Err(DeclareError::MissingField)));
}

#[test]
fn recurring_without_plan_is_missing_field() {
    let db = RuleDatabase::new();
    let it = intent("rule-1", &["fortnite"], RuleKind::Recurring);
    let res = declare_request(&session(), &db, &it, &default_catalog());
    assert!(matches!(res, Err(DeclareError::MissingField)));
}

#[test]
fn declare_without_credential_is_refused() {
    let db = RuleDatabase::new();
    let it = intent("rule-1", &["fortnite"], RuleKind::Permanent);
    let res = declare_request(&anonymous_session(), &db, &it, &default_catalog());
    assert!(matches!(res, Err(DeclareError::NotAuthenticated)));
}

#[test]
fn disabled_status_turns_enabled_off() {
    let db = RuleDatabase::new();
    let mut it = intent("rule-1", &["fortnite"], RuleKind::Permanent);
    it.status = RuleStatus::Disabled;
    let req = declare_request(&session(), &db, &it, &default_catalog()).unwrap();
    assert!(!req.enabled);
}

#[test]
fn durability_roundtrip_preserves_declared_record() {
    let mut db = RuleDatabase::new();
    let mut it = intent("rule-1", &["fortnite", "roblox"], RuleKind::Duration);
    it.duration_hours = Some(2);
    let stored = declare_complete(&mut db, &it, Ok(Some("remote-1".to_string())), 5).unwrap();

    // Simulated restart: rebuild the store from its own snapshot.
    let reloaded = RuleDatabase::load(db.snapshot(), db.created_at(), db.last_updated());
    assert_eq!(reloaded.get_rules().len(), 1);
    let r = &reloaded.get_rules()[0];
    assert_eq!(r.id, stored.id);
    assert_eq!(r.apps, vec!["fortnite".to_string(), "roblox".to_string()]);
    assert_eq!(r.devices, vec!["all".to_string()]);
    assert_eq!(r.status, RuleStatus::Active);
    assert_eq!(r.created_at, 1_700_000_000);
    assert_eq!(r.policy, RulePolicy::Duration { hours: 2 });
    assert_eq!(r.remote_id, Some("remote-1".to_string()));
}

#[test]
fn load_keeps_first_record_of_each_id() {
    let mk = |id: &str, app: &str| DeclaredRule {
        id: id.to_string(),
        apps: vec![app.to_string()],
        devices: vec!["all".to_string()],
        status: RuleStatus::Active,
        created_at: 0,
        policy: RulePolicy::Permanent,
        remote_id: None,
    };
    let records = vec![mk("a", "fortnite"), mk("b", "roblox"), mk("a", "youtube")];
    let db = RuleDatabase::load(records, 3, 4);
    assert_eq!(db.created_at(), 3);
    assert_eq!(db.last_updated(), 4);
    assert_eq!(db.get_rules().len(), 2);
    assert_eq!(db.get_rules()[0].id, "a");
    assert_eq!(db.get_rules()[0].apps, vec!["fortnite".to_string()]);
    assert_eq!(db.get_rules()[1].id, "b");
}

#[test]
fn compensating_delete_keeps_the_record() {
    let mut db = RuleDatabase::new();
    let it = intent("rule-1", &["fortnite"], RuleKind::Permanent);
    declare_complete(&mut db, &it, Ok(Some("remote-1".to_string())), 1).unwrap();

    let removed = revoke_begin(&session(), &mut db, "rule-1", 2).unwrap();
    assert!(!store_has(&db, "rule-1"));

    // The remote delete is forced to fail.
    let failure = RemoteError {
        kind: RemoteFaultKind::ServerError,
        message: "upstream refused".to_string(),
    };
    let res = revoke_finish(&mut db, removed, Err(failure), 3);
    assert!(matches!(res, Err(RevokeError::RemoteRejected(_))));

    // Nothing was lost: listing the rules still shows the record.
    assert!(store_has(&db, "rule-1"));
    let r = &db.get_rules()[0];
    assert_eq!(r.remote_id, Some("remote-1".to_string()));
}

#[test]
fn successful_revoke_removes_the_record() {
    let mut db = RuleDatabase::new();
    let it = intent("rule-1", &["fortnite"], RuleKind::Permanent);
    declare_complete(&mut db, &it, Ok(Some("remote-1".to_string())), 1).unwrap();

    let removed = revoke_begin(&session(), &mut db, "rule-1", 2).unwrap();
    assert_eq!(removed.remote_id, Some("remote-1".to_string()));
    let res = revoke_finish(&mut db, removed, Ok(()), 3);
    assert!(res.is_ok());
    assert_eq!(db.get_rules().len(), 0);
}

#[test]
fn revoke_without_credential_is_refused() {
    let mut db = RuleDatabase::new();
    let it = intent("rule-1", &["fortnite"], RuleKind::Permanent);
    declare_complete(&mut db, &it, Ok(None), 1).unwrap();
    let res = revoke_begin(&anonymous_session(), &mut db, "rule-1", 2);
    assert!(matches!(res, Err(RevokeError::NotAuthenticated)));
    assert!(store_has(&db, "rule-1"));
}

#[test]
fn expiry_fire_after_manual_revoke_is_a_noop() {
    let mut db = RuleDatabase::new();
    let mut it = intent("rule-1", &["fortnite"], RuleKind::Duration);
    it.duration_hours = Some(1);
    // The rule carries no remote link, so the manual unblock is local-only.
    declare_complete(&mut db, &it, Ok(None), 1).unwrap();

    // Manual revocation before the timer fires.
    let removed = revoke_begin(&session(), &mut db, "rule-1", 2).unwrap();
    assert!(removed.remote_id.is_none());

    // The timer fires later and runs the same revocation: exactly one
    // removal happened, the second pass finds nothing and is not an error
    // to escalate.
    let res = revoke_begin(&session(), &mut db, "rule-1", 3);
    assert!(matches!(res, Err(RevokeError::NotFound)));
    assert_eq!(db.get_rules().len(), 0);
}

#[test]
fn revoke_all_clears_store_and_reports_failures() {
    let mut db = RuleDatabase::new();
    for (id, app, remote) in [
        ("rule-1", "fortnite", Some("r1")),
        ("rule-2", "roblox", Some("r2")),
        ("rule-3", "youtube", None),
    ] {
        let it = intent(id, &[app], RuleKind::Permanent);
        declare_complete(&mut db, &it, Ok(remote.map(|s| s.to_string())), 1).unwrap();
    }

    let links = revoke_all_begin(&session(), &db).unwrap();
    assert_eq!(links.len(), 2);
    assert_eq!(links[0].rule_id, "rule-1");
    assert_eq!(links[0].remote_id, "r1");
    assert_eq!(links[1].rule_id, "rule-2");
    assert_eq!(links[1].remote_id, "r2");

    // One delete succeeds, one is forced to fail.
    let outcomes = vec![
        DeleteOutcome { rule_id: "rule-1".to_string(), result: Ok(()) },
        DeleteOutcome {
            rule_id: "rule-2".to_string(),
            result: Err(RemoteError {
                kind: RemoteFaultKind::Timeout,
                message: "no answer".to_string(),
            }),
        },
    ];
    let report = revoke_all_finish(&mut db, &outcomes, 9);
    assert_eq!(db.get_rules().len(), 0);
    assert_eq!(report.deleted_count, 1);
    assert_eq!(report.failures.len(), 1);
    assert_eq!(report.failures[0].rule_id, "rule-2");
    assert_eq!(report.failures[0].error.kind, RemoteFaultKind::Timeout);
    assert_eq!(db.last_updated(), 9);
}

#[test]
fn revoke_all_with_no_failures_reports_all_deleted() {
    let mut db = RuleDatabase::new();
    let it = intent("rule-1", &["fortnite"], RuleKind::Permanent);
    declare_complete(&mut db, &it, Ok(Some("r1".to_string())), 1).unwrap();
    let outcomes = vec![DeleteOutcome { rule_id: "rule-1".to_string(), result: Ok(()) }];
    let report = revoke_all_finish(&mut db, &outcomes, 2);
    assert_eq!(report.deleted_count, 1);
    assert!(report.failures.is_empty());
    assert_eq!(db.get_rules().len(), 0);
}

#[test]
fn failed_delete_after_a_raced_reinsert_changes_nothing() {
    let mut db = RuleDatabase::new();
    let it = intent("rule-1", &["fortnite"], RuleKind::Permanent);
    declare_complete(&mut db, &it, Ok(Some("remote-1".to_string())), 1).unwrap();
    let removed = revoke_begin(&session(), &mut db, "rule-1", 2).unwrap();

    // A record with the same id reappears before the failure is applied.
    let again = intent("rule-1", &["roblox"], RuleKind::Permanent);
    declare_complete(&mut db, &again, Ok(None), 3).unwrap();

    let failure = RemoteError {
        kind: RemoteFaultKind::Transport,
        message: "connection reset".to_string(),
    };
    let res = revoke_finish(&mut db, removed, Err(failure), 4);
    assert!(matches!(res, Err(RevokeError::RemoteRejected(_))));
    // The store keeps the one record it already had for that id.
    assert_eq!(db.get_rules().len(), 1);
    assert_eq!(db.get_rules()[0].apps, vec!["roblox".to_string()]);
}

#[test]
fn snapshot_is_an_independent_copy() {
    let mut db = RuleDatabase::new();
    let it = intent("rule-1", &["fortnite"], RuleKind::Permanent);
    declare_complete(&mut db, &it, Ok(None), 1).unwrap();
    let snap = db.snapshot();
    db.clear_all(2);
    assert_eq!(db.get_rules().len(), 0);
    assert_eq!(snap.len(), 1);
    assert_eq!(snap[0].id, "rule-1");
}

#[test]
fn store_add_remove_update_clear() {
    let mk = |id: &str| DeclaredRule {
        id: id.to_string(),
        apps: vec!["fortnite".to_string()],
        devices: vec!["all".to_string()],
        status: RuleStatus::Active,
        created_at: 0,
        policy: RulePolicy::Permanent,
        remote_id: None,
    };
    let mut db = RuleDatabase::new();
    assert!(db.add_rule(mk("a"), 1).is_ok());
    assert!(db.add_rule(mk("b"), 2).is_ok());
    assert_eq!(db.add_rule(mk("a"), 3), Err(StoreError::DuplicateId));
    assert_eq!(db.len(), 2);

    let mut updated = mk("a");
    updated.remote_id = Some("r1".to_string());
    assert!(db.update_rule("a", updated, 4).is_ok());
    assert_eq!(db.get_rules()[0].remote_id, Some("r1".to_string()));
    let missing = mk("zzz");
    assert_eq!(db.update_rule("zzz", missing, 5), Err(StoreError::NotFound));

    let removed = db.remove_rule("a", 6).unwrap();
    assert_eq!(removed.id, "a");
    assert!(db.remove_rule("a", 7).is_none());
    assert_eq!(db.len(), 1);

    assert!(db.contains_rule("b"));
    assert!(!db.contains_rule("a"));

    db.clear_all(8);
    assert_eq!(db.len(), 0);
    assert_eq!(db.last_updated(), 8);
}
