use kyc_backend::staff::{
    admin_step_listed, build_staff_session_response, check_admin_step, check_step_waiting,
    contact_lookup_needed, default_limit, default_page, filter_value, finish_user_id_resolution,
    flow_type_selected, next_flow_action, normalized_limit, normalized_page, plan_admin_step_scan,
    plan_staff_session_listing, resolution_status, resolve_admin_outcome, session_refresh_needed,
    select_admin_steps, session_listing_response, sort_admin_steps, start_user_id_resolution,
    submission_step, AdminStep, AdminStepCandidate, AdminStepQuery, FlowAdvance, SessionFilter,
    SessionListing, SessionRow, StaffFlowError, StaffSessionQuery, StepResolution,
    SubmissionAction, SubmissionEvent, SubmissionState, UserContact, UserIdResolution,
    VerifyOutcome,
};

fn s(v: &str) -> String {
    v.to_string()
}

fn some(v: &str) -> Option<String> {
    Some(v.to_string())
}

fn step(id: &str, created_at: i64) -> AdminStep {
    AdminStep {
        id: s(id),
        flow_id: s("flow_1"),
        step_type: s("REVIEW"),
        actor: s("ADMIN"),
        status: s("WAITING"),
        created_at,
    }
}

#[test]
fn pagination_defaults_and_bounds() {
    assert_eq!(default_page(), 1);
    assert_eq!(default_limit(), 50);
    assert_eq!(normalized_page(-3), 1);
    assert_eq!(normalized_page(0), 1);
    assert_eq!(normalized_page(7), 7);
    assert_eq!(normalized_limit(0), 1);
    assert_eq!(normalized_limit(-9), 1);
    assert_eq!(normalized_limit(50), 50);
    assert_eq!(normalized_limit(100), 100);
    assert_eq!(normalized_limit(101), 100);
    assert_eq!(normalized_limit(i32::MAX), 100);
}

#[test]
fn filter_values_are_trimmed_and_blank_ones_dropped() {
    assert_eq!(filter_value(&some("  +237 6 ")), some("+237 6"));
    assert_eq!(filter_value(&some("   ")), None);
    assert_eq!(filter_value(&some("")), None);
    assert_eq!(filter_value(&None), None);
}

#[test]
fn user_ids_without_phone_filter_are_the_user_filter() {
    match start_user_id_resolution(&some(" usr_1 "), &some("  ")) {
        UserIdResolution::Resolved(ids) => assert_eq!(ids, vec![s("usr_1")]),
        UserIdResolution::FindUsersByPhone(_) => panic!("no phone filter was given"),
    }
    match start_user_id_resolution(&None, &None) {
        UserIdResolution::Resolved(ids) => assert!(ids.is_empty()),
        UserIdResolution::FindUsersByPhone(_) => panic!("no phone filter was given"),
    }
    match start_user_id_resolution(&some("usr_1"), &some(" 555 ")) {
        UserIdResolution::FindUsersByPhone(p) => assert_eq!(p, "555"),
        UserIdResolution::Resolved(_) => panic!("a phone filter was given"),
    }
}

#[test]
fn users_found_by_phone_are_sorted_deduplicated_and_narrowed() {
    let found = vec![s("usr_b"), s("usr_a"), s("usr_c"), s("usr_a"), s("usr_b")];
    assert_eq!(finish_user_id_resolution(&None, &found), vec![s("usr_a"), s("usr_b"), s("usr_c")]);
    assert_eq!(finish_user_id_resolution(&some(" usr_b "), &found), vec![s("usr_b")]);
    assert!(finish_user_id_resolution(&some("usr_z"), &found).is_empty());
    assert_eq!(finish_user_id_resolution(&some(""), &found).len(), 3);
    let mixed = vec![s("b"), s("ab"), s("a"), s("B"), s("é"), s("")];
    let mut expected = mixed.clone();
    expected.sort();
    expected.dedup();
    assert_eq!(finish_user_id_resolution(&None, &mixed), expected);
}

#[test]
fn session_listing_with_unmatched_phone_is_an_empty_page() {
    let query = StaffSessionQuery {
        user_id: None,
        phone_number: some("555"),
        session_type: None,
        status: None,
        page: 0,
        limit: 500,
    };
    match plan_staff_session_listing(query, Vec::new()) {
        SessionListing::Empty { page, limit } => {
            assert_eq!(page, 1);
            assert_eq!(limit, 100);
        },
        SessionListing::Fetch(_) => panic!("an unmatched phone filter gives an empty page"),
    }
}

#[test]
fn session_listing_fetches_with_the_resolved_ids() {
    let query = StaffSessionQuery {
        user_id: some("usr_a"),
        phone_number: some("555"),
        session_type: some("KYC"),
        status: some("OPEN"),
        page: 2,
        limit: 0,
    };
    match plan_staff_session_listing(query, vec![s("usr_a")]) {
        SessionListing::Fetch(f) => {
            assert_eq!(f.user_id, some("usr_a"));
            assert_eq!(f.user_ids, Some(vec![s("usr_a")]));
            assert_eq!(f.session_type, some("KYC"));
            assert_eq!(f.status, some("OPEN"));
            assert_eq!(f.page, 2);
            assert_eq!(f.limit, 1);
        },
        SessionListing::Empty { .. } => panic!("ids were resolved"),
    }
    let query = StaffSessionQuery {
        user_id: None,
        phone_number: None,
        session_type: None,
        status: None,
        page: 1,
        limit: 50,
    };
    match plan_staff_session_listing(query, Vec::new()) {
        SessionListing::Fetch(f) => assert!(f.user_ids.is_none()),
        SessionListing::Empty { .. } => panic!("no phone filter was given"),
    }
}

#[test]
fn admin_step_scan_covers_five_hundred_sessions() {
    let query = AdminStepQuery { status: None, user_id: None, phone_number: some("555"), flow_type: None };
    assert!(plan_admin_step_scan(query, Vec::new()).is_none());
    let query = AdminStepQuery { status: some("WAITING"), user_id: some("u"), phone_number: None, flow_type: None };
    let f = plan_admin_step_scan(query, Vec::new()).unwrap();
    assert_eq!(f.page, 1);
    assert_eq!(f.limit, 500);
    assert_eq!(f.user_id, some("u"));
    assert!(f.user_ids.is_none() && f.session_type.is_none() && f.status.is_none());
}

#[test]
fn admin_step_filters_ignore_ascii_case() {
    assert!(flow_type_selected("kyc_basic", &None));
    assert!(flow_type_selected("kyc_basic", &some("KYC_Basic")));
    assert!(!flow_type_selected("kyc_basic", &some("kyc_basi")));
    assert!(admin_step_listed("admin", "waiting", &None));
    assert!(admin_step_listed("Admin", "waiting", &some("WAITING")));
    assert!(!admin_step_listed("USER", "waiting", &None));
    assert!(!admin_step_listed("ADMIN", "done", &some("WAITING")));
}

#[test]
fn admin_steps_come_by_creation_time_then_id() {
    let steps = vec![step("step_c", 20), step("step_b", 10), step("step_a", 20), step("step_d", 5)];
    let ids: Vec<String> = sort_admin_steps(steps).into_iter().map(|st| st.id).collect();
    assert_eq!(ids, vec![s("step_d"), s("step_b"), s("step_a"), s("step_c")]);
    assert!(sort_admin_steps(Vec::new()).is_empty());
}

#[test]
fn admin_step_checks() {
    assert_eq!(check_admin_step(&None), Err(StaffFlowError::StepNotFound));
    assert_eq!(check_admin_step(&Some(step("s", 1))), Ok(()));
    let mut user_step = step("s", 1);
    user_step.actor = s("USER");
    assert_eq!(check_admin_step(&Some(user_step)), Err(StaffFlowError::StepNotAdmin));
    assert_eq!(check_step_waiting("waiting"), Ok(()));
    assert_eq!(check_step_waiting("COMPLETED"), Err(StaffFlowError::StepNotWaiting));
}

#[test]
fn staff_errors_have_codes_messages_and_statuses() {
    let e = StaffFlowError::StepNotWaiting;
    assert_eq!(e.code(), "STEP_NOT_WAITING");
    assert_eq!(e.message(), "Admin step is not waiting for input");
    assert_eq!(e.status(), 409);
    assert_eq!(StaffFlowError::SessionNotFound.code(), "SESSION_NOT_FOUND");
    assert_eq!(StaffFlowError::SessionNotFound.message(), "Session not found");
    assert_eq!(StaffFlowError::FlowNotFound.status(), 404);
    assert_eq!(StaffFlowError::StepNotFound.code(), "STEP_NOT_FOUND");
    assert_eq!(StaffFlowError::StepNotAdmin.status(), 400);
    assert_eq!(StaffFlowError::StepNotAdmin.message(), "Step is not an admin-managed step");
    assert_eq!(StaffFlowError::InvalidAdminStepOutcome.code(), "INVALID_ADMIN_STEP_OUTCOME");
    assert_eq!(StaffFlowError::InvalidAdminStepOutcome.status(), 409);
}

#[test]
fn admin_outcomes_resolve_the_step() {
    let done = resolve_admin_outcome(VerifyOutcome::Done).unwrap();
    assert!(done == StepResolution::Completed { branch: None });
    assert_eq!(resolution_status(&done), "COMPLETED");
    let branched = resolve_admin_outcome(VerifyOutcome::Branched(s("reject"))).unwrap();
    assert!(branched == StepResolution::Completed { branch: some("reject") });
    let failed = resolve_admin_outcome(VerifyOutcome::Failed).unwrap();
    assert!(failed == StepResolution::Failed);
    assert_eq!(resolution_status(&failed), "FAILED");
    assert!(matches!(resolve_admin_outcome(VerifyOutcome::Waiting), Err(StaffFlowError::InvalidAdminStepOutcome)));
    assert!(matches!(resolve_admin_outcome(VerifyOutcome::Retry), Err(StaffFlowError::InvalidAdminStepOutcome)));
}

#[test]
fn flow_advances_after_a_resolved_step() {
    assert!(next_flow_action(some("next"), true, false) == FlowAdvance::StartStep(s("next")));
    assert!(next_flow_action(some("rejected"), false, true) == FlowAdvance::FinishAtTerminal(s("rejected")));
    assert!(next_flow_action(None, false, false) == FlowAdvance::Finish(s("COMPLETED")));
    assert!(next_flow_action(None, true, true) == FlowAdvance::Finish(s("FAILED")));
}

#[test]
fn session_response_carries_the_users_contact() {
    let users = vec![
        UserContact { user_id: s("usr_a"), phone_number: some("555"), full_name: some("Alice") },
        UserContact { user_id: s("usr_b"), phone_number: None, full_name: some("Bob") },
    ];
    let row = SessionRow {
        id: s("session_1"),
        human_id: s("H-1"),
        session_type: s("KYC"),
        status: s("OPEN"),
        user_id: some("usr_a"),
        context: serde_json::from_str("{\"k\": 1}").unwrap(),
        created_at: 10,
        updated_at: 20,
    };
    let r = build_staff_session_response(row, &users);
    assert_eq!(r.id, "session_1");
    assert_eq!(r.human_id, "H-1");
    assert_eq!(r.phone_number, some("555"));
    assert_eq!(r.full_name, some("Alice"));
    assert_eq!(r.context["k"], 1);
    assert_eq!((r.created_at, r.updated_at), (10, 20));
    let row = SessionRow {
        id: s("session_2"),
        human_id: s("H-2"),
        session_type: s("KYC"),
        status: s("OPEN"),
        user_id: some("usr_x"),
        context: serde_json::Value::Null,
        created_at: 1,
        updated_at: 1,
    };
    let r = build_staff_session_response(row, &users);
    assert_eq!(r.user_id, some("usr_x"));
    assert_eq!(r.phone_number, None);
    assert_eq!(r.full_name, None);
    assert!(!contact_lookup_needed(&s("usr_b"), &users));
    assert!(contact_lookup_needed(&s("usr_x"), &users));
}

#[test]
fn session_status_is_refreshed_unless_a_failed_step_ends_the_flow() {
    assert!(session_refresh_needed(&None, false));
    assert!(session_refresh_needed(&some("next"), false));
    assert!(session_refresh_needed(&some("next"), true));
    assert!(!session_refresh_needed(&None, true));
}

#[test]
fn equal_steps_keep_their_order() {
    let mut a = step("step_a", 10);
    a.status = s("first");
    let mut b = step("step_a", 10);
    b.status = s("second");
    let mut c = step("step_a", 10);
    c.status = s("third");
    let sorted = sort_admin_steps(vec![a, step("step_0", 20), b, step("step_z", 1), c]);
    let order: Vec<(String, String)> = sorted.into_iter().map(|st| (st.id, st.status)).collect();
    assert_eq!(
        order,
        vec![
            (s("step_z"), s("WAITING")),
            (s("step_a"), s("first")),
            (s("step_a"), s("second")),
            (s("step_a"), s("third")),
            (s("step_0"), s("WAITING")),
        ]
    );
}

fn candidate(flow_type: &str, id: &str, actor: &str, status: &str, created_at: i64) -> AdminStepCandidate {
    let mut st = step(id, created_at);
    st.actor = s(actor);
    st.status = s(status);
    AdminStepCandidate { flow_type: s(flow_type), step: st }
}

#[test]
fn admin_step_listing_keeps_matching_steps_in_order() {
    let query = AdminStepQuery { status: some("waiting"), user_id: None, phone_number: None, flow_type: some("kyc") };
    let candidates = vec![
        candidate("KYC", "step_c", "ADMIN", "WAITING", 30),
        candidate("AML", "step_x", "ADMIN", "WAITING", 5),
        candidate("KYC", "step_b", "USER", "WAITING", 1),
        candidate("KYC", "step_d", "admin", "COMPLETED", 2),
        candidate("kyc", "step_a", "admin", "waiting", 30),
        candidate("KYC", "step_e", "ADMIN", "WAITING", 10),
    ];
    let r = select_admin_steps(&query, candidates);
    let ids: Vec<String> = r.into_iter().map(|st| st.id).collect();
    assert_eq!(ids, vec![s("step_e"), s("step_a"), s("step_c")]);
    let all = AdminStepQuery { status: None, user_id: None, phone_number: None, flow_type: None };
    let r = select_admin_steps(&all, vec![candidate("AML", "step_2", "ADMIN", "DONE", 2), candidate("KYC", "step_1", "ADMIN", "WAITING", 2)]);
    let ids: Vec<String> = r.into_iter().map(|st| st.id).collect();
    assert_eq!(ids, vec![s("step_1"), s("step_2")]);
    assert!(select_admin_steps(&all, vec![]).is_empty());
}

fn row(id: &str, user_id: Option<String>) -> SessionRow {
    SessionRow {
        id: s(id),
        human_id: s("H"),
        session_type: s("KYC"),
        status: s("OPEN"),
        user_id,
        context: serde_json::Value::Null,
        created_at: 1,
        updated_at: 2,
    }
}

#[test]
fn session_listing_response_maps_rows_in_order() {
    let users = vec![UserContact { user_id: s("usr_a"), phone_number: some("555"), full_name: some("Alice") }];
    let filter = SessionFilter { user_id: None, user_ids: None, session_type: None, status: None, page: 2, limit: 10 };
    let r = session_listing_response(
        SessionListing::Fetch(filter),
        vec![row("session_1", some("usr_a")), row("session_2", None)],
        42,
        &users,
    );
    assert_eq!((r.page, r.limit, r.total), (2, 10, 42));
    assert_eq!(r.items.len(), 2);
    assert_eq!(r.items[0].id, "session_1");
    assert_eq!(r.items[0].full_name, some("Alice"));
    assert_eq!(r.items[1].id, "session_2");
    assert_eq!(r.items[1].phone_number, None);
    let r = session_listing_response(SessionListing::Empty { page: 1, limit: 20 }, vec![row("session_9", None)], 7, &users);
    assert_eq!((r.page, r.limit, r.total), (1, 20, 0));
    assert!(r.items.is_empty());
}

fn admin_step(actor: &str, status: &str) -> Option<AdminStep> {
    let mut st = step("step_1", 1);
    st.actor = s(actor);
    st.status = s(status);
    Some(st)
}

#[test]
fn admin_submission_checks_the_step_before_reading_the_flow() {
    let (next, action) = submission_step(SubmissionState::LoadingStep, SubmissionEvent::StepLoaded(None));
    assert!(matches!(next, SubmissionState::Refused(StaffFlowError::StepNotFound)));
    assert!(matches!(action, SubmissionAction::Refuse(StaffFlowError::StepNotFound)));
    let (next, _) = submission_step(SubmissionState::LoadingStep, SubmissionEvent::StepLoaded(admin_step("USER", "COMPLETED")));
    assert!(matches!(next, SubmissionState::Refused(StaffFlowError::StepNotAdmin)));
    let (next, action) = submission_step(SubmissionState::LoadingStep, SubmissionEvent::StepLoaded(admin_step("admin", "COMPLETED")));
    assert!(matches!(next, SubmissionState::Refused(StaffFlowError::StepNotWaiting)));
    assert!(matches!(action, SubmissionAction::Refuse(StaffFlowError::StepNotWaiting)));
    let (next, action) = submission_step(SubmissionState::LoadingStep, SubmissionEvent::StepLoaded(admin_step("Admin", "waiting")));
    assert!(matches!(next, SubmissionState::LoadingFlow));
    assert!(matches!(action, SubmissionAction::LoadFlow));
    let (next, action) = submission_step(SubmissionState::LoadingFlow, SubmissionEvent::FlowLoaded { found: false });
    assert!(matches!(next, SubmissionState::Refused(StaffFlowError::FlowNotFound)));
    assert!(matches!(action, SubmissionAction::Refuse(StaffFlowError::FlowNotFound)));
    let (next, action) = submission_step(SubmissionState::LoadingFlow, SubmissionEvent::FlowLoaded { found: true });
    assert!(matches!(next, SubmissionState::LoadingSession));
    assert!(matches!(action, SubmissionAction::LoadSession));
    let (next, _) = submission_step(SubmissionState::LoadingSession, SubmissionEvent::SessionLoaded { found: false });
    assert!(matches!(next, SubmissionState::Refused(StaffFlowError::SessionNotFound)));
    let (next, action) = submission_step(SubmissionState::LoadingSession, SubmissionEvent::SessionLoaded { found: true });
    assert!(matches!(next, SubmissionState::Verifying));
    assert!(matches!(action, SubmissionAction::VerifyInput));
}

#[test]
fn admin_submission_resolves_and_carries_the_flow_on() {
    let (next, action) = submission_step(SubmissionState::Verifying, SubmissionEvent::Verified(VerifyOutcome::Failed));
    assert!(matches!(next, SubmissionState::Transitioning { failed: true }));
    assert!(matches!(action, SubmissionAction::RecordFailure));
    let (next, action) = submission_step(SubmissionState::Verifying, SubmissionEvent::Verified(VerifyOutcome::Branched(s("reject"))));
    assert!(matches!(next, SubmissionState::Transitioning { failed: false }));
    match action {
        SubmissionAction::RecordCompletion { branch } => assert_eq!(branch, some("reject")),
        _ => panic!("expected a completion"),
    }
    let (_, action) = submission_step(SubmissionState::Verifying, SubmissionEvent::Verified(VerifyOutcome::Done));
    assert!(matches!(action, SubmissionAction::RecordCompletion { branch: None }));
    for outcome in [VerifyOutcome::Waiting, VerifyOutcome::Retry] {
        let (next, action) = submission_step(SubmissionState::Verifying, SubmissionEvent::Verified(outcome));
        assert!(matches!(next, SubmissionState::Refused(StaffFlowError::InvalidAdminStepOutcome)));
        assert!(matches!(action, SubmissionAction::Refuse(StaffFlowError::InvalidAdminStepOutcome)));
    }
    let (next, action) = submission_step(
        SubmissionState::Transitioning { failed: true },
        SubmissionEvent::TransitionResolved { next: None, next_is_step: false },
    );
    assert!(matches!(next, SubmissionState::Finished));
    match action {
        SubmissionAction::Advance { advance, refresh_session } => {
            assert!(advance == FlowAdvance::Finish(s("FAILED")));
            assert!(!refresh_session);
        }
        _ => panic!("expected an advance"),
    }
    let (_, action) = submission_step(
        SubmissionState::Transitioning { failed: false },
        SubmissionEvent::TransitionResolved { next: some("next_step"), next_is_step: true },
    );
    match action {
        SubmissionAction::Advance { advance, refresh_session } => {
            assert!(advance == FlowAdvance::StartStep(s("next_step")));
            assert!(refresh_session);
        }
        _ => panic!("expected an advance"),
    }
}

#[test]
fn refused_and_finished_submissions_ignore_events() {
    let (next, action) = submission_step(SubmissionState::Finished, SubmissionEvent::FlowLoaded { found: true });
    assert!(matches!(next, SubmissionState::Finished));
    assert!(matches!(action, SubmissionAction::Ignore));
    let (next, action) = submission_step(
        SubmissionState::Refused(StaffFlowError::StepNotFound),
        SubmissionEvent::StepLoaded(admin_step("ADMIN", "WAITING")),
    );
    assert!(matches!(next, SubmissionState::Refused(StaffFlowError::StepNotFound)));
    assert!(matches!(action, SubmissionAction::Ignore));
    let (next, action) = submission_step(SubmissionState::LoadingFlow, SubmissionEvent::SessionLoaded { found: true });
    assert!(matches!(next, SubmissionState::LoadingFlow));
    assert!(matches!(action, SubmissionAction::Ignore));
}
