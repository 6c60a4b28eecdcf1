use safehouse::boot::{
    check_device, plan_boot, recovery_action, store_without_session, validate_personas, BootPlan, HistoryWalk,
    RecoveryAction, RecoveryStatus, HISTORY_PAGE, THREAD_REPLAY_MAX_EVENTS,
};
use safehouse::claims::{check_unencrypted, check_users, plan_claims, split_users, ClaimsSettings};
use safehouse::coldstart::{
    classify_run, greeting, history_step, HistoryEvent, HistoryStep, RunKind, HISTORY_ATTEMPTS,
};

#[test]
fn a_store_without_its_session_is_refused() {
    assert_eq!(plan_boot(true, false), BootPlan::Refuse);
    assert_eq!(plan_boot(true, true), BootPlan::Warm);
    assert_eq!(plan_boot(false, true), BootPlan::Warm);
    assert_eq!(plan_boot(false, false), BootPlan::Cold);
    assert!(store_without_session("/state").contains("wipe /state and cold-start"));
}

#[test]
fn recovery_is_set_up_or_used() {
    assert_eq!(recovery_action(RecoveryStatus::Enabled), RecoveryAction::Nothing);
    assert_eq!(recovery_action(RecoveryStatus::Disabled), RecoveryAction::Enable);
    assert_eq!(recovery_action(RecoveryStatus::Incomplete), RecoveryAction::Recover);
    assert_eq!(recovery_action(RecoveryStatus::Unknown), RecoveryAction::Recover);
}

#[test]
fn a_device_that_is_not_signed_is_refused() {
    assert!(check_device("DEV", true).is_ok());
    assert!(check_device("DEV", false).unwrap_err().contains("device DEV failed to self-sign"));
}

#[test]
fn personas_are_checked_at_the_start() {
    assert!(validate_personas(&["a".to_owned(), "b_1".to_owned()]).is_ok());
    assert!(validate_personas(&["a".to_owned(), "B".to_owned()]).unwrap_err().contains("\"B\""));
    assert!(validate_personas(&[]).is_ok());
}

#[test]
fn history_is_walked_page_by_page() {
    let mut walk = HistoryWalk::new(3);
    let first = walk.next_page().unwrap();
    assert_eq!(first.from, None);
    assert_eq!(first.limit, 3);
    walk.take_page(&[r#"{"n":3}"#.to_owned(), "not json".to_owned(), r#"{"n":2}"#.to_owned()], Some("t1".to_owned()));
    let second = walk.next_page().unwrap();
    assert_eq!(second.from.as_deref(), Some("t1"));
    walk.take_page(&[r#"{"n":1}"#.to_owned()], Some("t2".to_owned()));
    assert!(walk.next_page().is_none());
    let events = walk.into_events();
    let numbers: Vec<u64> = events.iter().map(|e| e.get_u64("n").unwrap()).collect();
    assert_eq!(numbers, vec![1, 2, 3]);
}

#[test]
fn a_walk_ends_with_the_history() {
    let mut walk = HistoryWalk::new(THREAD_REPLAY_MAX_EVENTS);
    assert_eq!(walk.next_page().unwrap().limit as usize, HISTORY_PAGE);
    walk.take_page(&[r#"{"n":1}"#.to_owned()], None);
    assert!(walk.next_page().is_none());
    let mut empty = HistoryWalk::new(10);
    empty.take_page(&[], Some("more".to_owned()));
    assert!(empty.next_page().is_none());
    assert!(HistoryWalk::new(0).next_page().is_none());
}

#[test]
fn users_are_split_as_the_language_splits_them() {
    for raw in [
        "",
        " ",
        "@a:x",
        "@a:x,@b:x",
        " @a:x ,\n@b:x\t,,@c:x ",
        ",",
        "\t@a:x\u{a0}",
        "a\tb",
    ] {
        let expected: Vec<String> = raw
            .split([',', ' ', '\n'])
            .map(str::trim)
            .filter(|s| !s.is_empty())
            .map(str::to_owned)
            .collect();
        assert_eq!(split_users(raw), expected, "{raw:?}");
    }
}

fn claims_settings() -> ClaimsSettings {
    ClaimsSettings {
        homeserver: Some("https://hs".to_owned()),
        username: Some("bot".to_owned()),
        password: Some("pw".to_owned()),
        room_name: None,
        invite: Some("@a:example.org, @b:example.org".to_owned()),
    }
}

#[test]
fn the_claims_room_is_planned() {
    let plan = plan_claims(&claims_settings()).unwrap();
    assert_eq!(plan.room_name, "safehouse-claims");
    assert_eq!(plan.invites, vec!["@a:example.org", "@b:example.org"]);
    let mut s = claims_settings();
    s.invite = None;
    s.room_name = Some("claims".to_owned());
    let plan = plan_claims(&s).unwrap();
    assert!(plan.invites.is_empty());
    assert_eq!(plan.room_name, "claims");
}

#[test]
fn each_fault_of_the_claims_settings_is_named() {
    let mut s = claims_settings();
    s.homeserver = None;
    assert_eq!(plan_claims(&s).unwrap_err(), "CLAIMS_HOMESERVER must be set");
    let mut s = claims_settings();
    s.username = None;
    assert_eq!(plan_claims(&s).unwrap_err(), "CLAIMS_USERNAME must be set");
    let mut s = claims_settings();
    s.password = None;
    assert_eq!(plan_claims(&s).unwrap_err(), "CLAIMS_PASSWORD must be set");
    let mut s = claims_settings();
    s.invite = Some("@a:example.org bogus".to_owned());
    assert_eq!(plan_claims(&s).unwrap_err(), "invalid Matrix user id in CLAIMS_INVITE: \"bogus\"");
    let users = ["a".to_owned(), "b".to_owned()];
    assert!(check_users(&users, &[false, false]).is_ok());
    assert!(check_users(&users, &[true, true]).unwrap_err().ends_with("\"a\""));
}

#[test]
fn an_encrypted_claims_room_is_refused() {
    assert!(check_unencrypted("!r:x", false).is_ok());
    assert!(check_unencrypted("!r:x", true).unwrap_err().starts_with("room !r:x came back encrypted"));
}

#[test]
fn a_device_comes_up_in_one_of_three_ways() {
    assert_eq!(classify_run(false, false, RecoveryStatus::Disabled), Some(RunKind::Cold));
    assert_eq!(classify_run(true, true, RecoveryStatus::Enabled), Some(RunKind::Warm));
    assert_eq!(classify_run(false, false, RecoveryStatus::Incomplete), Some(RunKind::Recovered));
    assert_eq!(classify_run(true, true, RecoveryStatus::Unknown), Some(RunKind::Recovered));
    assert_eq!(classify_run(true, false, RecoveryStatus::Enabled), None);
    assert!(!RunKind::Cold.must_read_history());
    assert!(RunKind::Warm.must_read_history());
    assert_eq!(greeting(RunKind::Recovered, "DEV"), "qj-coldstart[recovered]: hello from device DEV");
    assert_eq!(greeting(RunKind::Cold, "D"), "qj-coldstart[cold]: hello from device D");
    assert_eq!(RunKind::Warm.name(), "warm");
}

#[test]
fn history_is_read_until_it_can_be() {
    let good = [HistoryEvent::Decrypted, HistoryEvent::Plain, HistoryEvent::Decrypted];
    let bad = [HistoryEvent::Decrypted, HistoryEvent::Undecryptable];
    assert_eq!(history_step(1, &good), HistoryStep::Read { decrypted: 2 });
    assert_eq!(history_step(1, &[]), HistoryStep::Read { decrypted: 0 });
    assert_eq!(history_step(1, &bad), HistoryStep::Again { decrypted: 1, undecryptable: 1 });
    assert_eq!(
        history_step(HISTORY_ATTEMPTS, &bad),
        HistoryStep::Failed { decrypted: 1, undecryptable: 1 }
    );
    assert_eq!(history_step(HISTORY_ATTEMPTS, &good), HistoryStep::Read { decrypted: 2 });
}
