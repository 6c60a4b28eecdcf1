use safehouse::provision::{
    ack_mentions_user, classify_room_spec, command_content, derive_username, generate_password_from,
    is_answer, judge_ack, plan_provision, read_mode, read_room_spec, render_command, wait_step, AckVerdict,
    ProvisionSettings, RoomSpec,
};

#[test]
fn render_command_substitutes_both_placeholders() {
    let cmd = render_command("users create_user {user} {password}", "bot-a", "hunter2");
    assert_eq!(cmd, "users create_user bot-a hunter2");
}

#[test]
fn render_command_leaves_unmatched_text_alone() {
    let cmd = render_command("users deactivate {user}", "bot-a", "unused");
    assert_eq!(cmd, "users deactivate bot-a");
}

#[test]
fn ack_mentions_user_matches_substring() {
    assert!(ack_mentions_user(
        "Created user with user_id: @bot-a:example.com and password: hunter2",
        "bot-a"
    ));
}

#[test]
fn ack_mentions_user_rejects_unrelated_reply() {
    assert!(!ack_mentions_user("pong", "bot-a"));
}

#[test]
fn render_command_does_not_swap_user_and_password() {
    let cmd = render_command("users create_user {user} {password}", "USER", "PASSWORD");
    let user_idx = cmd.find("USER").unwrap();
    let password_idx = cmd.find("PASSWORD").unwrap();
    assert!(user_idx < password_idx);
}

#[test]
fn derive_username_prefixes_host() {
    assert_eq!(derive_username("studio"), "safehoused-studio");
}

#[test]
fn generate_password_from_is_64_lowercase_hex_chars() {
    let source: &[u8] = &[0xABu8; 32];
    let password = generate_password_from(source).unwrap();
    assert_eq!(password.len(), 64);
    assert!(password
        .chars()
        .all(|c| c.is_ascii_hexdigit() && !c.is_ascii_uppercase()));
    assert_eq!(password, "ab".repeat(32));
}

#[test]
fn generate_password_from_errors_on_short_read() {
    let source: &[u8] = &[0x01u8; 4];
    assert!(generate_password_from(source).is_err());
}

#[test]
fn every_byte_shows_in_the_password() {
    let bytes: Vec<u8> = (0..40).map(|i| (i * 7) as u8).collect();
    let password = generate_password_from(&bytes).unwrap();
    let expected: String = bytes[..32].iter().map(|b| format!("{b:02x}")).collect();
    assert_eq!(password, expected);
    let mut others = bytes.clone();
    others[31] ^= 1;
    assert_ne!(generate_password_from(&others).unwrap(), password);
}

fn settings() -> ProvisionSettings {
    ProvisionSettings {
        homeserver: Some("https://hs".to_owned()),
        admin_username: Some("admin".to_owned()),
        admin_password: Some("pw".to_owned()),
        admin_room: Some("#admins:hs".to_owned()),
        host: Some("studio".to_owned()),
        new_username: None,
        new_password: None,
        command_template: None,
        ack_timeout: None,
    }
}

#[test]
fn an_account_is_made_with_a_fresh_password() {
    let plan = plan_provision(Some("create"), &settings(), &[0xABu8; 32]).unwrap();
    assert!(plan.create);
    assert_eq!(plan.username, "safehoused-studio");
    assert_eq!(plan.password, "ab".repeat(32));
    assert_eq!(plan.command, format!("users create_user safehoused-studio {}", "ab".repeat(32)));
    assert_eq!(plan.shown, "users create_user safehoused-studio <redacted>");
    assert_eq!(plan.ack_timeout_secs, 20);
}

#[test]
fn an_account_is_retired_without_a_password() {
    let plan = plan_provision(Some("deactivate"), &settings(), &[]).unwrap();
    assert!(!plan.create);
    assert_eq!(plan.password, "");
    assert_eq!(plan.command, "users deactivate safehoused-studio");
    assert_eq!(plan.shown, plan.command);
}

#[test]
fn what_is_set_goes_before_the_defaults() {
    let mut s = settings();
    s.new_username = Some("bot".to_owned());
    s.new_password = Some("hunter2".to_owned());
    s.command_template = Some("make {user}/{password}".to_owned());
    s.ack_timeout = Some("5".to_owned());
    let plan = plan_provision(Some("create"), &s, &[]).unwrap();
    assert_eq!(plan.command, "make bot/hunter2");
    assert_eq!(plan.shown, "make bot/<redacted>");
    assert_eq!(plan.ack_timeout_secs, 5);
}

#[test]
fn each_thing_that_is_missing_is_named() {
    assert!(plan_provision(None, &settings(), &[0; 32]).unwrap_err().contains("usage: provision-host"));
    assert_eq!(
        plan_provision(Some("destroy"), &settings(), &[0; 32]).unwrap_err(),
        "unknown mode \"destroy\" — expected \"create\" or \"deactivate\""
    );
    let mut s = settings();
    s.homeserver = None;
    assert_eq!(plan_provision(Some("create"), &s, &[0; 32]).unwrap_err(), "PROVISION_HOMESERVER must be set");
    let mut s = settings();
    s.admin_username = None;
    assert_eq!(
        plan_provision(Some("create"), &s, &[0; 32]).unwrap_err(),
        "PROVISION_ADMIN_USERNAME must be set"
    );
    let mut s = settings();
    s.admin_password = None;
    assert_eq!(
        plan_provision(Some("create"), &s, &[0; 32]).unwrap_err(),
        "PROVISION_ADMIN_PASSWORD must be set"
    );
    let mut s = settings();
    s.admin_room = None;
    assert_eq!(plan_provision(Some("create"), &s, &[0; 32]).unwrap_err(), "PROVISION_ADMIN_ROOM must be set");
    let mut s = settings();
    s.host = None;
    assert_eq!(plan_provision(Some("create"), &s, &[0; 32]).unwrap_err(), "PROVISION_HOST must be set");
    assert_eq!(
        plan_provision(Some("create"), &settings(), &[0; 31]).unwrap_err(),
        "generating a password for the new account"
    );
    let mut s = settings();
    s.ack_timeout = Some("soon".to_owned());
    assert_eq!(
        plan_provision(Some("create"), &s, &[0; 32]).unwrap_err(),
        "PROVISION_ACK_TIMEOUT_SECS must be a non-negative integer"
    );
}

#[test]
fn the_modes_are_told_apart() {
    assert_eq!(read_mode(Some("create")), Ok(true));
    assert_eq!(read_mode(Some("deactivate")), Ok(false));
    assert!(read_mode(Some("")).is_err());
    assert!(read_mode(None).is_err());
}

#[test]
fn an_answer_is_judged_by_the_name_in_it() {
    assert_eq!(judge_ack(Some("created @bot-a:x"), "bot-a"), AckVerdict::Confirmed);
    assert_eq!(judge_ack(Some("pong"), "bot-a"), AckVerdict::Unrelated);
    assert_eq!(judge_ack(None, "bot-a"), AckVerdict::Missing);
}

#[test]
fn an_answer_comes_from_someone_else_in_the_room() {
    assert!(is_answer("!a:x", "!a:x", "@server:x", Some("@admin:x")));
    assert!(!is_answer("!b:x", "!a:x", "@server:x", Some("@admin:x")));
    assert!(!is_answer("!a:x", "!a:x", "@admin:x", Some("@admin:x")));
    assert!(is_answer("!a:x", "!a:x", "@admin:x", None));
}

#[test]
fn a_wait_is_bounded_on_both_sides() {
    assert_eq!(wait_step(20_000_000_000, 20_000_000_000), None);
    assert_eq!(wait_step(0, 0), None);
    assert_eq!(wait_step(0, 20_000_000_000), Some(2_000_000_000));
    assert_eq!(wait_step(19_000_000_000, 20_000_000_000), Some(1_000_000_000));
    assert_eq!(wait_step(19_999_999_999, 20_000_000_000), Some(100_000_000));
}

#[test]
fn a_room_is_named_by_its_id_or_its_alias() {
    assert_eq!(read_room_spec("#admins:example.org"), Ok(RoomSpec::Alias));
    assert_eq!(read_room_spec("!abc:example.org"), Ok(RoomSpec::Id));
    assert_eq!(read_room_spec("#admins"), Err("invalid room alias \"#admins\"".to_owned()));
    assert_eq!(
        read_room_spec("admins"),
        Err("invalid room id \"admins\" (expected `!id:server` or `#alias:server`)".to_owned())
    );
    assert!(read_room_spec("!a\0b").is_err());
    assert!(read_room_spec("").is_err());
    assert_eq!(classify_room_spec("#x", true), Ok(RoomSpec::Alias));
    assert_eq!(classify_room_spec("x", true), Ok(RoomSpec::Id));
}

#[test]
fn the_command_is_sent_as_text() {
    assert_eq!(
        command_content("users list").print(),
        r#"{"body":"users list","msgtype":"m.text"}"#
    );
}

#[test]
fn a_template_without_places_is_the_command() {
    assert_eq!(render_command("users list", "bot-a", "hunter2"), "users list");
    assert_eq!(render_command("{users} {pass}", "bot-a", "hunter2"), "{users} {pass}");
}

#[test]
fn no_password_shows() {
    let one = plan_provision(Some("create"), &settings(), &[1; 32]).unwrap();
    let other = plan_provision(Some("create"), &settings(), &[2; 32]).unwrap();
    assert_ne!(one.command, other.command);
    assert_eq!(one.shown, other.shown);
}
