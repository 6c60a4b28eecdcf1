use safehouse::envelope::{thread_root_from_content, ENVELOPE_KEY};
use safehouse::json::Json;
use safehouse::mailbox::Mailbox;
use safehouse::ops::{admit_users, plan_invite_of, plan_op, Action};
use safehouse::registry::Registry;
use safehouse::replies::{
    add_to_space_reply, check_reply, create_room_reply, finish_send, fully_linked, invite_reply, list_rooms_reply,
    read_message, read_reply, RoomListing,
};
use safehouse::rooms::RoomAddr;
use safehouse::threads::ThreadState;

fn j(text: &str) -> Json {
    Json::parse(text).unwrap()
}

fn room(id: &str, name: &str) -> RoomAddr {
    RoomAddr {
        id: id.to_owned(),
        name: Some(name.to_owned()),
        canonical_alias: None,
        alt_aliases: Vec::new(),
    }
}

fn rooms() -> Vec<RoomAddr> {
    vec![room("!a:x", "fleet"), room("!s:x", "space")]
}

fn plan(op: &str, req: &str) -> Result<Action, String> {
    plan_op(op, &j(req), "writer_agent", &rooms(), &[false, true], &ThreadState::default())
}

#[test]
fn a_message_is_planned_into_its_room() {
    match plan("send", r#"{"room":"fleet","to":"*","body":"hi","task_id":"t"}"#).unwrap() {
        Action::Send { room, out, root, content } => {
            assert_eq!(room, 0);
            assert_eq!(out.env.from, "writer_agent");
            assert!(root.is_none());
            assert!(thread_root_from_content(&content).is_none());
            assert_eq!(content.get(ENVELOPE_KEY).unwrap().get_str("task_id"), Some("t"));
        }
        other => panic!("expected a send, got {other:?}"),
    }
}

#[test]
fn messages_of_one_task_share_a_thread() {
    let mut registry = Registry::new(vec!["writer_agent".to_owned()], Mailbox::new());
    let req = j(r#"{"room":"fleet","to":"*","body":"hi","task_id":"t"}"#);
    for (event, expected) in [("$1", None), ("$2", Some("$1")), ("$3", Some("$1"))] {
        match plan_op("send", &req, "writer_agent", &rooms(), &[false, true], registry.threads()).unwrap() {
            Action::Send { out, root, content, .. } => {
                assert_eq!(root.as_deref(), expected);
                assert_eq!(thread_root_from_content(&content).as_deref(), expected);
                let reply = finish_send(&mut registry, &out, &root, event, "!a:x");
                assert_eq!(reply.get_str("event_id"), Some(event));
            }
            other => panic!("expected a send, got {other:?}"),
        }
    }
    assert_eq!(registry.threads().latest_in_thread("$1").as_deref(), Some("$3"));
}

#[test]
fn a_room_is_planned_with_those_it_invites() {
    match plan("create_room", r#"{"name":"n","invite":["@a:x.org"],"parent":"space"}"#).unwrap() {
        Action::CreateRoom { name, is_space, parent, invite } => {
            assert_eq!(name, "n");
            assert!(!is_space);
            assert_eq!(parent, Some(1));
            assert_eq!(invite, vec!["@a:x.org"]);
        }
        other => panic!("expected a room, got {other:?}"),
    }
    assert!(plan("create_room", "{}").is_err());
    assert!(plan("create_room", r#"{"name":"n","invite":[7]}"#).unwrap_err().contains("user id strings"));
    assert!(plan("create_room", r#"{"name":"n","invite":["bogus"]}"#)
        .unwrap_err()
        .contains("invalid user id in invite"));
    assert!(plan("create_room", r#"{"name":"n","parent":"fleet"}"#).is_err());
}

#[test]
fn the_other_operations_are_planned() {
    assert!(matches!(
        plan("invite", r#"{"room":"fleet","user":"@a:x.org"}"#).unwrap(),
        Action::Invite { room: 0, .. }
    ));
    assert!(matches!(
        plan("add_to_space", r#"{"space":"space","room":"fleet"}"#).unwrap(),
        Action::AddToSpace { space: 1, room: 0 }
    ));
    assert!(plan("add_to_space", r#"{"space":"fleet","room":"fleet"}"#).is_err());
    assert!(matches!(plan("list_rooms", "{}").unwrap(), Action::ListRooms));
    assert!(matches!(plan("read", r#"{"room":"fleet"}"#).unwrap(), Action::Read { room: 0, count: 20 }));
    assert!(matches!(
        plan("read", r#"{"room":"fleet","limit":1000}"#).unwrap(),
        Action::Read { room: 0, count: 100 }
    ));
    assert!(matches!(plan("check", "{}").unwrap(), Action::Check { advance: true, limit: None }));
    assert!(matches!(
        plan("check", r#"{"peek":true,"limit":3}"#).unwrap(),
        Action::Check { advance: false, limit: Some(3) }
    ));
    assert!(plan("bogus", "{}").unwrap_err().contains("unknown op"));
}

#[test]
fn users_are_admitted_until_one_is_wrong() {
    let items = [j(r#""@a:x""#), j(r#""@b:x""#)];
    assert_eq!(admit_users(&items, &[None, None]).unwrap(), vec!["@a:x", "@b:x"]);
    assert_eq!(
        admit_users(&items, &[None, Some("no colon".to_owned())]).unwrap_err(),
        "invalid user id in invite: no colon"
    );
}

#[test]
fn an_invitation_needs_a_user_that_can_be() {
    let req = j(r#"{"room":"fleet"}"#);
    assert!(matches!(plan_invite_of("@a:x", None, &req, &rooms()), Ok(Action::Invite { room: 0, .. })));
    assert!(plan_invite_of("a", Some("bad".to_owned()), &req, &rooms()).unwrap_err().contains("invalid user id"));
}

#[test]
fn the_replies_say_what_was_done() {
    let made = create_room_reply("!n:x", "n", false, &Some("!s:x".to_owned()));
    assert_eq!(made.get_bool("ok"), Some(true));
    assert_eq!(made.get_str("room_id"), Some("!n:x"));
    assert_eq!(made.get_str("parent_space"), Some("!s:x"));
    let invited = invite_reply("!n:x", "@a:x");
    assert_eq!(invited.get_bool("ok"), Some(true));
    assert_eq!(invited.get_str("room_id"), Some("!n:x"));
    let linked = add_to_space_reply("!s:x", "!n:x", true);
    assert_eq!(linked.get_bool("already_linked"), Some(true));
    let list = list_rooms_reply(&[RoomListing {
        room_id: "!n:x".to_owned(),
        name: None,
        encrypted: true,
        is_space: false,
        parent_space: None,
    }]);
    let listed = list.get("rooms").unwrap().as_array().unwrap();
    assert_eq!(listed[0].get_str("room_id"), Some("!n:x"));
    assert!(listed[0].get("name").unwrap().is_null());
    assert_eq!(listed[0].get_bool("encrypted"), Some(true));
    let checked = check_reply(&[], false);
    assert_eq!(checked.get_bool("advanced"), Some(false));
    assert!(checked.get("messages").unwrap().as_array().unwrap().is_empty());
}

#[test]
fn a_room_is_linked_when_both_sides_say_so() {
    assert!(fully_linked(Some(1), Some(2)));
    assert!(!fully_linked(Some(0), Some(1)));
    assert!(!fully_linked(Some(1), Some(0)));
    assert!(!fully_linked(None, Some(1)));
    assert!(!fully_linked(Some(1), None));
}

#[test]
fn history_is_read_oldest_first() {
    let page: Vec<String> = ["$2", "$1"]
        .iter()
        .map(|id| {
            format!(
                r#"{{"type":"m.room.message","event_id":"{id}","sender":"@robb:x","content":{{"body":"hi {id}"}}}}"#
            )
        })
        .collect();
    let mut texts = page.clone();
    texts.push("not json".to_owned());
    texts.push(r#"{"type":"m.reaction","event_id":"$r"}"#.to_owned());
    let reply = read_reply("!a:x", &texts, "@bot:x", &ThreadState::default(), &["writer_agent".to_owned()]);
    assert_eq!(reply.get_str("room_id"), Some("!a:x"));
    let messages = reply.get("messages").unwrap().as_array().unwrap();
    assert_eq!(messages.len(), 2);
    assert_eq!(messages[0].get_str("event_id"), Some("$1"));
    assert_eq!(messages[1].get_str("event_id"), Some("$2"));
    assert!(read_message(&j(r#"{"type":"m.reaction"}"#), "@bot:x", &ThreadState::default(), &[]).is_none());
}
