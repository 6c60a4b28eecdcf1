use safehouse::rooms::{pick_room_index, room_visibility, RoomAddr, Visibility};

fn addr(id: &str, name: Option<&str>, canonical: Option<&str>, alt: &[&str]) -> RoomAddr {
    RoomAddr {
        id: id.to_owned(),
        name: name.map(str::to_owned),
        canonical_alias: canonical.map(str::to_owned),
        alt_aliases: alt.iter().map(|a| (*a).to_owned()).collect(),
    }
}

#[test]
fn pick_room_ambiguous_name_errors_instead_of_first_match() {
    let rooms = [
        addr("!a:x", Some("fleet"), None, &[]),
        addr("!b:x", Some("fleet"), None, &[]),
    ];
    let err = pick_room_index(&rooms, Some("fleet")).unwrap_err().message();
    assert!(err.contains("ambiguous"), "expected an ambiguity error, got: {err}");
}

#[test]
fn pick_room_resolves_by_canonical_alias() {
    let rooms = [
        addr("!a:x", Some("General"), Some("#fleet-vibesql:x"), &[]),
        addr("!b:x", Some("Other"), Some("#other:x"), &[]),
    ];
    assert_eq!(pick_room_index(&rooms, Some("#fleet-vibesql:x")).unwrap(), 0);
}

#[test]
fn pick_room_resolves_by_alt_alias() {
    let rooms = [
        addr("!a:x", Some("General"), Some("#canon:x"), &["#alt-fleet:x"]),
        addr("!b:x", Some("Other"), None, &[]),
    ];
    assert_eq!(pick_room_index(&rooms, Some("#alt-fleet:x")).unwrap(), 0);
}

#[test]
fn pick_room_resolves_by_id_and_name_unchanged() {
    let rooms = [
        addr("!a:x", Some("writer"), None, &[]),
        addr("!b:x", Some("research"), None, &[]),
    ];
    assert_eq!(pick_room_index(&rooms, Some("!b:x")).unwrap(), 1);
    assert_eq!(pick_room_index(&rooms, Some("research")).unwrap(), 1);
}

#[test]
fn pick_room_unknown_spec_errors() {
    let rooms = [addr("!a:x", Some("writer"), None, &[])];
    let err = pick_room_index(&rooms, Some("nope")).unwrap_err().message();
    assert!(err.contains("no joined room matching"));
}

#[test]
fn pick_room_none_spec_defaults_only_when_single_room() {
    let one = [addr("!a:x", Some("writer"), None, &[])];
    assert_eq!(pick_room_index(&one, None).unwrap(), 0);

    let two = [
        addr("!a:x", Some("writer"), None, &[]),
        addr("!b:x", Some("research"), None, &[]),
    ];
    assert!(pick_room_index(&two, None).is_err());

    let none: [RoomAddr; 0] = [];
    assert!(pick_room_index(&none, None).is_err());
}

#[test]
fn a_room_goes_by_each_of_its_names() {
    let room = addr("!a:x", Some("General"), Some("#canon:x"), &["#one:x", "#two:x"]);
    for name in ["!a:x", "General", "#canon:x", "#one:x", "#two:x"] {
        assert!(room.matches(name), "{name} names the room");
    }
    assert!(!room.matches("general"));
    assert!(!room.matches(""));
}

#[test]
fn one_room_that_matches_twice_is_not_ambiguous() {
    let rooms = [addr("!a:x", Some("same"), Some("same"), &["same"])];
    assert_eq!(pick_room_index(&rooms, Some("same")).unwrap(), 0);
}

#[test]
fn a_new_room_is_waited_for() {
    assert_eq!(room_visibility(Some("n"), "n", 20_000), Visibility::Visible);
    assert_eq!(room_visibility(None, "n", 9_999), Visibility::Waiting);
    assert_eq!(room_visibility(Some("m"), "n", 0), Visibility::Waiting);
    assert_eq!(room_visibility(None, "n", 10_000), Visibility::TimedOut);
}
