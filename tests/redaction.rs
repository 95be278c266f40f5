use ruma_core::events::content::{AnyEventContent, EventError, RedactionEventContent};
use ruma_core::events::envelope::{BasicEvent, EventKind, RoomEvent};
use ruma_core::identifiers::{EventId, RoomId, UserId};
use ruma_core::json::{JsonMember, JsonValue};

fn m(name: &str, value: JsonValue) -> JsonMember {
    JsonMember { name: name.to_owned(), value }
}

fn s(text: &str) -> JsonValue {
    JsonValue::String(text.to_owned())
}

fn sorted(mut members: Vec<JsonMember>) -> Vec<JsonMember> {
    members.sort_by(|a, b| a.name.cmp(&b.name));
    members
}

fn redaction() -> Vec<JsonMember> {
    vec![
        m("content", JsonValue::Object(vec![m("reason", s("being a turd"))])),
        m("redacts", s("$nomore:example.com")),
        m("event_id", s("$h29iv0s8:example.com")),
        m("sender", s("@carl:example.com")),
        m("origin_server_ts", JsonValue::Number(1)),
        m("room_id", s("!roomid:room.com")),
        m("type", s("m.room.redaction")),
    ]
}

#[test]
fn serialize_redaction() {
    let aliases_event = RoomEvent {
        content: AnyEventContent::RoomRedaction(RedactionEventContent::with_reason(
            "being a turd".into(),
        )),
        redacts: Some(EventId::parse("$nomore:example.com").unwrap()),
        event_id: EventId::parse("$h29iv0s8:example.com").unwrap(),
        origin_server_ts: 1,
        room_id: RoomId::parse("!roomid:room.com").unwrap(),
        sender: UserId::parse("@carl:example.com").unwrap(),
        state_key: None,
        unsigned: vec![],
    };

    let actual = sorted(aliases_event.to_members());
    let expected = sorted(redaction());

    assert_eq!(actual, expected);
}

#[test]
fn deserialize_redaction() {
    let json_data = redaction();

    match RoomEvent::from_members(json_data).unwrap() {
        RoomEvent {
            content: AnyEventContent::RoomRedaction(RedactionEventContent { reason: Some(reas), .. }),
            redacts: Some(redacts),
            event_id,
            origin_server_ts,
            room_id,
            sender,
            unsigned,
            state_key: None,
        } => {
            assert_eq!(reas, "being a turd");
            assert_eq!(event_id.as_str(), "$h29iv0s8:example.com");
            assert_eq!(redacts.as_str(), "$nomore:example.com");
            assert_eq!(origin_server_ts, 1);
            assert_eq!(room_id.as_str(), "!roomid:room.com");
            assert_eq!(sender.as_str(), "@carl:example.com");
            assert!(unsigned.is_empty());
        }
        other => panic!("unexpected {:?}", other),
    }
}

#[test]
fn redaction_needs_target() {
    let members: Vec<JsonMember> = redaction().into_iter().filter(|x| x.name != "redacts").collect();
    assert_eq!(RoomEvent::from_members(members).err(), Some(EventError::MissingRequiredField));
}

#[test]
fn state_key_marks_state_events() {
    let mut members = redaction();
    members[6] = m("type", s("m.space.child"));
    members[0] = m("content", JsonValue::Object(vec![]));
    assert_eq!(
        RoomEvent::from_members(members).err(),
        Some(EventError::MissingRequiredField)
    );

    let mut members = redaction();
    members[6] = m("type", s("m.space.child"));
    members[0] = m("content", JsonValue::Object(vec![]));
    members.push(m("state_key", s("!child:example.com")));
    let event = RoomEvent::from_members(members).unwrap();
    assert_eq!(event.kind(), EventKind::State);
    assert!(event.redacts.is_none());

    let mut members = redaction();
    members.push(m("state_key", s("")));
    assert_eq!(RoomEvent::from_members(members).err(), Some(EventError::MalformedContent));
}

#[test]
fn unknown_event_round_trips_in_envelope() {
    let members = vec![
        m("type", s("org.example.custom")),
        m("content", JsonValue::Object(vec![m("a", JsonValue::Array(vec![JsonValue::Bool(true)]))])),
        m("event_id", s("$e:example.com")),
        m("sender", s("@u:example.com")),
        m("origin_server_ts", JsonValue::Number(1234)),
        m("room_id", s("!r:example.com")),
        m("unsigned", JsonValue::Object(vec![m("age", JsonValue::Number(5))])),
    ];
    let expected = vec![
        m("type", s("org.example.custom")),
        m("content", JsonValue::Object(vec![m("a", JsonValue::Array(vec![JsonValue::Bool(true)]))])),
        m("event_id", s("$e:example.com")),
        m("sender", s("@u:example.com")),
        m("origin_server_ts", JsonValue::Number(1234)),
        m("room_id", s("!r:example.com")),
        m("unsigned", JsonValue::Object(vec![m("age", JsonValue::Number(5))])),
    ];
    let event = RoomEvent::from_members(members).unwrap();
    assert_eq!(event.kind(), EventKind::MessageLike);
    assert_eq!(event.to_members(), expected);
}

#[test]
fn event_rejects_bad_envelope() {
    let mut members = redaction();
    members[3] = m("sender", s("carl"));
    assert_eq!(RoomEvent::from_members(members).err(), Some(EventError::MalformedContent));
    let mut members = redaction();
    members[4] = m("origin_server_ts", JsonValue::Number(-1));
    assert_eq!(RoomEvent::from_members(members).err(), Some(EventError::MalformedContent));
}

#[test]
fn basic_event_round_trip() {
    let members = || {
        vec![
            m("type", s("m.key.verification.start")),
            m(
                "content",
                JsonValue::Object(vec![
                    m("from_device", s("123")),
                    m("transaction_id", s("456")),
                    m("method", s("m.sas.custom")),
                    m("test", s("field")),
                ]),
            ),
        ]
    };
    let event = BasicEvent::from_members(members()).unwrap();
    assert_eq!(event.to_members(), members());
    assert_eq!(
        BasicEvent::from_members(vec![m("type", s("x"))]).err(),
        Some(EventError::MissingRequiredField)
    );
}
