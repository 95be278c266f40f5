use ruma_core::events::content::{
    AnyEventContent, ChildEventContent, CustomEventContent, EventError, PollResponseEventContent,
    RedactionEventContent, SelectionsContentBlock,
};
use ruma_core::events::redaction::{redact_content, retains};
use ruma_core::identifiers::{EventId, ServerName};
use ruma_core::json::{JsonMember, JsonValue};

fn m(name: &str, value: JsonValue) -> JsonMember {
    JsonMember { name: name.to_owned(), value }
}

fn s(text: &str) -> JsonValue {
    JsonValue::String(text.to_owned())
}

fn names(members: &[JsonMember]) -> Vec<&str> {
    members.iter().map(|m| m.name.as_str()).collect()
}

#[test]
fn space_child_serialization() {
    let mut content = ChildEventContent::new();
    content.via = Some(vec![ServerName::parse("example.com").unwrap()]);
    content.order = Some("uwu".to_owned());
    content.suggested = Some(false);

    let json = vec![
        m("via", JsonValue::Array(vec![s("example.com")])),
        m("order", s("uwu")),
        m("suggested", JsonValue::Bool(false)),
    ];

    assert_eq!(content.to_members(), json);
}

#[test]
fn space_child_empty_serialization() {
    let content = ChildEventContent::new();

    let json: Vec<JsonMember> = vec![];

    assert_eq!(content.to_members(), json);
}

#[test]
fn space_child_reads_back() {
    let members = vec![
        m("via", JsonValue::Array(vec![s("example.com"), s("b.org:8448")])),
        m("suggested", JsonValue::Bool(true)),
    ];
    let expected = vec![
        m("via", JsonValue::Array(vec![s("example.com"), s("b.org:8448")])),
        m("suggested", JsonValue::Bool(true)),
    ];
    let content = ChildEventContent::from_members(members).unwrap();
    assert_eq!(content.via.as_ref().unwrap().len(), 2);
    assert_eq!(content.order, None);
    assert_eq!(content.suggested, Some(true));
    assert_eq!(content.to_members(), expected);
}

#[test]
fn space_child_rejects_wrong_kinds() {
    let bad_server = vec![m("via", JsonValue::Array(vec![s("not a server")]))];
    assert_eq!(ChildEventContent::from_members(bad_server), Err(EventError::MalformedContent));
    let bad_order = vec![m("order", JsonValue::Number(3))];
    assert_eq!(ChildEventContent::from_members(bad_order), Err(EventError::MalformedContent));
}

fn poll_relation(event_id: &str) -> JsonValue {
    JsonValue::Object(vec![m("rel_type", s("m.reference")), m("event_id", s(event_id))])
}

#[test]
fn poll_response_round_trip() {
    let make = || {
        PollResponseEventContent::new(
            SelectionsContentBlock::from(vec!["a".to_owned(), "b".to_owned()]),
            EventId::parse("$poll:example.com").unwrap(),
        )
    };
    let content = make();
    assert!(!content.selections.is_empty());
    let members = content.to_members();
    assert_eq!(
        members,
        vec![
            m("org.matrix.msc3381.v2.selections", JsonValue::Array(vec![s("a"), s("b")])),
            m("m.relates_to", poll_relation("$poll:example.com")),
        ]
    );
    let back = PollResponseEventContent::from_members(members).unwrap();
    assert_eq!(back, make());
}

#[test]
fn poll_response_needs_relation() {
    let members = vec![m("org.matrix.msc3381.v2.selections", JsonValue::Array(vec![]))];
    assert_eq!(
        PollResponseEventContent::from_members(members),
        Err(EventError::MissingRelation)
    );
    let members = vec![m("m.relates_to", poll_relation("$poll:example.com"))];
    assert_eq!(
        PollResponseEventContent::from_members(members),
        Err(EventError::MissingRequiredField)
    );
    assert!(SelectionsContentBlock::from(vec![]).is_empty());
}

#[test]
fn dispatch_reads_known_types() {
    let content = vec![m("reason", s("being a turd"))];
    match AnyEventContent::from_json("m.room.redaction", content) {
        Ok(AnyEventContent::RoomRedaction(r)) => {
            assert_eq!(r, RedactionEventContent::with_reason("being a turd".to_owned()))
        }
        other => panic!("unexpected {:?}", other),
    }
    let content = vec![m("org.matrix.msc3381.v2.selections", JsonValue::Array(vec![]))];
    assert_eq!(
        AnyEventContent::from_json("m.poll.response", content).err(),
        Some(EventError::MissingRelation)
    );
}

#[test]
fn unknown_event_type_round_trips() {
    let content = vec![
        m("custom", JsonValue::Number(7)),
        m("nested", JsonValue::Object(vec![m("x", JsonValue::Null)])),
    ];
    let expected = vec![
        m("custom", JsonValue::Number(7)),
        m("nested", JsonValue::Object(vec![m("x", JsonValue::Null)])),
    ];
    let read = AnyEventContent::from_json("org.example.thing", content).unwrap();
    assert_eq!(
        read,
        AnyEventContent::Custom(CustomEventContent {
            event_type: "org.example.thing".to_owned(),
            content: vec![
                m("custom", JsonValue::Number(7)),
                m("nested", JsonValue::Object(vec![m("x", JsonValue::Null)])),
            ],
        })
    );
    assert_eq!(read.event_type(), "org.example.thing");
    assert_eq!(read.into_json(), expected);
}

#[test]
fn redaction_keeps_only_policy_fields() {
    let content = vec![
        m("membership", s("join")),
        m("displayname", s("Carl")),
        m("avatar_url", s("mxc://example.com/abc")),
    ];
    let redacted = redact_content("m.room.member", content);
    assert_eq!(names(&redacted), vec!["membership"]);

    let content = vec![m("body", s("hi")), m("msgtype", s("m.text"))];
    assert!(redact_content("m.room.message", content).is_empty());

    let content = vec![m("reason", s("spam")), m("extra", JsonValue::Bool(true))];
    assert_eq!(names(&redact_content("m.room.redaction", content)), vec!["reason"]);

    assert!(retains("m.room.power_levels", "users_default"));
    assert!(!retains("m.room.power_levels", "notifications"));
}

#[test]
fn poll_response_keeps_unknown_members() {
    let members = || {
        vec![
            m("org.matrix.msc3381.v2.selections", JsonValue::Array(vec![s("x")])),
            m("org.example.x", JsonValue::NumberText("1.5".to_owned())),
            m("m.relates_to", poll_relation("$poll:example.com")),
        ]
    };
    let content = PollResponseEventContent::from_members(members()).unwrap();
    assert_eq!(content.extra, vec![m("org.example.x", JsonValue::NumberText("1.5".to_owned()))]);
    assert_eq!(
        sorted(content.to_members()),
        sorted(members())
    );
}

#[test]
fn known_shapes_keep_unknown_members() {
    let members = || vec![m("order", s("a")), m("org.example.flag", JsonValue::Bool(true))];
    let content = ChildEventContent::from_members(members()).unwrap();
    assert_eq!(content.extra.len(), 1);
    assert_eq!(content.to_members(), members());

    let members = || vec![m("reason", s("spam")), m("org.example.by", s("bot"))];
    let content = RedactionEventContent::from_members(members()).unwrap();
    assert_eq!(content.reason.as_deref(), Some("spam"));
    assert_eq!(content.to_members(), members());
}

fn sorted(mut members: Vec<JsonMember>) -> Vec<JsonMember> {
    members.sort_by(|a, b| a.name.cmp(&b.name));
    members
}
