//! The envelope around room event content: identifiers, sender, timestamp, the
//! state key of state events and the target of redactions.
use crate::events::content::{
    key, lemma_member_push, lemma_no_members, poll_response_alias, poll_response_type,
    push_member, read_as, read_error, redaction_type, space_child_type, written_as,
    AnyEventContent, EventError,
};
use crate::events::verification_start::required_string;
use crate::identifiers::{
    event_id_valid, room_id_valid, user_id_valid, EventId, RoomId, UserId,
};
use crate::json::{get_member, member, member_names, str_eq, JsonMember, JsonValue};
use vstd::prelude::*;

verus! {

/// The names `e` is written with, in order.
pub open spec fn event_names(e: RoomEvent) -> Seq<Seq<char>> {
    seq!["type"@, "content"@, "event_id"@, "sender"@, "origin_server_ts"@, "room_id"@] + (if e.state_key
        is Some {
        seq!["state_key"@]
    } else {
        Seq::empty()
    }) + (if e.redacts is Some {
        seq!["redacts"@]
    } else {
        Seq::empty()
    }) + (if e.unsigned@.len() > 0 {
        seq!["unsigned"@]
    } else {
        Seq::empty()
    })
}

/// The largest timestamp accepted: the largest integer a JSON peer that uses
/// doubles holds exactly.
pub const MAX_TIMESTAMP: u64 = 9007199254740991;

/// How an event is kept in a room.
#[derive(Clone, Copy, Debug, PartialEq, Eq)]
pub enum EventKind {
    /// Part of the room's state, keyed by type and state key.
    State,
    /// Part of the room's timeline only.
    MessageLike,
}

/// A room event: its envelope and its content.
#[derive(Debug, PartialEq, Eq)]
pub struct RoomEvent {
    pub content: AnyEventContent,
    pub event_id: EventId,
    pub sender: UserId,
    /// Milliseconds since the Unix epoch, on the originating server.
    pub origin_server_ts: u64,
    pub room_id: RoomId,
    /// Present exactly on state events.
    pub state_key: Option<String>,
    /// The redacted event; present exactly on redactions.
    pub redacts: Option<EventId>,
    /// Metadata added by the server, kept as received.
    pub unsigned: Vec<JsonMember>,
}

/// A required member that must pass the grammar `valid`.
pub open spec fn required_valid(
    m: Seq<JsonMember>,
    k: Seq<char>,
    valid: spec_fn(Seq<char>) -> bool,
) -> Result<Seq<char>, EventError> {
    match required_string(m, k) {
        Err(e) => Err(e),
        Ok(s) => if valid(s) {
            Ok(s)
        } else {
            Err(EventError::MalformedContent)
        },
    }
}

pub open spec fn timestamp_field(m: Seq<JsonMember>) -> Result<int, EventError> {
    match member(m, "origin_server_ts"@) {
        None => Err(EventError::MissingRequiredField),
        Some(JsonValue::Number(n)) => if 0 <= n <= MAX_TIMESTAMP {
            Ok(n as int)
        } else {
            Err(EventError::MalformedContent)
        },
        Some(_) => Err(EventError::MalformedContent),
    }
}

pub open spec fn state_key_field(m: Seq<JsonMember>) -> Result<Option<Seq<char>>, EventError> {
    match member(m, "state_key"@) {
        None => Ok(None),
        Some(JsonValue::String(s)) => Ok(Some(s@)),
        Some(_) => Err(EventError::MalformedContent),
    }
}

/// The redaction target: required on redactions, not read on other events.
pub open spec fn redacts_field(m: Seq<JsonMember>, t: Seq<char>) -> Result<
    Option<Seq<char>>,
    EventError,
> {
    if t == redaction_type() {
        match required_valid(m, "redacts"@, |s: Seq<char>| event_id_valid(s)) {
            Ok(s) => Ok(Some(s)),
            Err(e) => Err(e),
        }
    } else {
        Ok(None)
    }
}

pub open spec fn unsigned_field(m: Seq<JsonMember>) -> Result<Seq<JsonMember>, EventError> {
    match member(m, "unsigned"@) {
        None => Ok(Seq::empty()),
        Some(JsonValue::Object(o)) => Ok(o@),
        Some(_) => Err(EventError::MalformedContent),
    }
}

/// Whether the types known to be message-like include `t`.
pub open spec fn is_message_like_type(t: Seq<char>) -> bool {
    t == poll_response_type() || t == poll_response_alias() || t == redaction_type()
}

/// Whether a state key fits the event type `t`: state types need one and
/// message-like types must not have one.
pub open spec fn kind_error(t: Seq<char>, state_key: Option<Seq<char>>) -> Option<EventError> {
    if t == space_child_type() && state_key is None {
        Some(EventError::MissingRequiredField)
    } else if is_message_like_type(t) && state_key is Some {
        Some(EventError::MalformedContent)
    } else {
        None
    }
}

/// Why the members `m` cannot be read as a room event, if they can't. The members
/// are checked in this order: type, content, event id, sender, timestamp, room id,
/// state key, redaction target, unsigned data, and then the content itself.
pub open spec fn event_read_error(m: Seq<JsonMember>) -> Option<EventError> {
    match required_string(m, "type"@) {
        Err(e) => Some(e),
        Ok(t) => match member(m, "content"@) {
            None => Some(EventError::MissingRequiredField),
            Some(c) => if !(c is Object) {
                Some(EventError::MalformedContent)
            } else if required_valid(m, "event_id"@, |s: Seq<char>| event_id_valid(s)) is Err {
                Some(required_valid(m, "event_id"@, |s: Seq<char>| event_id_valid(s))->Err_0)
            } else if required_valid(m, "sender"@, |s: Seq<char>| user_id_valid(s)) is Err {
                Some(required_valid(m, "sender"@, |s: Seq<char>| user_id_valid(s))->Err_0)
            } else if timestamp_field(m) is Err {
                Some(timestamp_field(m)->Err_0)
            } else if required_valid(m, "room_id"@, |s: Seq<char>| room_id_valid(s)) is Err {
                Some(required_valid(m, "room_id"@, |s: Seq<char>| room_id_valid(s))->Err_0)
            } else if state_key_field(m) is Err {
                Some(state_key_field(m)->Err_0)
            } else if kind_error(t, state_key_field(m)->Ok_0) is Some {
                kind_error(t, state_key_field(m)->Ok_0)
            } else if redacts_field(m, t) is Err {
                Some(redacts_field(m, t)->Err_0)
            } else if unsigned_field(m) is Err {
                Some(unsigned_field(m)->Err_0)
            } else {
                read_error(t, c->Object_0@)
            },
        },
    }
}

pub open spec fn opt_view(s: Option<String>) -> Option<Seq<char>> {
    match s {
        None => None,
        Some(x) => Some(x@),
    }
}

pub open spec fn opt_event_id_view(s: Option<EventId>) -> Option<Seq<char>> {
    match s {
        None => None,
        Some(x) => Some(x@),
    }
}

/// `e` is what the members `m` say.
pub open spec fn event_read_as(m: Seq<JsonMember>, e: RoomEvent) -> bool {
    &&& required_string(m, "type"@) matches Ok(t)
    &&& member(m, "content"@) matches Some(JsonValue::Object(c))
    &&& read_as(t, c@, e.content)
    &&& required_string(m, "event_id"@) == Ok::<Seq<char>, EventError>(e.event_id@)
    &&& required_string(m, "sender"@) == Ok::<Seq<char>, EventError>(e.sender@)
    &&& timestamp_field(m) == Ok::<int, EventError>(e.origin_server_ts as int)
    &&& required_string(m, "room_id"@) == Ok::<Seq<char>, EventError>(e.room_id@)
    &&& state_key_field(m) == Ok::<Option<Seq<char>>, EventError>(opt_view(e.state_key))
    &&& redacts_field(m, t) == Ok::<Option<Seq<char>>, EventError>(
        opt_event_id_view(e.redacts),
    )
    &&& unsigned_field(m) == Ok::<Seq<JsonMember>, EventError>(e.unsigned@)
}

fn read_valid_event_id(m: &Vec<JsonMember>, k: &str) -> (r: Result<EventId, EventError>)
    ensures
        r matches Ok(x) ==> required_valid(m@, k@, |s: Seq<char>| event_id_valid(s)) == Ok::<
            Seq<char>,
            EventError,
        >(x@),
        r matches Err(e) ==> required_valid(m@, k@, |s: Seq<char>| event_id_valid(s)) == Err::<
            Seq<char>,
            EventError,
        >(e),
{
    match get_member(m, k) {
        None => Err(EventError::MissingRequiredField),
        Some(JsonValue::String(s)) => match EventId::parse(s.as_str()) {
            Ok(x) => Ok(x),
            Err(_) => Err(EventError::MalformedContent),
        },
        Some(_) => Err(EventError::MalformedContent),
    }
}

fn read_sender(m: &Vec<JsonMember>) -> (r: Result<UserId, EventError>)
    ensures
        r matches Ok(x) ==> required_valid(m@, "sender"@, |s: Seq<char>| user_id_valid(s))
            == Ok::<Seq<char>, EventError>(x@),
        r matches Err(e) ==> required_valid(m@, "sender"@, |s: Seq<char>| user_id_valid(s))
            == Err::<Seq<char>, EventError>(e),
{
    match get_member(m, "sender") {
        None => Err(EventError::MissingRequiredField),
        Some(JsonValue::String(s)) => match UserId::parse(s.as_str()) {
            Ok(x) => Ok(x),
            Err(_) => Err(EventError::MalformedContent),
        },
        Some(_) => Err(EventError::MalformedContent),
    }
}

fn read_room_id(m: &Vec<JsonMember>) -> (r: Result<RoomId, EventError>)
    ensures
        r matches Ok(x) ==> required_valid(m@, "room_id"@, |s: Seq<char>| room_id_valid(s))
            == Ok::<Seq<char>, EventError>(x@),
        r matches Err(e) ==> required_valid(m@, "room_id"@, |s: Seq<char>| room_id_valid(s))
            == Err::<Seq<char>, EventError>(e),
{
    match get_member(m, "room_id") {
        None => Err(EventError::MissingRequiredField),
        Some(JsonValue::String(s)) => match RoomId::parse(s.as_str()) {
            Ok(x) => Ok(x),
            Err(_) => Err(EventError::MalformedContent),
        },
        Some(_) => Err(EventError::MalformedContent),
    }
}

fn read_timestamp(m: &Vec<JsonMember>) -> (r: Result<u64, EventError>)
    ensures
        r matches Ok(x) ==> timestamp_field(m@) == Ok::<int, EventError>(x as int),
        r matches Err(e) ==> timestamp_field(m@) == Err::<int, EventError>(e),
{
    match get_member(m, "origin_server_ts") {
        None => Err(EventError::MissingRequiredField),
        Some(JsonValue::Number(n)) => if 0 <= *n && *n <= MAX_TIMESTAMP as i64 {
            Ok(*n as u64)
        } else {
            Err(EventError::MalformedContent)
        },
        Some(_) => Err(EventError::MalformedContent),
    }
}

/// Moves out the values of the first members named `a` and `b`.
fn take_two(m: Vec<JsonMember>, a: &str, b: &str) -> (r: (Option<JsonValue>, Option<JsonValue>))
    ensures
        r.0 == member(m@, a@),
        a@ != b@ ==> r.1 == member(m@, b@),
{
    let ghost orig = m@;
    let n = m.len();
    let mut rest = m;
    let mut first: Option<JsonValue> = None;
    let mut second: Option<JsonValue> = None;
    let mut k: usize = 0;
    assert(orig.take(0) == Seq::<JsonMember>::empty());
    proof {
        lemma_no_members(a@);
        lemma_no_members(b@);
    }
    while rest.len() > 0
        invariant
            k <= orig.len(),
            orig.len() == n,
            rest@ == orig.skip(k as int),
            rest@.len() == orig.len() - k,
            first == member(orig.take(k as int), a@),
            a@ != b@ ==> second == member(orig.take(k as int), b@),
        decreases rest@.len(),
    {
        let x = rest.remove(0);
        assert(x == orig[k as int]);
        assert(orig.take(k + 1) == orig.take(k as int).push(x));
        assert(orig.skip(k + 1) == orig.skip(k as int).drop_first());
        proof {
            lemma_member_push(orig.take(k as int), x, a@);
            lemma_member_push(orig.take(k as int), x, b@);
        }
        let is_a = str_eq(x.name.as_str(), a);
        let is_b = str_eq(x.name.as_str(), b);
        if is_a && first.is_none() {
            first = Some(x.value);
        } else if is_b && !is_a && second.is_none() {
            second = Some(x.value);
        }
        k = k + 1;
    }
    assert(orig.take(k as int) == orig);
    (first, second)
}

impl RoomEvent {
    /// How the event is kept: state events carry a state key.
    pub fn kind(&self) -> (r: EventKind)
        ensures
            (r == EventKind::State) <==> self.state_key is Some,
    {
        if self.state_key.is_some() {
            EventKind::State
        } else {
            EventKind::MessageLike
        }
    }

    /// Reads a room event and dispatches its content by type.
    pub fn from_members(m: Vec<JsonMember>) -> (r: Result<RoomEvent, EventError>)
        ensures
            r is Err <==> event_read_error(m@) is Some,
            r matches Err(e) ==> event_read_error(m@) == Some(e),
            r matches Ok(e) ==> event_read_as(m@, e),
    {
        let event_type = match get_member(&m, "type") {
            None => {
                return Err(EventError::MissingRequiredField);
            },
            Some(JsonValue::String(s)) => s.clone(),
            Some(_) => {
                return Err(EventError::MalformedContent);
            },
        };
        match get_member(&m, "content") {
            None => {
                return Err(EventError::MissingRequiredField);
            },
            Some(JsonValue::Object(_)) => {},
            Some(_) => {
                return Err(EventError::MalformedContent);
            },
        }
        let event_id = match read_valid_event_id(&m, "event_id") {
            Ok(x) => x,
            Err(e) => {
                return Err(e);
            },
        };
        let sender = match read_sender(&m) {
            Ok(x) => x,
            Err(e) => {
                return Err(e);
            },
        };
        let origin_server_ts = match read_timestamp(&m) {
            Ok(x) => x,
            Err(e) => {
                return Err(e);
            },
        };
        let room_id = match read_room_id(&m) {
            Ok(x) => x,
            Err(e) => {
                return Err(e);
            },
        };
        let state_key = match get_member(&m, "state_key") {
            None => None,
            Some(JsonValue::String(s)) => Some(s.clone()),
            Some(_) => {
                return Err(EventError::MalformedContent);
            },
        };
        let t = event_type.as_str();
        let message_like = str_eq(t, "org.matrix.msc3381.v2.poll.response") || str_eq(
            t,
            "m.poll.response",
        ) || str_eq(t, "m.room.redaction");
        if str_eq(t, "m.space.child") && state_key.is_none() {
            return Err(EventError::MissingRequiredField);
        }
        if message_like && state_key.is_some() {
            return Err(EventError::MalformedContent);
        }
        let redacts = if str_eq(t, "m.room.redaction") {
            match read_valid_event_id(&m, "redacts") {
                Ok(x) => Some(x),
                Err(e) => {
                    return Err(e);
                },
            }
        } else {
            None
        };
        match get_member(&m, "unsigned") {
            None => {},
            Some(JsonValue::Object(_)) => {},
            Some(_) => {
                return Err(EventError::MalformedContent);
            },
        }
        proof {
            reveal_strlit("content");
            reveal_strlit("unsigned");
            assert("content"@.len() != "unsigned"@.len());
        }
        let ghost members = m@;
        let (content, unsigned) = take_two(m, "content", "unsigned");
        let content = match content {
            Some(JsonValue::Object(c)) => c,
            _ => {
                return Err(EventError::MalformedContent);
            },
        };
        let unsigned = match unsigned {
            Some(JsonValue::Object(u)) => u,
            _ => Vec::new(),
        };
        let content = match AnyEventContent::from_json(t, content) {
            Ok(c) => c,
            Err(e) => {
                return Err(e);
            },
        };
        Ok(
            RoomEvent {
                content,
                event_id,
                sender,
                origin_server_ts,
                room_id,
                state_key,
                redacts,
                unsigned,
            },
        )
    }

    /// Writes the event. Absent state keys and redaction targets, and empty
    /// unsigned data, are left out rather than written as `null` or `{}`.
    pub fn to_members(self) -> (r: Vec<JsonMember>)
        requires
            self.origin_server_ts <= MAX_TIMESTAMP,
        ensures
            required_string(r@, "type"@) == Ok::<Seq<char>, EventError>(
                crate::events::content::event_type_of(self.content),
            ),
            member(r@, "content"@) matches Some(JsonValue::Object(c)) && written_as(
                self.content,
                c@,
            ),
            required_string(r@, "event_id"@) == Ok::<Seq<char>, EventError>(self.event_id@),
            required_string(r@, "sender"@) == Ok::<Seq<char>, EventError>(self.sender@),
            timestamp_field(r@) == Ok::<int, EventError>(self.origin_server_ts as int),
            required_string(r@, "room_id"@) == Ok::<Seq<char>, EventError>(self.room_id@),
            state_key_field(r@) == Ok::<Option<Seq<char>>, EventError>(opt_view(self.state_key)),
            match self.redacts {
                None => member(r@, "redacts"@) is None,
                Some(x) => member(r@, "redacts"@) matches Some(JsonValue::String(s)) && s@ == x@,
            },
            unsigned_field(r@) == Ok::<Seq<JsonMember>, EventError>(self.unsigned@),
            member_names(r@) == event_names(self),
    {
        proof {
            reveal_strlit("type");
            reveal_strlit("content");
            reveal_strlit("event_id");
            reveal_strlit("sender");
            reveal_strlit("origin_server_ts");
            reveal_strlit("room_id");
            reveal_strlit("state_key");
            reveal_strlit("redacts");
            reveal_strlit("unsigned");
            assert("type"@.len() == 4 && "content"@.len() == 7 && "event_id"@.len() == 8);
            assert("sender"@.len() == 6 && "origin_server_ts"@.len() == 16);
            assert("room_id"@.len() == 7 && "state_key"@.len() == 9 && "redacts"@.len() == 7);
            assert("unsigned"@.len() == 8);
            assert("content"@[0] == 'c' && "room_id"@[0] == 'r' && "redacts"@[0] == 'r');
            assert("room_id"@[2] == 'o' && "redacts"@[2] == 'd');
            assert("event_id"@[0] == 'e' && "unsigned"@[0] == 'u');
        }
        let ghost original = self;
        let RoomEvent {
            content,
            event_id,
            sender,
            origin_server_ts,
            room_id,
            state_key,
            redacts,
            unsigned,
        } = self;
        let mut out: Vec<JsonMember> = Vec::new();
        proof {
            assert forall|k: Seq<char>| #[trigger] member(out@, k) is None by {
                lemma_no_members(k);
            }
            assert(member_names(out@) =~= Seq::<Seq<char>>::empty());
        }
        push_member(&mut out, "type", JsonValue::String(content.event_type()));
        push_member(&mut out, "content", JsonValue::Object(content.into_json()));
        push_member(&mut out, "event_id", JsonValue::String(key(event_id.as_str())));
        push_member(&mut out, "sender", JsonValue::String(key(sender.as_str())));
        push_member(&mut out, "origin_server_ts", JsonValue::Number(origin_server_ts as i64));
        push_member(&mut out, "room_id", JsonValue::String(key(room_id.as_str())));
        if let Some(k) = state_key {
            push_member(&mut out, "state_key", JsonValue::String(k));
        }
        if let Some(x) = redacts {
            push_member(&mut out, "redacts", JsonValue::String(key(x.as_str())));
        }
        if unsigned.len() > 0 {
            push_member(&mut out, "unsigned", JsonValue::Object(unsigned));
        } else {
            assert(unsigned@ == Seq::<JsonMember>::empty());
        }
        assert(member_names(out@) =~= event_names(original));
        out
    }
}

/// An event outside any room, such as a to-device message: its type and content.
#[derive(Debug, PartialEq, Eq)]
pub struct BasicEvent {
    pub content: AnyEventContent,
}

/// Why the members `m` cannot be read as a basic event, if they can't.
pub open spec fn basic_read_error(m: Seq<JsonMember>) -> Option<EventError> {
    match required_string(m, "type"@) {
        Err(e) => Some(e),
        Ok(t) => match member(m, "content"@) {
            None => Some(EventError::MissingRequiredField),
            Some(JsonValue::Object(c)) => read_error(t, c@),
            Some(_) => Some(EventError::MalformedContent),
        },
    }
}

impl BasicEvent {
    /// Reads a basic event and dispatches its content by type.
    pub fn from_members(m: Vec<JsonMember>) -> (r: Result<BasicEvent, EventError>)
        ensures
            r is Err <==> basic_read_error(m@) is Some,
            r matches Err(e) ==> basic_read_error(m@) == Some(e),
            r matches Ok(e) ==> required_string(m@, "type"@) matches Ok(t) && member(
                m@,
                "content"@,
            ) matches Some(JsonValue::Object(c)) && read_as(t, c@, e.content),
    {
        let event_type = match get_member(&m, "type") {
            None => {
                return Err(EventError::MissingRequiredField);
            },
            Some(JsonValue::String(s)) => s.clone(),
            Some(_) => {
                return Err(EventError::MalformedContent);
            },
        };
        match get_member(&m, "content") {
            None => {
                return Err(EventError::MissingRequiredField);
            },
            Some(JsonValue::Object(_)) => {},
            Some(_) => {
                return Err(EventError::MalformedContent);
            },
        }
        proof {
            reveal_strlit("content");
            reveal_strlit("unsigned");
            assert("content"@.len() != "unsigned"@.len());
        }
        let (content, _) = take_two(m, "content", "unsigned");
        let content = match content {
            Some(JsonValue::Object(c)) => c,
            _ => {
                return Err(EventError::MalformedContent);
            },
        };
        match AnyEventContent::from_json(event_type.as_str(), content) {
            Ok(c) => Ok(BasicEvent { content: c }),
            Err(e) => Err(e),
        }
    }

    /// Writes the event: its type, then its content.
    pub fn to_members(self) -> (r: Vec<JsonMember>)
        ensures
            member_names(r@) == seq!["type"@, "content"@],
            required_string(r@, "type"@) == Ok::<Seq<char>, EventError>(
                crate::events::content::event_type_of(self.content),
            ),
            member(r@, "content"@) matches Some(JsonValue::Object(c)) && written_as(
                self.content,
                c@,
            ),
    {
        proof {
            reveal_strlit("type");
            reveal_strlit("content");
            assert("type"@.len() != "content"@.len());
        }
        let mut out: Vec<JsonMember> = Vec::new();
        proof {
            assert forall|k: Seq<char>| #[trigger] member(out@, k) is None by {
                lemma_no_members(k);
            }
            assert(member_names(out@) =~= Seq::<Seq<char>>::empty());
        }
        push_member(&mut out, "type", JsonValue::String(self.content.event_type()));
        push_member(&mut out, "content", JsonValue::Object(self.content.into_json()));
        assert(member_names(out@) =~= seq!["type"@, "content"@]);
        out
    }
}

} // verus!
