//! Event content shapes, and dispatch from an event type and its JSON content to
//! one of them, with a lossless fallback for types this library does not know.
use crate::identifiers::{event_id_valid, server_name_valid, EventId, ServerName};
use crate::json::{get_member, member, member_names, str_eq, JsonMember, JsonValue};
use crate::events::verification_start::{start_read_as, start_read_error, StartEventContent};
use vstd::prelude::*;

verus! {

/// Why event content could not be read as the shape its type names.
#[derive(Clone, Copy, Debug, PartialEq, Eq)]
pub enum EventError {
    /// A member that the shape requires is absent.
    MissingRequiredField,
    /// A member holds a value of the wrong kind, or an invalid identifier.
    MalformedContent,
    /// The content of a shape that references another event has no relation block.
    MissingRelation,
}

/// The payload of an `m.space.child` state event.
#[derive(Debug, PartialEq, Eq)]
#[non_exhaustive]
pub struct ChildEventContent {
    /// Candidate servers that can be used to join the room.
    pub via: Option<Vec<ServerName>>,
    /// A default ordering of siblings in the room list.
    pub order: Option<String>,
    /// Whether clients should treat the child as suggested.
    pub suggested: Option<bool>,
    /// Members this library does not know, kept as received and written back
    /// after the others.
    pub extra: Vec<JsonMember>,
}

impl ChildEventContent {
    /// Content with every member absent.
    pub fn new() -> (r: ChildEventContent)
        ensures
            r.via is None,
            r.order is None,
            r.suggested is None,
            r.extra@.len() == 0,
    {
        ChildEventContent { via: None, order: None, suggested: None, extra: Vec::new() }
    }
}

/// The options a user selected in a poll.
#[derive(Clone, Debug, PartialEq, Eq)]
#[non_exhaustive]
pub struct SelectionsContentBlock(pub Vec<String>);

impl SelectionsContentBlock {
    /// Holds `selections` in their order.
    pub fn from(selections: Vec<String>) -> (r: SelectionsContentBlock)
        ensures
            r.0@ == selections@,
    {
        SelectionsContentBlock(selections)
    }

    /// Whether nothing is selected.
    pub fn is_empty(&self) -> (r: bool)
        ensures
            r == (self.0@.len() == 0),
    {
        self.0.len() == 0
    }

    /// The selections, in their order.
    pub fn as_slice(&self) -> (r: &[String])
        ensures
            r@ == self.0@,
    {
        self.0.as_slice()
    }

    /// Gives up the selections.
    pub fn into_vec(self) -> (r: Vec<String>)
        ensures
            r@ == self.0@,
    {
        self.0
    }
}

/// A relation block that points at the event this one refers to.
#[derive(Debug, PartialEq, Eq)]
pub struct Reference {
    /// The event referred to.
    pub event_id: EventId,
}

impl Reference {
    /// A reference to `event_id`.
    pub fn new(event_id: EventId) -> (r: Reference)
        ensures
            r.event_id == event_id,
    {
        Reference { event_id }
    }
}

/// The payload of a poll response event.
#[derive(Debug, PartialEq, Eq)]
#[non_exhaustive]
pub struct PollResponseEventContent {
    /// The user's selection.
    pub selections: SelectionsContentBlock,
    /// The poll start event this responds to.
    pub relates_to: Reference,
    /// Members this library does not know, kept as received and written back
    /// after the others.
    pub extra: Vec<JsonMember>,
}

impl PollResponseEventContent {
    /// A response with `selections` to the poll started by `poll_start_id`.
    pub fn new(selections: SelectionsContentBlock, poll_start_id: EventId) -> (r:
        PollResponseEventContent)
        ensures
            r.selections == selections,
            r.relates_to.event_id == poll_start_id,
            r.extra@.len() == 0,
    {
        PollResponseEventContent {
            selections,
            relates_to: Reference::new(poll_start_id),
            extra: Vec::new(),
        }
    }
}

/// The payload of an `m.room.redaction` event.
#[derive(Debug, PartialEq, Eq)]
#[non_exhaustive]
pub struct RedactionEventContent {
    /// Why the event was redacted.
    pub reason: Option<String>,
    /// Members this library does not know, kept as received and written back
    /// after the others.
    pub extra: Vec<JsonMember>,
}

impl RedactionEventContent {
    /// Content without a reason.
    pub fn new() -> (r: RedactionEventContent)
        ensures
            r.reason is None,
            r.extra@.len() == 0,
    {
        RedactionEventContent { reason: None, extra: Vec::new() }
    }

    /// Content with `reason`.
    pub fn with_reason(reason: String) -> (r: RedactionEventContent)
        ensures
            r.reason == Some(reason),
            r.extra@.len() == 0,
    {
        RedactionEventContent { reason: Some(reason), extra: Vec::new() }
    }
}

/// Content of an event type this library does not know, kept whole.
#[derive(Debug, PartialEq, Eq)]
pub struct CustomEventContent {
    /// The event type.
    pub event_type: String,
    /// The content members, as received.
    pub content: Vec<JsonMember>,
}

/// Event content, by the shape its event type names.
#[derive(Debug, PartialEq, Eq)]
pub enum AnyEventContent {
    SpaceChild(ChildEventContent),
    PollResponse(PollResponseEventContent),
    RoomRedaction(RedactionEventContent),
    KeyVerificationStart(StartEventContent),
    Custom(CustomEventContent),
}

pub open spec fn space_child_type() -> Seq<char> {
    "m.space.child"@
}

pub open spec fn poll_response_type() -> Seq<char> {
    "org.matrix.msc3381.v2.poll.response"@
}

pub open spec fn poll_response_alias() -> Seq<char> {
    "m.poll.response"@
}

pub open spec fn redaction_type() -> Seq<char> {
    "m.room.redaction"@
}

pub open spec fn verification_start_type() -> Seq<char> {
    "m.key.verification.start"@
}

/// Whether content of `event_type` is read as a statically known shape.
pub open spec fn is_registered(event_type: Seq<char>) -> bool {
    event_type == space_child_type() || event_type == poll_response_type() || event_type
        == poll_response_alias() || event_type == redaction_type() || event_type
        == verification_start_type()
}

/// Whether every element of `a` is a string.
pub open spec fn all_strings(a: Seq<JsonValue>) -> bool {
    forall|i: int| 0 <= i < a.len() ==> #[trigger] a[i] is String
}

/// Whether every element of `a` is a string that is a server name.
pub open spec fn all_server_names(a: Seq<JsonValue>) -> bool {
    forall|i: int|
        0 <= i < a.len() ==> (#[trigger] a[i] is String && server_name_valid(a[i]->String_0@))
}

/// `a` holds strings with the characters of `s`, in order.
pub open spec fn strings_match(a: Seq<JsonValue>, s: Seq<Seq<char>>) -> bool {
    a.len() == s.len() && forall|i: int|
        0 <= i < s.len() ==> (#[trigger] a[i] matches JsonValue::String(x) && x@ == s[i])
}

/// `v` is a JSON array of strings with the characters of `s`, in order.
pub open spec fn is_string_array_of(v: JsonValue, s: Seq<Seq<char>>) -> bool {
    v matches JsonValue::Array(a) && strings_match(a@, s)
}

/// The characters of each server name in `v`.
pub open spec fn server_names_view(v: Seq<ServerName>) -> Seq<Seq<char>> {
    v.map_values(|n: ServerName| n@)
}

/// The characters of each string in `v`.
pub open spec fn strings_view(v: Seq<String>) -> Seq<Seq<char>> {
    v.map_values(|s: String| s@)
}

/// `c` is what the members `m` of an `m.space.child` content say.
pub open spec fn child_read_from(m: Seq<JsonMember>, c: ChildEventContent) -> bool {
    &&& match member(m, "via"@) {
        None => c.via is None,
        Some(v) => c.via matches Some(via) && is_string_array_of(v, server_names_view(via@)),
    }
    &&& match member(m, "order"@) {
        None => c.order is None,
        Some(v) => c.order matches Some(o) && v matches JsonValue::String(s) && s@ == o@,
    }
    &&& match member(m, "suggested"@) {
        None => c.suggested is None,
        Some(v) => c.suggested matches Some(b) && v == JsonValue::Bool(b),
    }
    &&& c.extra@ == unknown_members(m, child_keys())
}

/// The members that `m.space.child` content has names for.
pub open spec fn child_keys() -> Seq<Seq<char>> {
    seq!["via"@, "order"@, "suggested"@]
}

/// The members that poll response content has names for.
pub open spec fn poll_keys() -> Seq<Seq<char>> {
    seq!["org.matrix.msc3381.v2.selections"@, "m.relates_to"@]
}

/// The members that `m.room.redaction` content has names for.
pub open spec fn redaction_keys() -> Seq<Seq<char>> {
    seq!["reason"@]
}

/// The names `c` writes before its unknown members, in order.
pub open spec fn child_names(c: ChildEventContent) -> Seq<Seq<char>> {
    (if c.via is Some {
        seq!["via"@]
    } else {
        Seq::empty()
    }) + (if c.order is Some {
        seq!["order"@]
    } else {
        Seq::empty()
    }) + (if c.suggested is Some {
        seq!["suggested"@]
    } else {
        Seq::empty()
    })
}

/// Whether the members `m` can be read as `m.space.child` content.
pub open spec fn child_readable(m: Seq<JsonMember>) -> bool {
    &&& member(m, "via"@) matches Some(v) ==> v matches JsonValue::Array(a) && all_server_names(
        a@,
    )
    &&& member(m, "order"@) matches Some(v) ==> v is String
    &&& member(m, "suggested"@) matches Some(v) ==> v is Bool
}

/// The event id that a reference block `v` points at.
pub open spec fn reference_target(v: JsonValue) -> Option<Seq<char>> {
    match v {
        JsonValue::Object(o) => match (member(o@, "rel_type"@), member(o@, "event_id"@)) {
            (Some(JsonValue::String(t)), Some(JsonValue::String(e))) => if t@ == "m.reference"@ {
                Some(e@)
            } else {
                None
            },
            _ => None,
        },
        _ => None,
    }
}

/// What the members `m` of poll response content say: the selections and the
/// referenced event id, or why they say nothing.
pub open spec fn poll_read(m: Seq<JsonMember>) -> Result<(Seq<Seq<char>>, Seq<char>), EventError> {
    match member(m, "org.matrix.msc3381.v2.selections"@) {
        None => Err(EventError::MissingRequiredField),
        Some(v) => if !(v matches JsonValue::Array(a) && all_strings(a@)) {
            Err(EventError::MalformedContent)
        } else {
            match member(m, "m.relates_to"@) {
                None => Err(EventError::MissingRelation),
                Some(rel) => match reference_target(rel) {
                    None => Err(EventError::MissingRelation),
                    Some(e) => if event_id_valid(e) {
                        Ok((strings_of(v->Array_0@), e))
                    } else {
                        Err(EventError::MalformedContent)
                    },
                },
            }
        },
    }
}

/// The characters of each element of `a`, all of which are strings.
pub open spec fn strings_of(a: Seq<JsonValue>) -> Seq<Seq<char>> {
    a.map_values(|v: JsonValue| v->String_0@)
}

/// `c` is what the members `m` of `m.room.redaction` content say.
pub open spec fn redaction_read_from(m: Seq<JsonMember>, c: RedactionEventContent) -> bool {
    &&& match member(m, "reason"@) {
        None => c.reason is None,
        Some(v) => c.reason matches Some(o) && v matches JsonValue::String(s) && s@ == o@,
    }
    &&& c.extra@ == unknown_members(m, redaction_keys())
}

/// Whether the members `m` can be read as `m.room.redaction` content.
pub open spec fn redaction_readable(m: Seq<JsonMember>) -> bool {
    member(m, "reason"@) matches Some(v) ==> v is String
}

/// `members` are what `c` is written as, member by member.
pub open spec fn written_as(c: AnyEventContent, members: Seq<JsonMember>) -> bool {
    match c {
        AnyEventContent::SpaceChild(x) => free_of(x.extra@, child_keys()) ==> child_read_from(
            members,
            x,
        ),
        AnyEventContent::PollResponse(x) => poll_read(members) == Ok::<
            (Seq<Seq<char>>, Seq<char>),
            EventError,
        >((strings_view(x.selections.0@), x.relates_to.event_id@)) && (free_of(
            x.extra@,
            poll_keys(),
        ) ==> x.extra@ == unknown_members(members, poll_keys())),
        AnyEventContent::RoomRedaction(x) => free_of(x.extra@, redaction_keys())
            ==> redaction_read_from(members, x),
        AnyEventContent::KeyVerificationStart(x) => x.writes_back() ==> start_read_as(members, x),
        AnyEventContent::Custom(x) => members == x.content@,
    }
}

/// `c` is what dispatch makes of `content` of `event_type`.
pub open spec fn read_as(event_type: Seq<char>, content: Seq<JsonMember>, c: AnyEventContent) -> bool {
    if event_type == space_child_type() {
        c matches AnyEventContent::SpaceChild(x) && child_read_from(content, x)
    } else if event_type == poll_response_type() || event_type == poll_response_alias() {
        c matches AnyEventContent::PollResponse(x) && poll_read(content) == Ok::<
            (Seq<Seq<char>>, Seq<char>),
            EventError,
        >((strings_view(x.selections.0@), x.relates_to.event_id@)) && x.extra@
            == unknown_members(content, poll_keys())
    } else if event_type == redaction_type() {
        c matches AnyEventContent::RoomRedaction(x) && redaction_read_from(content, x)
    } else if event_type == verification_start_type() {
        c matches AnyEventContent::KeyVerificationStart(x) && start_read_as(content, x)
    } else {
        c matches AnyEventContent::Custom(x) && x.event_type@ == event_type && x.content@
            == content
    }
}

/// The error dispatch reports for `content` of `event_type`, if any.
pub open spec fn read_error(event_type: Seq<char>, content: Seq<JsonMember>) -> Option<EventError> {
    if event_type == space_child_type() {
        if child_readable(content) {
            None
        } else {
            Some(EventError::MalformedContent)
        }
    } else if event_type == poll_response_type() || event_type == poll_response_alias() {
        match poll_read(content) {
            Ok(_) => None,
            Err(e) => Some(e),
        }
    } else if event_type == redaction_type() {
        if redaction_readable(content) {
            None
        } else {
            Some(EventError::MalformedContent)
        }
    } else if event_type == verification_start_type() {
        start_read_error(content)
    } else {
        None
    }
}

pub(crate) proof fn lemma_member_push(m: Seq<JsonMember>, x: JsonMember, k: Seq<char>)
    ensures
        member(m.push(x), k) == (if member(m, k) is Some {
            member(m, k)
        } else if x.name@ == k {
            Some(x.value)
        } else {
            None
        }),
    decreases m.len(),
{
    if m.len() > 0 {
        assert(m.push(x)[0] == m[0]);
        assert(m.push(x).drop_first() == m.drop_first().push(x));
        lemma_member_push(m.drop_first(), x, k);
    } else {
        assert(m.push(x)[0] == x);
        assert(m.push(x).drop_first().len() == 0);
        assert(member(m.push(x).drop_first(), k) is None);
        assert(member(m, k) is None);
    }
}

pub(crate) fn key(s: &str) -> (r: String)
    ensures
        r@ == s@,
{
    String::from_str(s)
}

fn read_optional_string(m: &Vec<JsonMember>, name: &str) -> (r: Result<Option<String>, EventError>)
    ensures
        match member(m@, name@) {
            None => r == Ok::<Option<String>, EventError>(None),
            Some(v) => match v {
                JsonValue::String(s) => r matches Ok(Some(x)) && x@ == s@,
                _ => r == Err::<Option<String>, EventError>(EventError::MalformedContent),
            },
        },
{
    match get_member(m, name) {
        None => Ok(None),
        Some(JsonValue::String(s)) => Ok(Some(s.clone())),
        Some(_) => Err(EventError::MalformedContent),
    }
}

fn read_optional_bool(m: &Vec<JsonMember>, name: &str) -> (r: Result<Option<bool>, EventError>)
    ensures
        match member(m@, name@) {
            None => r == Ok::<Option<bool>, EventError>(None),
            Some(v) => match v {
                JsonValue::Bool(b) => r == Ok::<Option<bool>, EventError>(Some(b)),
                _ => r == Err::<Option<bool>, EventError>(EventError::MalformedContent),
            },
        },
{
    match get_member(m, name) {
        None => Ok(None),
        Some(JsonValue::Bool(b)) => Ok(Some(*b)),
        Some(_) => Err(EventError::MalformedContent),
    }
}

fn read_server_names(a: &Vec<JsonValue>) -> (r: Result<Vec<ServerName>, EventError>)
    ensures
        r is Ok <==> all_server_names(a@),
        r matches Ok(v) ==> strings_match(a@, server_names_view(v@)),
        r matches Err(e) ==> e == EventError::MalformedContent,
{
    let mut out: Vec<ServerName> = Vec::new();
    let mut i: usize = 0;
    while i < a.len()
        invariant
            i <= a@.len(),
            out@.len() == i,
            all_server_names(a@.subrange(0, i as int)),
            strings_match(a@.subrange(0, i as int), server_names_view(out@)),
        decreases a@.len() - i,
    {
        match &a[i] {
            JsonValue::String(s) => match ServerName::parse(s.as_str()) {
                Ok(n) => {
                    out.push(n);
                },
                Err(_) => {
                    assert(!all_server_names(a@) && a@[i as int] is String);
                    return Err(EventError::MalformedContent);
                },
            },
            _ => {
                assert(!(a@[i as int] is String));
                return Err(EventError::MalformedContent);
            },
        }
        i = i + 1;
        assert(a@.subrange(0, i as int).drop_last() == a@.subrange(0, i - 1));
    }
    assert(a@.subrange(0, i as int) == a@);
    Ok(out)
}

pub(crate) fn read_strings(a: &Vec<JsonValue>) -> (r: Result<Vec<String>, EventError>)
    ensures
        r is Ok <==> all_strings(a@),
        r matches Ok(v) ==> strings_view(v@) == strings_of(a@),
        r matches Err(e) ==> e == EventError::MalformedContent,
{
    let mut out: Vec<String> = Vec::new();
    let mut i: usize = 0;
    while i < a.len()
        invariant
            i <= a@.len(),
            all_strings(a@.subrange(0, i as int)),
            strings_view(out@) == strings_of(a@.subrange(0, i as int)),
        decreases a@.len() - i,
    {
        match &a[i] {
            JsonValue::String(s) => {
                let ghost before = out@;
                out.push(s.clone());
                assert(strings_view(out@) =~= strings_view(before).push(s@));
                assert(strings_of(a@.subrange(0, i + 1)) =~= strings_of(
                    a@.subrange(0, i as int),
                ).push(s@));
            },
            _ => {
                assert(!(a@[i as int] is String));
                return Err(EventError::MalformedContent);
            },
        }
        i = i + 1;
        assert(a@.subrange(0, i as int).drop_last() == a@.subrange(0, i - 1));
    }
    assert(a@.subrange(0, i as int) == a@);
    Ok(out)
}

pub(crate) fn push_member(out: &mut Vec<JsonMember>, name: &str, value: JsonValue)
    ensures
        final(out)@.len() == old(out)@.len() + 1,
        final(out)@.drop_last() == old(out)@,
        final(out)@.last().name@ == name@,
        final(out)@.last().value == value,
        member_names(final(out)@) == member_names(old(out)@).push(name@),
        forall|k: Seq<char>|
            #[trigger] member(final(out)@, k) == (if member(old(out)@, k) is Some {
                member(old(out)@, k)
            } else if name@ == k {
                Some(value)
            } else {
                None
            }),
{
    let ghost before = out@;
    let m = JsonMember { name: key(name), value };
    out.push(m);
    assert(out@.drop_last() == before);
    assert(member_names(out@) =~= member_names(before).push(name@));
    proof {
        assert forall|k: Seq<char>|
            #[trigger] member(out@, k) == (if member(before, k) is Some {
                member(before, k)
            } else if name@ == k {
                Some(value)
            } else {
                None
            }) by {
            lemma_member_push(before, m, k);
        }
    }
}

/// The members of `m` whose names are not in `known`, in order.
pub open spec fn unknown_members(m: Seq<JsonMember>, known: Seq<Seq<char>>) -> Seq<JsonMember>
    decreases m.len(),
{
    if m.len() == 0 {
        Seq::empty()
    } else if known.contains(m.last().name@) {
        unknown_members(m.drop_last(), known)
    } else {
        unknown_members(m.drop_last(), known).push(m.last())
    }
}

/// Whether no member of `extra` has a name in `known`.
pub open spec fn free_of(extra: Seq<JsonMember>, known: Seq<Seq<char>>) -> bool {
    forall|i: int| 0 <= i < extra.len() ==> !known.contains(#[trigger] extra[i].name@)
}

/// The characters of each name in `v`.
pub open spec fn str_views(v: Seq<&str>) -> Seq<Seq<char>> {
    v.map_values(|s: &str| s@)
}

fn is_known(known: &Vec<&str>, k: &str) -> (r: bool)
    ensures
        r == str_views(known@).contains(k@),
{
    let mut i: usize = 0;
    while i < known.len()
        invariant
            i <= known@.len(),
            forall|j: int| 0 <= j < i ==> known@[j]@ != k@,
        decreases known@.len() - i,
    {
        if str_eq(known[i], k) {
            assert(str_views(known@)[i as int] == k@);
            return true;
        }
        i = i + 1;
    }
    assert forall|j: int| 0 <= j < str_views(known@).len() implies str_views(known@)[j] != k@ by {
        assert(str_views(known@)[j] == known@[j]@);
    }
    false
}

/// Moves out the members of `m` whose names are not in `known`.
pub(crate) fn take_unknown(m: Vec<JsonMember>, known: &Vec<&str>) -> (r: Vec<JsonMember>)
    ensures
        r@ == unknown_members(m@, str_views(known@)),
{
    let ghost orig = m@;
    let n = m.len();
    let mut rest = m;
    let mut out: Vec<JsonMember> = Vec::new();
    let mut k: usize = 0;
    while rest.len() > 0
        invariant
            k <= orig.len(),
            orig.len() == n,
            rest@ == orig.skip(k as int),
            rest@.len() == orig.len() - k,
            out@ == unknown_members(orig.take(k as int), str_views(known@)),
        decreases rest@.len(),
    {
        let x = rest.remove(0);
        assert(x == orig[k as int]);
        assert(orig.take(k + 1).drop_last() == orig.take(k as int));
        assert(orig.take(k + 1).last() == x);
        assert(orig.skip(k + 1) == orig.skip(k as int).drop_first());
        if !is_known(known, x.name.as_str()) {
            out.push(x);
        }
        k = k + 1;
    }
    assert(orig.take(k as int) == orig);
    out
}

proof fn lemma_member_append(a: Seq<JsonMember>, b: Seq<JsonMember>, k: Seq<char>)
    ensures
        member(a, k) is Some ==> member(a + b, k) == member(a, k),
        (forall|i: int| 0 <= i < b.len() ==> (#[trigger] b[i]).name@ != k) ==> member(a + b, k)
            == member(a, k),
    decreases b.len(),
{
    if b.len() > 0 {
        lemma_member_append(a, b.drop_last(), k);
        lemma_member_push(a + b.drop_last(), b.last(), k);
        assert(a + b == (a + b.drop_last()).push(b.last()));
        if forall|i: int| 0 <= i < b.len() ==> (#[trigger] b[i]).name@ != k {
            assert forall|i: int| 0 <= i < b.drop_last().len() implies (
            #[trigger] b.drop_last()[i]).name@ != k by {
                assert(b.drop_last()[i] == b[i]);
            }
            assert(b.last() == b[b.len() - 1]);
        }
    } else {
        assert(a + b == a);
    }
}

/// Appends `extra` to `out`.
pub(crate) fn append_members(out: &mut Vec<JsonMember>, extra: Vec<JsonMember>)
    ensures
        final(out)@ == old(out)@ + extra@,
        member_names(final(out)@) == member_names(old(out)@) + member_names(extra@),
        forall|k: Seq<char>|
            (#[trigger] member(old(out)@, k)) is Some ==> member(final(out)@, k) == member(
                old(out)@,
                k,
            ),
        forall|k: Seq<char>|
            (forall|i: int| 0 <= i < extra@.len() ==> (#[trigger] extra@[i]).name@ != k)
                ==> #[trigger] member(final(out)@, k) == member(old(out)@, k),
{
    let ghost start = out@;
    let ghost orig = extra@;
    let n = extra.len();
    let mut rest = extra;
    let mut k: usize = 0;
    while rest.len() > 0
        invariant
            k <= orig.len(),
            orig.len() == n,
            rest@ == orig.skip(k as int),
            rest@.len() == orig.len() - k,
            out@ == start + orig.take(k as int),
        decreases rest@.len(),
    {
        let x = rest.remove(0);
        assert(x == orig[k as int]);
        assert(orig.skip(k + 1) == orig.skip(k as int).drop_first());
        out.push(x);
        assert(orig.take(k + 1) == orig.take(k as int).push(x));
        assert(out@ =~= start + orig.take(k + 1));
        k = k + 1;
    }
    assert(orig.take(k as int) == orig);
    assert(member_names(out@) =~= member_names(start) + member_names(orig));
    proof {
        assert forall|q: Seq<char>| (#[trigger] member(start, q)) is Some implies member(out@, q)
            == member(start, q) by {
            lemma_member_append(start, orig, q);
        }
        assert forall|q: Seq<char>|
            (forall|i: int| 0 <= i < orig.len() ==> (#[trigger] orig[i]).name@ != q) implies
            #[trigger] member(out@, q) == member(start, q) by {
            lemma_member_append(start, orig, q);
        }
    }
}

proof fn lemma_unknown_push_known(a: Seq<JsonMember>, x: JsonMember, known: Seq<Seq<char>>)
    requires
        known.contains(x.name@),
    ensures
        unknown_members(a.push(x), known) == unknown_members(a, known),
{
    assert(a.push(x).drop_last() == a);
}

proof fn lemma_unknown_append(a: Seq<JsonMember>, b: Seq<JsonMember>, known: Seq<Seq<char>>)
    requires
        free_of(b, known),
    ensures
        unknown_members(a + b, known) == unknown_members(a, known) + b,
    decreases b.len(),
{
    if b.len() == 0 {
        assert(a + b == a);
        assert(unknown_members(a, known) + b == unknown_members(a, known));
    } else {
        assert forall|i: int| 0 <= i < b.drop_last().len() implies !known.contains(
            #[trigger] b.drop_last()[i].name@,
        ) by {
            assert(b.drop_last()[i] == b[i]);
        }
        lemma_unknown_append(a, b.drop_last(), known);
        assert((a + b).drop_last() == a + b.drop_last());
        assert((a + b).last() == b[b.len() - 1]);
        assert(unknown_members(a, known) + b =~= (unknown_members(a, known) + b.drop_last()).push(
            b.last(),
        ));
    }
}

/// Appends unknown members after the known ones written to `out`.
fn append_unknown(out: &mut Vec<JsonMember>, extra: Vec<JsonMember>, known: Ghost<Seq<Seq<char>>>)
    requires
        unknown_members(old(out)@, known@) == Seq::<JsonMember>::empty(),
    ensures
        member_names(final(out)@) == member_names(old(out)@) + member_names(extra@),
        forall|k: Seq<char>|
            (#[trigger] member(old(out)@, k)) is Some ==> member(final(out)@, k) == member(
                old(out)@,
                k,
            ),
        free_of(extra@, known@) ==> unknown_members(final(out)@, known@) == extra@,
        free_of(extra@, known@) ==> forall|k: Seq<char>|
            known@.contains(k) ==> #[trigger] member(final(out)@, k) == member(old(out)@, k),
{
    let ghost before = out@;
    let ghost e = extra@;
    append_members(out, extra);
    proof {
        if free_of(e, known@) {
            lemma_unknown_append(before, e, known@);
            assert(Seq::<JsonMember>::empty() + e == e);
            assert forall|k: Seq<char>| known@.contains(k) implies #[trigger] member(out@, k)
                == member(before, k) by {
                assert forall|i: int| 0 <= i < e.len() implies (#[trigger] e[i]).name@ != k by {
                    assert(!known@.contains(e[i].name@));
                }
            }
        }
    }
}

pub(crate) fn string_array(v: &Vec<String>) -> (r: JsonValue)
    ensures
        is_string_array_of(r, strings_view(v@)),
{
    let mut out: Vec<JsonValue> = Vec::new();
    let mut i: usize = 0;
    while i < v.len()
        invariant
            i <= v@.len(),
            strings_match(out@, strings_view(v@.subrange(0, i as int))),
        decreases v@.len() - i,
    {
        out.push(JsonValue::String(v[i].clone()));
        i = i + 1;
        assert(strings_view(v@.subrange(0, i as int)) =~= strings_view(v@.subrange(0, i - 1)).push(
            v@[i - 1]@,
        ));
    }
    assert(v@.subrange(0, i as int) == v@);
    JsonValue::Array(out)
}

fn server_name_array(v: &Vec<ServerName>) -> (r: JsonValue)
    ensures
        is_string_array_of(r, server_names_view(v@)),
{
    let mut out: Vec<JsonValue> = Vec::new();
    let mut i: usize = 0;
    while i < v.len()
        invariant
            i <= v@.len(),
            strings_match(out@, server_names_view(v@.subrange(0, i as int))),
        decreases v@.len() - i,
    {
        out.push(JsonValue::String(key(v[i].as_str())));
        i = i + 1;
        assert(server_names_view(v@.subrange(0, i as int)) =~= server_names_view(
            v@.subrange(0, i - 1),
        ).push(v@[i - 1]@));
    }
    assert(v@.subrange(0, i as int) == v@);
    JsonValue::Array(out)
}

pub(crate) proof fn lemma_no_members(k: Seq<char>)
    ensures
        member(Seq::<JsonMember>::empty(), k) is None,
{
}

impl ChildEventContent {
    /// Reads `m.space.child` content; every member is optional.
    pub fn from_members(members: Vec<JsonMember>) -> (r: Result<ChildEventContent, EventError>)
        ensures
            r is Ok <==> child_readable(members@),
            r matches Ok(c) ==> child_read_from(members@, c),
            r matches Err(e) ==> e == EventError::MalformedContent,
    {
        let m = &members;
        let via = match get_member(m, "via") {
            None => None,
            Some(JsonValue::Array(a)) => match read_server_names(a) {
                Ok(v) => Some(v),
                Err(e) => {
                    return Err(e);
                },
            },
            Some(_) => {
                return Err(EventError::MalformedContent);
            },
        };
        let order = match read_optional_string(m, "order") {
            Ok(o) => o,
            Err(e) => {
                return Err(e);
            },
        };
        let suggested = match read_optional_bool(m, "suggested") {
            Ok(b) => b,
            Err(e) => {
                return Err(e);
            },
        };
        let known = vec!["via", "order", "suggested"];
        assert(str_views(known@) =~= child_keys());
        let extra = take_unknown(members, &known);
        Ok(ChildEventContent { via, order, suggested, extra })
    }

    /// Writes the content: the members that are present, in the order `via`,
    /// `order`, `suggested`, then the unknown members. An absent member is left
    /// out, not written as `null`.
    pub fn to_members(self) -> (r: Vec<JsonMember>)
        ensures
            member_names(r@) == child_names(self) + member_names(self.extra@),
            free_of(self.extra@, child_keys()) ==> child_read_from(r@, self),
    {
        let ghost original = self;
        let mut out: Vec<JsonMember> = Vec::new();
        proof {
            reveal_strlit("via");
            reveal_strlit("order");
            reveal_strlit("suggested");
            assert("via"@.len() == 3 && "order"@.len() == 5 && "suggested"@.len() == 9);
            assert forall|k: Seq<char>| #[trigger] member(out@, k) is None by {
                lemma_no_members(k);
            }
        }
        proof {
            assert(child_keys()[0] == "via"@ && child_keys()[1] == "order"@ && child_keys()[2]
                == "suggested"@);
            assert(member_names(out@) =~= Seq::<Seq<char>>::empty());
        }
        if let Some(v) = &self.via {
            let ghost before = out@;
            push_member(&mut out, "via", server_name_array(v));
            proof {
                lemma_unknown_push_known(before, out@.last(), child_keys());
                assert(out@ == before.push(out@.last()));
            }
        }
        assert(match member(out@, "via"@) {
            None => self.via is None,
            Some(v) => self.via matches Some(via) && is_string_array_of(v, server_names_view(via@)),
        });
        assert(member(out@, "order"@) is None && member(out@, "suggested"@) is None);
        if let Some(o) = &self.order {
            let ghost before = out@;
            push_member(&mut out, "order", JsonValue::String(o.clone()));
            proof {
                lemma_unknown_push_known(before, out@.last(), child_keys());
                assert(out@ == before.push(out@.last()));
            }
        }
        assert(member(out@, "suggested"@) is None);
        if let Some(b) = self.suggested {
            let ghost before = out@;
            push_member(&mut out, "suggested", JsonValue::Bool(b));
            proof {
                lemma_unknown_push_known(before, out@.last(), child_keys());
                assert(out@ == before.push(out@.last()));
            }
        }
        assert(member_names(out@) =~= child_names(original));
        assert(unknown_members(out@, child_keys()) == Seq::<JsonMember>::empty());
        let ghost known_part = out@;
        append_unknown(&mut out, self.extra, Ghost(child_keys()));
        proof {
            if free_of(original.extra@, child_keys()) {
                assert(member(out@, "via"@) == member(known_part, "via"@));
                assert(member(out@, "order"@) == member(known_part, "order"@));
                assert(member(out@, "suggested"@) == member(known_part, "suggested"@));
            }
        }
        out
    }
}

impl RedactionEventContent {
    /// Reads `m.room.redaction` content; the reason is optional.
    pub fn from_members(members: Vec<JsonMember>) -> (r: Result<
        RedactionEventContent,
        EventError,
    >)
        ensures
            r is Ok <==> redaction_readable(members@),
            r matches Ok(c) ==> redaction_read_from(members@, c),
            r matches Err(e) ==> e == EventError::MalformedContent,
    {
        match read_optional_string(&members, "reason") {
            Ok(reason) => {
                let known = vec!["reason"];
                assert(str_views(known@) =~= redaction_keys());
                let extra = take_unknown(members, &known);
                Ok(RedactionEventContent { reason, extra })
            },
            Err(e) => Err(e),
        }
    }

    /// Writes the content: the reason when there is one, then the unknown members.
    /// An absent reason is left out, not written as `null`.
    pub fn to_members(self) -> (r: Vec<JsonMember>)
        ensures
            member_names(r@) == (if self.reason is Some {
                seq!["reason"@]
            } else {
                Seq::<Seq<char>>::empty()
            }) + member_names(self.extra@),
            free_of(self.extra@, redaction_keys()) ==> redaction_read_from(r@, self),
    {
        let ghost original = self;
        let mut out: Vec<JsonMember> = Vec::new();
        proof {
            assert forall|k: Seq<char>| #[trigger] member(out@, k) is None by {
                lemma_no_members(k);
            }
            assert(member_names(out@) =~= Seq::<Seq<char>>::empty());
            assert(redaction_keys()[0] == "reason"@);
        }
        if let Some(o) = &self.reason {
            let ghost before = out@;
            push_member(&mut out, "reason", JsonValue::String(o.clone()));
            proof {
                lemma_unknown_push_known(before, out@.last(), redaction_keys());
                assert(out@ == before.push(out@.last()));
            }
        }
        assert(unknown_members(out@, redaction_keys()) == Seq::<JsonMember>::empty());
        let ghost known_part = out@;
        append_unknown(&mut out, self.extra, Ghost(redaction_keys()));
        proof {
            if free_of(original.extra@, redaction_keys()) {
                assert(member(out@, "reason"@) == member(known_part, "reason"@));
            }
        }
        out
    }
}

fn read_reference(v: &JsonValue) -> (r: Option<&String>)
    ensures
        r matches Some(e) ==> reference_target(*v) == Some(e@),
        r is None ==> reference_target(*v) is None,
{
    match v {
        JsonValue::Object(o) => match (get_member(o, "rel_type"), get_member(o, "event_id")) {
            (Some(JsonValue::String(t)), Some(JsonValue::String(e))) => {
                if str_eq(t.as_str(), "m.reference") {
                    Some(e)
                } else {
                    None
                }
            },
            _ => None,
        },
        _ => None,
    }
}

impl PollResponseEventContent {
    /// Reads poll response content: the selections are required, and so is a
    /// relation block that references the poll's start event.
    pub fn from_members(members: Vec<JsonMember>) -> (r: Result<
        PollResponseEventContent,
        EventError,
    >)
        ensures
            r matches Ok(c) ==> poll_read(members@) == Ok::<
                (Seq<Seq<char>>, Seq<char>),
                EventError,
            >((strings_view(c.selections.0@), c.relates_to.event_id@)) && c.extra@
                == unknown_members(members@, poll_keys()),
            r matches Err(e) ==> poll_read(members@) == Err::<
                (Seq<Seq<char>>, Seq<char>),
                EventError,
            >(e),
    {
        let m = &members;
        let selections = match get_member(m, "org.matrix.msc3381.v2.selections") {
            None => {
                return Err(EventError::MissingRequiredField);
            },
            Some(JsonValue::Array(a)) => match read_strings(a) {
                Ok(v) => v,
                Err(e) => {
                    return Err(e);
                },
            },
            Some(_) => {
                return Err(EventError::MalformedContent);
            },
        };
        let rel = match get_member(m, "m.relates_to") {
            None => {
                return Err(EventError::MissingRelation);
            },
            Some(v) => v,
        };
        match read_reference(rel) {
            None => Err(EventError::MissingRelation),
            Some(e) => match EventId::parse(e.as_str()) {
                Ok(id) => {
                    let known = vec!["org.matrix.msc3381.v2.selections", "m.relates_to"];
                    assert(str_views(known@) =~= poll_keys());
                    let extra = take_unknown(members, &known);
                    Ok(
                        PollResponseEventContent {
                            selections: SelectionsContentBlock(selections),
                            relates_to: Reference::new(id),
                            extra,
                        },
                    )
                },
                Err(_) => Err(EventError::MalformedContent),
            },
        }
    }

    /// Writes the content: the selections, the relation block with exactly its
    /// type and target, then the unknown members.
    pub fn to_members(self) -> (r: Vec<JsonMember>)
        ensures
            member_names(r@) == poll_keys() + member_names(self.extra@),
            member(r@, "m.relates_to"@) matches Some(JsonValue::Object(o)) && member_names(o@)
                == seq!["rel_type"@, "event_id"@],
            poll_read(r@) == Ok::<(Seq<Seq<char>>, Seq<char>), EventError>(
                (strings_view(self.selections.0@), self.relates_to.event_id@),
            ),
            free_of(self.extra@, poll_keys()) ==> unknown_members(r@, poll_keys())
                == self.extra@,
    {
        let ghost original = self;
        proof {
            reveal_strlit("org.matrix.msc3381.v2.selections");
            reveal_strlit("m.relates_to");
            reveal_strlit("rel_type");
            reveal_strlit("event_id");
            assert("org.matrix.msc3381.v2.selections"@.len() == 32);
            assert("m.relates_to"@.len() == 12);
            assert("rel_type"@[0] == 'r' && "event_id"@[0] == 'e');
        }
        let mut rel: Vec<JsonMember> = Vec::new();
        proof {
            assert forall|k: Seq<char>| #[trigger] member(rel@, k) is None by {
                lemma_no_members(k);
            }
        }
        push_member(&mut rel, "rel_type", JsonValue::String(key("m.reference")));
        push_member(
            &mut rel,
            "event_id",
            JsonValue::String(key(self.relates_to.event_id.as_str())),
        );
        let mut out: Vec<JsonMember> = Vec::new();
        proof {
            assert forall|k: Seq<char>| #[trigger] member(out@, k) is None by {
                lemma_no_members(k);
            }
        }
        let sel = string_array(&self.selections.0);
        proof {
            assert(strings_of(sel->Array_0@) =~= strings_view(self.selections.0@));
        }
        assert(member_names(rel@) =~= seq!["rel_type"@, "event_id"@]);
        proof {
            assert(member_names(out@) =~= Seq::<Seq<char>>::empty());
            assert(poll_keys()[0] == "org.matrix.msc3381.v2.selections"@ && poll_keys()[1]
                == "m.relates_to"@);
        }
        let ghost s0 = out@;
        push_member(&mut out, "org.matrix.msc3381.v2.selections", sel);
        let ghost s1 = out@;
        push_member(&mut out, "m.relates_to", JsonValue::Object(rel));
        proof {
            lemma_unknown_push_known(s0, s1.last(), poll_keys());
            assert(s1 == s0.push(s1.last()));
            lemma_unknown_push_known(s1, out@.last(), poll_keys());
            assert(out@ == s1.push(out@.last()));
            assert(member_names(out@) =~= poll_keys());
        }
        let ghost s2 = out@;
        assert(poll_read(s2) == Ok::<(Seq<Seq<char>>, Seq<char>), EventError>(
            (strings_view(original.selections.0@), original.relates_to.event_id@),
        ));
        assert(member(s2, "org.matrix.msc3381.v2.selections"@) is Some);
        assert(member(s2, "m.relates_to"@) is Some);
        append_unknown(&mut out, self.extra, Ghost(poll_keys()));
        assert(member(out@, "org.matrix.msc3381.v2.selections"@) == member(
            s2,
            "org.matrix.msc3381.v2.selections"@,
        ));
        assert(member(out@, "m.relates_to"@) == member(s2, "m.relates_to"@));
        out
    }
}

/// The event type that content `c` is sent under.
pub open spec fn event_type_of(c: AnyEventContent) -> Seq<char> {
    match c {
        AnyEventContent::SpaceChild(_) => space_child_type(),
        AnyEventContent::PollResponse(_) => poll_response_type(),
        AnyEventContent::RoomRedaction(_) => redaction_type(),
        AnyEventContent::KeyVerificationStart(_) => verification_start_type(),
        AnyEventContent::Custom(x) => x.event_type@,
    }
}

impl AnyEventContent {
    /// Reads `content` as the shape that `event_type` names, or keeps it whole when
    /// the type is not one this library knows.
    pub fn from_json(event_type: &str, content: Vec<JsonMember>) -> (r: Result<
        AnyEventContent,
        EventError,
    >)
        ensures
            r is Err <==> read_error(event_type@, content@) is Some,
            r matches Err(e) ==> read_error(event_type@, content@) == Some(e),
            r matches Ok(c) ==> read_as(event_type@, content@, c),
    {
        if str_eq(event_type, "m.space.child") {
            match ChildEventContent::from_members(content) {
                Ok(c) => Ok(AnyEventContent::SpaceChild(c)),
                Err(e) => Err(e),
            }
        } else if str_eq(event_type, "org.matrix.msc3381.v2.poll.response") || str_eq(
            event_type,
            "m.poll.response",
        ) {
            match PollResponseEventContent::from_members(content) {
                Ok(c) => Ok(AnyEventContent::PollResponse(c)),
                Err(e) => Err(e),
            }
        } else if str_eq(event_type, "m.room.redaction") {
            match RedactionEventContent::from_members(content) {
                Ok(c) => Ok(AnyEventContent::RoomRedaction(c)),
                Err(e) => Err(e),
            }
        } else if str_eq(event_type, "m.key.verification.start") {
            match StartEventContent::from_members(content) {
                Ok(c) => Ok(AnyEventContent::KeyVerificationStart(c)),
                Err(e) => Err(e),
            }
        } else {
            Ok(AnyEventContent::Custom(CustomEventContent { event_type: key(event_type), content }))
        }
    }

    /// The event type this content is sent under.
    pub fn event_type(&self) -> (r: String)
        ensures
            r@ == event_type_of(*self),
    {
        match self {
            AnyEventContent::SpaceChild(_) => key("m.space.child"),
            AnyEventContent::PollResponse(_) => key("org.matrix.msc3381.v2.poll.response"),
            AnyEventContent::RoomRedaction(_) => key("m.room.redaction"),
            AnyEventContent::KeyVerificationStart(_) => key("m.key.verification.start"),
            AnyEventContent::Custom(x) => x.event_type.clone(),
        }
    }

    /// Writes the content as JSON object members.
    pub fn into_json(self) -> (r: Vec<JsonMember>)
        ensures
            written_as(self, r@),
    {
        match self {
            AnyEventContent::SpaceChild(x) => x.to_members(),
            AnyEventContent::PollResponse(x) => x.to_members(),
            AnyEventContent::RoomRedaction(x) => x.to_members(),
            AnyEventContent::KeyVerificationStart(x) => x.to_members(),
            AnyEventContent::Custom(x) => x.content,
        }
    }
}

/// Content of an event type that is not registered is kept whole: reading it and
/// writing it back gives the same members, under the same type.
pub proof fn lemma_unregistered_type_round_trip(
    event_type: Seq<char>,
    content: Seq<JsonMember>,
    c: AnyEventContent,
    written: Seq<JsonMember>,
)
    requires
        !is_registered(event_type),
        read_as(event_type, content, c),
        written_as(c, written),
    ensures
        written == content,
        event_type_of(c) == event_type,
{
}

/// Whether content written out is read back as the same shape: unknown members
/// must not reuse the shape's own names, and custom content must not claim a
/// registered type.
pub open spec fn content_writes_back(c: AnyEventContent) -> bool {
    match c {
        AnyEventContent::SpaceChild(x) => free_of(x.extra@, child_keys()),
        AnyEventContent::PollResponse(x) => free_of(x.extra@, poll_keys()),
        AnyEventContent::RoomRedaction(x) => free_of(x.extra@, redaction_keys()),
        AnyEventContent::KeyVerificationStart(x) => x.writes_back(),
        AnyEventContent::Custom(x) => !is_registered(x.event_type@),
    }
}

/// Content that writes back is read, from what it is written as and under its own
/// type, as the same content, unknown members included.
pub proof fn lemma_written_content_reads_as_itself(c: AnyEventContent, written: Seq<JsonMember>)
    requires
        content_writes_back(c),
        written_as(c, written),
    ensures
        read_as(event_type_of(c), written, c),
{
    reveal_strlit("m.space.child");
    reveal_strlit("org.matrix.msc3381.v2.poll.response");
    reveal_strlit("m.poll.response");
    reveal_strlit("m.room.redaction");
    reveal_strlit("m.key.verification.start");
    assert(space_child_type().len() == 13 && poll_response_type().len() == 35);
    assert(poll_response_alias().len() == 15 && redaction_type().len() == 16);
    assert(verification_start_type().len() == 24);
}

/// Unregistered event types are never refused.
pub proof fn lemma_unregistered_type_is_read(event_type: Seq<char>, content: Seq<JsonMember>)
    requires
        !is_registered(event_type),
    ensures
        read_error(event_type, content) is None,
{
}

} // verus!
