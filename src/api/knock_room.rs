//! `POST /_matrix/client/r0/knock/{roomIdOrAlias}`: knock on a room.
use crate::api::{
    contains_char, lemma_pairs_for_values_of, lemma_values_of_pairs_for, pairs_for, pairs_view, query_values, token_to_send,
    values_of, ApiError, AuthScheme, Metadata, Method, WireRequest, WireResponse,
};
use crate::events::content::{key, lemma_no_members, push_member, server_names_view, strings_view};
use crate::identifiers::{
    room_id_or_alias_valid, room_id_valid, RoomId, RoomIdOrAliasId, ServerName,
    server_name_valid,
};
use crate::json::{get_member, member, member_names, str_eq, JsonMember, JsonValue};
use crate::percent::{decoded, encoded, lemma_decode_encoded, lemma_encoded_has_no_slash, percent_decode, percent_encode};
use vstd::prelude::*;

verus! {

/// The endpoint's metadata.
pub fn metadata() -> (r: Metadata)
    ensures
        r.method == Method::Post,
        r.name@ == "knock_room"@,
        r.path@ == "/_matrix/client/r0/knock/:room_id_or_alias"@,
        r.rate_limited,
        r.authentication == AuthScheme::AccessToken,
{
    Metadata {
        description: "Knock on a room.",
        method: Method::Post,
        name: "knock_room",
        path: "/_matrix/client/r0/knock/:room_id_or_alias",
        rate_limited: true,
        authentication: AuthScheme::AccessToken,
    }
}

/// The literal part of the path, before the room placeholder.
pub open spec fn path_prefix() -> Seq<char> {
    "/_matrix/client/r0/knock/"@
}

/// The path of a knock on `room`.
pub open spec fn request_path(room: Seq<char>) -> Seq<char> {
    path_prefix() + encoded(room)
}

/// The name of the query pairs that carry the servers to knock through.
pub open spec fn server_name_key() -> Seq<char> {
    "server_name"@
}

/// A knock request as plain values: the room, the reason and the servers.
pub type RequestView = (Seq<char>, Option<Seq<char>>, Seq<Seq<char>>);

/// What a wire request with `path`, `query` and `body` is read as.
pub open spec fn read_request(
    path: Seq<char>,
    query: Seq<(Seq<char>, Seq<char>)>,
    body: Seq<JsonMember>,
) -> Result<RequestView, ApiError> {
    let n = path_prefix().len();
    if !(path.len() >= n && path.subrange(0, n as int) == path_prefix()) {
        Err(ApiError::PathMismatch)
    } else {
        let segment = path.subrange(n as int, path.len() as int);
        if segment.contains('/') {
            Err(ApiError::PathMismatch)
        } else {
            match decoded(segment) {
                None => Err(ApiError::PathMismatch),
                Some(room) => {
                    let servers = values_of(query, server_name_key());
                    if !room_id_or_alias_valid(room) {
                        Err(ApiError::MalformedWire)
                    } else if !(forall|i: int|
                        0 <= i < servers.len() ==> server_name_valid(#[trigger] servers[i])) {
                        Err(ApiError::MalformedWire)
                    } else {
                        match member(body, "reason"@) {
                            None => Ok((room, None, servers)),
                            Some(JsonValue::String(s)) => Ok((room, Some(s@), servers)),
                            Some(_) => Err(ApiError::MalformedWire),
                        }
                    }
                },
            }
        }
    }
}

/// `body` carries `reason`, and only it: absent when there is none.
pub open spec fn body_carries(body: Seq<JsonMember>, reason: Option<Seq<char>>) -> bool {
    &&& match reason {
        None => member(body, "reason"@) is None,
        Some(r) => member(body, "reason"@) matches Some(JsonValue::String(s)) && s@ == r,
    }
    &&& member_names(body) == (if reason is Some {
        seq!["reason"@]
    } else {
        Seq::<Seq<char>>::empty()
    })
}

/// The reason of a request, as characters.
pub open spec fn reason_view(reason: Option<String>) -> Option<Seq<char>> {
    match reason {
        None => None,
        Some(s) => Some(s@),
    }
}

/// A request to knock on a room.
#[derive(Debug, PartialEq, Eq)]
#[non_exhaustive]
pub struct Request {
    /// The room to knock on.
    pub room_id_or_alias: RoomIdOrAliasId,
    /// Why the user wants to join.
    pub reason: Option<String>,
    /// The servers to knock through; one of them must be in the room.
    pub server_name: Vec<ServerName>,
}

impl Request {
    /// The request as plain values.
    pub open spec fn view_parts(&self) -> RequestView {
        (self.room_id_or_alias@, reason_view(self.reason), server_names_view(self.server_name@))
    }

    /// A request to knock on `room_id_or_alias`, with no reason and no servers.
    pub fn new(room_id_or_alias: RoomIdOrAliasId) -> (r: Request)
        ensures
            r.room_id_or_alias == room_id_or_alias,
            r.reason is None,
            r.server_name@.len() == 0,
    {
        Request { room_id_or_alias, reason: None, server_name: Vec::new() }
    }

    /// Writes the request for the wire. The room goes, percent-encoded, into the
    /// path; each server becomes one `server_name` query pair, in order, and none
    /// is written when there are none; the reason, when present, is the body's only
    /// member. A token is required.
    pub fn try_into_wire(&self, access_token: Option<&str>) -> (r: Result<WireRequest, ApiError>)
        ensures
            access_token is None <==> r is Err,
            r matches Err(e) ==> e == ApiError::MissingToken,
            r matches Ok(w) ==> {
                &&& w.method == Method::Post
                &&& w.path@ == request_path(self.room_id_or_alias@)
                &&& pairs_view(w.query@) == pairs_for(
                    server_name_key(),
                    server_names_view(self.server_name@),
                )
                &&& body_carries(w.body@, reason_view(self.reason))
                &&& w.access_token matches Some(t) && t@ == access_token->Some_0@
            },
    {
        let token = match token_to_send(metadata().authentication, access_token) {
            Ok(t) => t,
            Err(e) => {
                return Err(e);
            },
        };
        let mut path = String::from_str("/_matrix/client/r0/knock/");
        let segment = percent_encode(self.room_id_or_alias.as_str());
        path.append(segment.as_str());
        let mut query: Vec<(String, String)> = Vec::new();
        let mut i: usize = 0;
        while i < self.server_name.len()
            invariant
                i <= self.server_name@.len(),
                pairs_view(query@) == pairs_for(
                    server_name_key(),
                    server_names_view(self.server_name@.subrange(0, i as int)),
                ),
            decreases self.server_name@.len() - i,
        {
            let ghost before = query@;
            let k = key("server_name");
            let v = key(self.server_name[i].as_str());
            query.push((k, v));
            assert(pairs_view(query@) == pairs_view(before).push((k@, v@)));
            assert(server_names_view(self.server_name@.subrange(0, i + 1)) == server_names_view(
                self.server_name@.subrange(0, i as int),
            ).push(v@));
            i = i + 1;
            assert(pairs_view(query@) =~= pairs_for(
                server_name_key(),
                server_names_view(self.server_name@.subrange(0, i as int)),
            ));
        }
        assert(self.server_name@.subrange(0, i as int) == self.server_name@);
        let mut body: Vec<JsonMember> = Vec::new();
        proof {
            assert forall|k: Seq<char>| #[trigger] member(body@, k) is None by {
                lemma_no_members(k);
            }
            assert(member_names(body@) =~= Seq::<Seq<char>>::empty());
        }
        if let Some(reason) = &self.reason {
            push_member(&mut body, "reason", JsonValue::String(reason.clone()));
        }
        Ok(WireRequest { method: Method::Post, path, query, access_token: token, body })
    }

    /// Reads a request off the wire: the path must have the template's shape, the
    /// room and every `server_name` value must be valid, and a reason, when
    /// present, must be a string. The token is not looked at.
    pub fn try_from_wire(w: &WireRequest) -> (r: Result<Request, ApiError>)
        ensures
            r matches Ok(q) ==> read_request(w.path@, pairs_view(w.query@), w.body@) == Ok::<
                RequestView,
                ApiError,
            >(q.view_parts()),
            r matches Err(e) ==> read_request(w.path@, pairs_view(w.query@), w.body@) == Err::<
                RequestView,
                ApiError,
            >(e),
    {
        let prefix = "/_matrix/client/r0/knock/";
        let n = prefix.unicode_len();
        let path = w.path.as_str();
        let len = path.unicode_len();
        if len < n || !str_eq(path.substring_char(0, n), prefix) {
            return Err(ApiError::PathMismatch);
        }
        let segment = path.substring_char(n, len);
        if contains_char(segment, '/') {
            return Err(ApiError::PathMismatch);
        }
        let room_text = match percent_decode(segment) {
            None => {
                return Err(ApiError::PathMismatch);
            },
            Some(t) => t,
        };
        let room = match RoomIdOrAliasId::parse(room_text.as_str()) {
            Ok(room) => room,
            Err(_) => {
                return Err(ApiError::MalformedWire);
            },
        };
        assert(w.path@.subrange(0, n as int) == path_prefix());
        assert(segment@ == w.path@.subrange(n as int, w.path@.len() as int));
        let values = query_values(&w.query, "server_name");
        let ghost servers = values_of(pairs_view(w.query@), server_name_key());
        let mut names: Vec<ServerName> = Vec::new();
        let mut i: usize = 0;
        while i < values.len()
            invariant
                i <= values@.len(),
                values@.map_values(|s: String| s@) == servers,
                server_names_view(names@) == servers.subrange(0, i as int),
                forall|j: int| 0 <= j < i ==> server_name_valid(#[trigger] servers[j]),
                servers == values_of(pairs_view(w.query@), server_name_key()),
                w.path@.len() >= path_prefix().len(),
                w.path@.subrange(0, n as int) == path_prefix(),
                n == path_prefix().len(),
                segment@ == w.path@.subrange(n as int, w.path@.len() as int),
                !segment@.contains('/'),
                decoded(segment@) == Some(room_text@),
                room_id_or_alias_valid(room_text@),
                room@ == room_text@,
            decreases values@.len() - i,
        {
            assert(values@[i as int]@ == servers[i as int]);
            match ServerName::parse(values[i].as_str()) {
                Ok(name) => {
                    let ghost before = names@;
                    names.push(name);
                    assert(server_names_view(names@) == server_names_view(before).push(
                        servers[i as int],
                    ));
                },
                Err(_) => {
                    assert(!server_name_valid(servers[i as int]));
                    assert(!(forall|j: int|
                        0 <= j < servers.len() ==> server_name_valid(#[trigger] servers[j])));
                    return Err(ApiError::MalformedWire);
                },
            }
            i = i + 1;
            assert(server_names_view(names@) =~= servers.subrange(0, i as int));
        }
        assert(servers.subrange(0, i as int) == servers);
        let reason = match get_member(&w.body, "reason") {
            None => None,
            Some(JsonValue::String(s)) => Some(s.clone()),
            Some(_) => {
                return Err(ApiError::MalformedWire);
            },
        };
        Ok(Request { room_id_or_alias: room, reason, server_name: names })
    }
}

/// Reading a written request gives the request back: for a valid room and valid
/// servers, the path, query pairs and body that `try_into_wire` writes are read as
/// the same room, reason and servers, in order.
pub proof fn lemma_request_round_trip(
    room: Seq<char>,
    reason: Option<Seq<char>>,
    servers: Seq<Seq<char>>,
    path: Seq<char>,
    query: Seq<(Seq<char>, Seq<char>)>,
    body: Seq<JsonMember>,
)
    requires
        room_id_or_alias_valid(room),
        forall|i: int| 0 <= i < servers.len() ==> server_name_valid(#[trigger] servers[i]),
        path == request_path(room),
        query == pairs_for(server_name_key(), servers),
        body_carries(body, reason),
    ensures
        read_request(path, query, body) == Ok::<RequestView, ApiError>((room, reason, servers)),
{
    let n = path_prefix().len();
    assert(path.subrange(0, n as int) == path_prefix());
    assert(path.subrange(n as int, path.len() as int) == encoded(room));
    lemma_encoded_has_no_slash(room);
    lemma_decode_encoded(room);
    lemma_values_of_pairs_for(server_name_key(), servers);
}

/// Writing a request that was read gives the wire back, where the wire is written
/// the way this library writes it: a path segment with canonical escapes, and only
/// `server_name` query pairs. The body then carries the same reason.
pub proof fn lemma_wire_round_trip(
    path: Seq<char>,
    query: Seq<(Seq<char>, Seq<char>)>,
    body: Seq<JsonMember>,
    room: Seq<char>,
    reason: Option<Seq<char>>,
    servers: Seq<Seq<char>>,
)
    requires
        read_request(path, query, body) == Ok::<RequestView, ApiError>((room, reason, servers)),
        path.len() >= path_prefix().len(),
        encoded(room) == path.subrange(path_prefix().len() as int, path.len() as int),
        forall|i: int| 0 <= i < query.len() ==> (#[trigger] query[i]).0 == server_name_key(),
    ensures
        request_path(room) == path,
        pairs_for(server_name_key(), servers) == query,
        match reason {
            None => member(body, "reason"@) is None,
            Some(r) => member(body, "reason"@) matches Some(JsonValue::String(s)) && s@ == r,
        },
{
    let n = path_prefix().len();
    assert(path.subrange(0, n as int) == path_prefix());
    assert(path == path.subrange(0, n as int) + path.subrange(n as int, path.len() as int));
    lemma_pairs_for_values_of(query, server_name_key());
}

/// The response to a knock.
#[derive(Debug, PartialEq, Eq)]
#[non_exhaustive]
pub struct Response {
    /// The room knocked on.
    pub room_id: RoomId,
}

/// What a response with `status` and `body` is read as: the room id, or why not.
pub open spec fn read_response(status: u16, body: Seq<JsonMember>) -> Result<Seq<char>, ApiError> {
    if status != STATUS_OK {
        Err(ApiError::MalformedWire)
    } else {
        match member(body, "room_id"@) {
        None => Err(ApiError::MissingRequiredField),
        Some(JsonValue::String(s)) => if room_id_valid(s@) {
            Ok(s@)
        } else {
            Err(ApiError::MalformedWire)
        },
        Some(_) => Err(ApiError::MalformedWire),
        }
    }
}

/// The status of a successful knock.
pub const STATUS_OK: u16 = 200;

impl Response {
    /// A response naming `room_id`.
    pub fn new(room_id: RoomId) -> (r: Response)
        ensures
            r.room_id == room_id,
    {
        Response { room_id }
    }

    /// Writes the response: status `STATUS_OK` and a body whose only member is
    /// the room id.
    pub fn try_into_wire(&self) -> (r: WireResponse)
        ensures
            r.status == STATUS_OK,
            read_response(r.status, r.body@) == Ok::<Seq<char>, ApiError>(self.room_id@),
            member_names(r.body@) == seq!["room_id"@],
    {
        let mut body: Vec<JsonMember> = Vec::new();
        proof {
            assert forall|k: Seq<char>| #[trigger] member(body@, k) is None by {
                lemma_no_members(k);
            }
        }
        assert(member_names(body@) =~= Seq::<Seq<char>>::empty());
        push_member(&mut body, "room_id", JsonValue::String(key(self.room_id.as_str())));
        assert(member_names(body@) =~= seq!["room_id"@]);
        WireResponse { status: STATUS_OK, body }
    }

    /// Reads a response: the status must be `STATUS_OK`, and the room id is
    /// required and must be valid.
    pub fn try_from_wire(w: &WireResponse) -> (r: Result<Response, ApiError>)
        ensures
            r matches Ok(x) ==> read_response(w.status, w.body@) == Ok::<Seq<char>, ApiError>(
                x.room_id@,
            ),
            r matches Err(e) ==> read_response(w.status, w.body@) == Err::<Seq<char>, ApiError>(e),
    {
        if w.status != STATUS_OK {
            return Err(ApiError::MalformedWire);
        }
        match get_member(&w.body, "room_id") {
            None => Err(ApiError::MissingRequiredField),
            Some(JsonValue::String(s)) => match RoomId::parse(s.as_str()) {
                Ok(room_id) => Ok(Response { room_id }),
                Err(_) => Err(ApiError::MalformedWire),
            },
            Some(_) => Err(ApiError::MalformedWire),
        }
    }
}

} // verus!
