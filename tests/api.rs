use ruma_core::api::knock_room::{metadata, Request, Response, STATUS_OK};
use ruma_core::api::{query_string, query_values, token_to_send, ApiError, AuthScheme, Method, WireResponse};
use ruma_core::identifiers::{RoomId, RoomIdOrAliasId, ServerName};
use ruma_core::json::{JsonMember, JsonValue};
use ruma_core::percent::{percent_decode, percent_encode};

fn request(servers: &[&str]) -> Request {
    let mut req = Request::new(RoomIdOrAliasId::parse("#room:example.com").unwrap());
    req.server_name = servers.iter().map(|s| ServerName::parse(s).unwrap()).collect();
    req
}

#[test]
fn knock_metadata() {
    let meta = metadata();
    assert_eq!(meta.method, Method::Post);
    assert_eq!(meta.name, "knock_room");
    assert_eq!(meta.path, "/_matrix/client/r0/knock/:room_id_or_alias");
    assert!(meta.rate_limited);
    assert_eq!(meta.authentication, AuthScheme::AccessToken);
}

#[test]
fn empty_server_list_omits_query() {
    let wire = request(&[]).try_into_wire(Some("tok")).unwrap();
    assert!(wire.query.is_empty());
    assert_eq!(query_string(&wire.query), "");
    assert!(wire.body.is_empty());
}

#[test]
fn server_names_repeat_in_query() {
    let wire = request(&["a.com", "b.com"]).try_into_wire(Some("tok")).unwrap();
    assert_eq!(query_string(&wire.query), "server_name=a.com&server_name=b.com");
    assert_eq!(query_values(&wire.query, "server_name"), vec!["a.com", "b.com"]);
    let back = Request::try_from_wire(&wire).unwrap();
    let names: Vec<&str> = back.server_name.iter().map(|n| n.as_str()).collect();
    assert_eq!(names, vec!["a.com", "b.com"]);
}

#[test]
fn knock_request_round_trip() {
    let mut req = request(&["a.com"]);
    req.reason = Some("let me in".to_owned());
    let wire = req.try_into_wire(Some("secret")).unwrap();
    assert_eq!(wire.method, Method::Post);
    assert_eq!(wire.path, "/_matrix/client/r0/knock/%23room%3Aexample.com");
    assert_eq!(wire.access_token.as_deref(), Some("secret"));
    assert_eq!(
        wire.body,
        vec![JsonMember { name: "reason".to_owned(), value: JsonValue::String("let me in".to_owned()) }]
    );
    assert_eq!(Request::try_from_wire(&wire).unwrap(), req);
}

#[test]
fn knock_requires_token() {
    assert_eq!(request(&[]).try_into_wire(None).err(), Some(ApiError::MissingToken));
}

#[test]
fn token_schemes() {
    assert_eq!(token_to_send(AuthScheme::NoToken, Some("t")), Ok(None));
    assert_eq!(token_to_send(AuthScheme::AccessTokenOptional, None), Ok(None));
    assert_eq!(token_to_send(AuthScheme::AccessTokenOptional, Some("t")), Ok(Some("t".to_owned())));
    assert_eq!(token_to_send(AuthScheme::AccessToken, None), Err(ApiError::MissingToken));
}

#[test]
fn knock_path_mismatch() {
    let mut wire = request(&[]).try_into_wire(Some("t")).unwrap();
    wire.path = "/_matrix/client/r0/join/%23room%3Aexample.com".to_owned();
    assert_eq!(Request::try_from_wire(&wire).err(), Some(ApiError::PathMismatch));
    wire.path = "/_matrix/client/r0/knock/a/b".to_owned();
    assert_eq!(Request::try_from_wire(&wire).err(), Some(ApiError::PathMismatch));
    wire.path = "/_matrix/client/r0/knock/%2".to_owned();
    assert_eq!(Request::try_from_wire(&wire).err(), Some(ApiError::PathMismatch));
    wire.path = "/_matrix/client/r0/knock/room".to_owned();
    assert_eq!(Request::try_from_wire(&wire).err(), Some(ApiError::MalformedWire));
}

#[test]
fn knock_response_round_trip() {
    let resp = Response::new(RoomId::parse("!roomid:room.com").unwrap());
    let wire = resp.try_into_wire();
    assert_eq!(wire.status, STATUS_OK);
    assert_eq!(Response::try_from_wire(&wire).unwrap(), resp);
    let empty = WireResponse { status: 200, body: vec![] };
    assert_eq!(Response::try_from_wire(&empty).err(), Some(ApiError::MissingRequiredField));
    let mut failed = Response::new(RoomId::parse("!roomid:room.com").unwrap()).try_into_wire();
    failed.status = 403;
    assert_eq!(Response::try_from_wire(&failed).err(), Some(ApiError::MalformedWire));
    assert_eq!(
        Response::new(RoomId::parse("!roomid:room.com").unwrap()).try_into_wire().body,
        vec![JsonMember { name: "room_id".to_owned(), value: JsonValue::String("!roomid:room.com".to_owned()) }]
    );
}

#[test]
fn percent_encoding_of_non_ascii() {
    assert_eq!(percent_encode("#caf\u{e9}:example.com"), "%23caf%C3%A9%3Aexample.com");
    assert_eq!(percent_decode("caf%C3%A9").as_deref(), Some("caf\u{e9}"));
    assert_eq!(percent_decode("caf\u{e9}").as_deref(), Some("caf\u{e9}"));
    assert_eq!(percent_decode("%C3"), None);
    let mut req = Request::new(RoomIdOrAliasId::parse("#caf\u{e9}:example.com").unwrap());
    req.reason = None;
    let wire = req.try_into_wire(Some("t")).unwrap();
    assert_eq!(wire.path, "/_matrix/client/r0/knock/%23caf%C3%A9%3Aexample.com");
    assert_eq!(Request::try_from_wire(&wire).unwrap(), req);
}

#[test]
fn percent_encoding() {
    assert_eq!(percent_encode("a b/c%"), "a%20b%2Fc%25");
    assert_eq!(percent_decode("a%20b%2fc%25").as_deref(), Some("a b/c%"));
    assert_eq!(percent_decode("%zz"), None);
}
