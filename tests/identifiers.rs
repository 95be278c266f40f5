use ruma_core::identifiers::{
    DeviceId, EventId, IdentifierError, MxcUri, MxcUriError, RoomId, RoomIdOrAliasId, ServerName,
};

#[test]
fn generate_device_id() {
    assert_eq!(DeviceId::new().as_str().len(), 8);
}

#[test]
fn generated_device_ids_are_alphanumeric() {
    let id = DeviceId::new();
    assert!(id.as_str().chars().all(|c| c.is_ascii_alphanumeric()));
}

#[test]
fn device_id_rejects_empty() {
    assert_eq!(DeviceId::parse(""), Err(IdentifierError::Empty));
    assert_eq!(DeviceId::parse("ABCDEFGH").unwrap().as_str(), "ABCDEFGH");
}

#[test]
fn parse_mxc_uri() {
    let mxc = MxcUri::from("mxc://127.0.0.1/asd32asdfasdsd");

    assert!(mxc.is_valid());
    assert_eq!(
        mxc.parts(),
        Ok((
            ServerName::parse("127.0.0.1").expect("Failed to create ServerName"),
            "asd32asdfasdsd".to_owned()
        ))
    );
}

#[test]
fn parse_mxc_uri_without_media_id() {
    let mxc = MxcUri::from("mxc://127.0.0.1");

    assert!(!mxc.is_valid());
    assert_eq!(mxc.parts(), Err(MxcUriError::MissingSlash));
}

#[test]
fn parse_mxc_uri_without_protocol() {
    assert!(!MxcUri::from("127.0.0.1/asd32asdfasdsd").is_valid());
}

#[test]
fn mxc_uri_parts_one_by_one() {
    let mxc = MxcUri::from("mxc://server/1234id");
    assert_eq!(mxc.as_str(), "mxc://server/1234id");
    assert_eq!(mxc.media_id(), Ok("1234id".to_owned()));
    assert_eq!(mxc.server_name().unwrap().as_str(), "server");
    assert_eq!(mxc.validate(), Ok(()));
}

#[test]
fn mxc_uri_errors() {
    assert_eq!(MxcUri::from("127.0.0.1/asd").validate(), Err(MxcUriError::WrongSchema));
    assert_eq!(MxcUri::from("mxc://127.0.0.1/a.b").validate(), Err(MxcUriError::MediaIdMalformed));
    assert_eq!(MxcUri::from("mxc://exa mple/abc").validate(), Err(MxcUriError::ServerNameMalformed));
    let long_media = format!("mxc://server/{}", "a".repeat(300));
    assert_eq!(MxcUri::from(&long_media).validate(), Ok(()));
    assert_eq!(MxcUri::from(&long_media).media_id().unwrap().len(), 300);
    let long_server = format!("mxc://{}.com/abc", "a".repeat(250));
    assert_eq!(MxcUri::from(&long_server).validate(), Err(MxcUriError::TooLong));
}

#[test]
fn identifiers_render_their_input() {
    for s in ["example.com", "127.0.0.1:8448", "[::1]:80"] {
        assert_eq!(ServerName::parse(s).unwrap().as_str(), s);
    }
    assert_eq!(RoomId::parse("!roomid:room.com").unwrap().as_str(), "!roomid:room.com");
    assert_eq!(RoomIdOrAliasId::parse("#alias:example.com").unwrap().as_str(), "#alias:example.com");
    assert_eq!(EventId::parse("$h29iv0s8:example.com").unwrap().as_str(), "$h29iv0s8:example.com");
}

#[test]
fn identifiers_reject_bad_input() {
    assert_eq!(ServerName::parse(""), Err(IdentifierError::Invalid));
    assert_eq!(RoomId::parse("roomid:room.com"), Err(IdentifierError::Invalid));
    assert_eq!(RoomIdOrAliasId::parse("@user:example.com"), Err(IdentifierError::Invalid));
    assert_eq!(EventId::parse("h29iv0s8"), Err(IdentifierError::Invalid));
}

#[test]
fn device_id_from_chars() {
    assert_eq!(DeviceId::from_chars(&vec!['A', 'B', '1']).unwrap().as_str(), "AB1");
    assert_eq!(DeviceId::from_chars(&vec![]), Err(IdentifierError::Empty));
}

#[test]
fn room_id_rules() {
    assert!(RoomId::parse("!opaque").is_ok());
    assert_eq!(RoomId::parse("!a\u{0}b"), Err(IdentifierError::Invalid));
    let long = format!("!{}", "a".repeat(255));
    assert_eq!(RoomId::parse(&long), Err(IdentifierError::Invalid));
}
