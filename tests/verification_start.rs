use ruma_core::events::verification_start::{
    HashAlgorithm, KeyAgreementProtocol, MSasV1Content, MSasV1ContentInit,
    MessageAuthenticationCode, SasField, ShortAuthenticationString,
};

#[test]
fn invalid_m_sas_v1_content_missing_required_key_agreement_protocols() {
    let error = MSasV1Content::new(MSasV1ContentInit {
        hashes: vec![HashAlgorithm::Sha256],
        key_agreement_protocols: vec![],
        message_authentication_codes: vec![MessageAuthenticationCode::HkdfHmacSha256],
        short_authentication_string: vec![ShortAuthenticationString::Decimal],
    })
    .err()
    .unwrap();

    assert!(error.to_string().contains("key_agreement_protocols"));
}

#[test]
fn invalid_m_sas_v1_content_missing_required_hashes() {
    let error = MSasV1Content::new(MSasV1ContentInit {
        hashes: vec![],
        key_agreement_protocols: vec![KeyAgreementProtocol::Curve25519],
        message_authentication_codes: vec![MessageAuthenticationCode::HkdfHmacSha256],
        short_authentication_string: vec![ShortAuthenticationString::Decimal],
    })
    .err()
    .unwrap();

    assert!(error.to_string().contains("hashes"));
}

#[test]
fn invalid_m_sas_v1_content_missing_required_message_authentication_codes() {
    let error = MSasV1Content::new(MSasV1ContentInit {
        hashes: vec![HashAlgorithm::Sha256],
        key_agreement_protocols: vec![KeyAgreementProtocol::Curve25519],
        message_authentication_codes: vec![],
        short_authentication_string: vec![ShortAuthenticationString::Decimal],
    })
    .err()
    .unwrap();

    assert!(error.to_string().contains("message_authentication_codes"));
}

#[test]
fn invalid_m_sas_v1_content_missing_required_short_authentication_string() {
    let error = MSasV1Content::new(MSasV1ContentInit {
        hashes: vec![HashAlgorithm::Sha256],
        key_agreement_protocols: vec![KeyAgreementProtocol::Curve25519],
        message_authentication_codes: vec![MessageAuthenticationCode::HkdfHmacSha256],
        short_authentication_string: vec![],
    })
    .err()
    .unwrap();

    assert!(error.to_string().contains("short_authentication_string"));
}

#[test]
fn m_sas_v1_content_with_all_minimums() {
    let content = MSasV1Content::new(MSasV1ContentInit {
        hashes: vec![HashAlgorithm::Sha256],
        key_agreement_protocols: vec![KeyAgreementProtocol::Curve25519HkdfSha256],
        message_authentication_codes: vec![
            MessageAuthenticationCode::HmacSha256,
            MessageAuthenticationCode::HkdfHmacSha256,
        ],
        short_authentication_string: vec![
            ShortAuthenticationString::Emoji,
            ShortAuthenticationString::Decimal,
        ],
    })
    .unwrap();
    assert_eq!(content.key_agreement_protocols, vec![KeyAgreementProtocol::Curve25519HkdfSha256]);
    assert_eq!(content.short_authentication_string.len(), 2);
}

#[test]
fn m_sas_v1_content_reports_the_first_missing_field() {
    let error = MSasV1Content::new(MSasV1ContentInit {
        hashes: vec![HashAlgorithm::Custom("sha1".to_owned())],
        key_agreement_protocols: vec![KeyAgreementProtocol::Custom("x448".to_owned())],
        message_authentication_codes: vec![],
        short_authentication_string: vec![],
    })
    .err()
    .unwrap();
    assert_eq!(error.field, SasField::KeyAgreementProtocols);
    assert_eq!(
        error.to_string(),
        "key_agreement_protocols does not contain the value it must contain"
    );
}

use ruma_core::events::content::{AnyEventContent, EventError};
use ruma_core::events::verification_start::{CustomContent, StartEventContent, StartMethod};
use ruma_core::identifiers::DeviceId;
use ruma_core::json::{JsonMember, JsonValue};

fn m(name: &str, value: JsonValue) -> JsonMember {
    JsonMember { name: name.to_owned(), value }
}

fn s(text: &str) -> JsonValue {
    JsonValue::String(text.to_owned())
}

fn list(text: &str) -> JsonValue {
    JsonValue::Array(vec![s(text)])
}

fn sorted(mut members: Vec<JsonMember>) -> Vec<JsonMember> {
    members.sort_by(|a, b| a.name.cmp(&b.name));
    members
}

fn sas_v1_members() -> Vec<JsonMember> {
    vec![
        m("from_device", s("123")),
        m("transaction_id", s("456")),
        m("method", s("m.sas.v1")),
        m("key_agreement_protocols", list("curve25519")),
        m("hashes", list("sha256")),
        m("message_authentication_codes", list("hkdf-hmac-sha256")),
        m("short_authentication_string", list("decimal")),
    ]
}

fn custom_members() -> Vec<JsonMember> {
    vec![
        m("from_device", s("123")),
        m("transaction_id", s("456")),
        m("method", s("m.sas.custom")),
        m("test", s("field")),
    ]
}

#[test]
fn serialization() {
    let key_verification_start_content = StartEventContent {
        from_device: DeviceId::parse("123").unwrap(),
        transaction_id: "456".into(),
        method: StartMethod::MSasV1(
            MSasV1Content::new(MSasV1ContentInit {
                hashes: vec![HashAlgorithm::Sha256],
                key_agreement_protocols: vec![KeyAgreementProtocol::Curve25519],
                message_authentication_codes: vec![MessageAuthenticationCode::HkdfHmacSha256],
                short_authentication_string: vec![ShortAuthenticationString::Decimal],
            })
            .unwrap(),
        ),
    };

    let key_verification_start = AnyEventContent::KeyVerificationStart(key_verification_start_content);
    assert_eq!(key_verification_start.event_type(), "m.key.verification.start");
    assert_eq!(sorted(key_verification_start.into_json()), sorted(sas_v1_members()));

    let key_verification_start_content = StartEventContent {
        from_device: DeviceId::parse("123").unwrap(),
        transaction_id: "456".into(),
        method: StartMethod::Custom(CustomContent {
            method: "m.sas.custom".to_owned(),
            fields: vec![m("test", s("field"))],
        }),
    };

    let key_verification_start = AnyEventContent::KeyVerificationStart(key_verification_start_content);
    assert_eq!(key_verification_start.event_type(), "m.key.verification.start");
    assert_eq!(sorted(key_verification_start.into_json()), sorted(custom_members()));
}

#[test]
fn deserialization() {
    let content = StartEventContent::from_members(sas_v1_members()).unwrap();
    assert_eq!(content.from_device.as_str(), "123");
    assert_eq!(content.transaction_id, "456");
    match content.method {
        StartMethod::MSasV1(x) => {
            assert_eq!(x.hashes, vec![HashAlgorithm::Sha256]);
            assert_eq!(x.key_agreement_protocols, vec![KeyAgreementProtocol::Curve25519]);
            assert_eq!(x.message_authentication_codes, vec![MessageAuthenticationCode::HkdfHmacSha256]);
            assert_eq!(x.short_authentication_string, vec![ShortAuthenticationString::Decimal]);
        }
        other => panic!("unexpected {:?}", other),
    }

    match AnyEventContent::from_json("m.key.verification.start", sas_v1_members()) {
        Ok(AnyEventContent::KeyVerificationStart(StartEventContent {
            method: StartMethod::MSasV1(_), ..
        })) => {}
        other => panic!("unexpected {:?}", other),
    }

    match AnyEventContent::from_json("m.key.verification.start", custom_members()) {
        Ok(AnyEventContent::KeyVerificationStart(StartEventContent {
            from_device,
            transaction_id,
            method: StartMethod::Custom(CustomContent { method, fields }),
        })) => {
            assert_eq!(from_device.as_str(), "123");
            assert_eq!(transaction_id, "456");
            assert_eq!(method, "m.sas.custom");
            assert_eq!(fields, vec![m("test", s("field"))]);
        }
        other => panic!("unexpected {:?}", other),
    }
}

#[test]
fn start_content_enforces_minimums_when_read() {
    let mut members = sas_v1_members();
    members[3] = m("key_agreement_protocols", JsonValue::Array(vec![]));
    assert_eq!(
        StartEventContent::from_members(members).err(),
        Some(EventError::MalformedContent)
    );
    let members = vec![m("from_device", s("123")), m("method", s("m.sas.v1"))];
    assert_eq!(
        StartEventContent::from_members(members).err(),
        Some(EventError::MissingRequiredField)
    );
}

#[test]
fn unknown_method_names_are_kept() {
    assert_eq!(KeyAgreementProtocol::from_name("x448"), KeyAgreementProtocol::Custom("x448".to_owned()));
    assert_eq!(KeyAgreementProtocol::from_name("curve25519-hkdf-sha256").name(), "curve25519-hkdf-sha256");
    assert_eq!(ShortAuthenticationString::from_name("emoji"), ShortAuthenticationString::Emoji);
    assert_eq!(MessageAuthenticationCode::from_name("hmac-sha256").name(), "hmac-sha256");
    assert_eq!(HashAlgorithm::from_name("sha512").name(), "sha512");
}
