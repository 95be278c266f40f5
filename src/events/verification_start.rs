//! The payload of a key-verification start event.
use crate::events::content::{
    all_strings, key, lemma_no_members, push_member, read_strings, string_array,
    strings_match, strings_of, strings_view, EventError,
};
use crate::identifiers::{push_char, DeviceId};
use crate::json::{get_member, member, member_names, str_eq, JsonMember, JsonValue};
use vstd::prelude::*;

verus! {

/// A key agreement protocol for SAS verification.
#[derive(Clone, Debug, PartialEq, Eq)]
pub enum KeyAgreementProtocol {
    /// `curve25519`
    Curve25519,
    /// `curve25519-hkdf-sha256`
    Curve25519HkdfSha256,
    /// A protocol this library does not know, kept by its name.
    Custom(String),
}

/// A hash algorithm for SAS verification.
#[derive(Clone, Debug, PartialEq, Eq)]
pub enum HashAlgorithm {
    /// `sha256`
    Sha256,
    /// An algorithm this library does not know, kept by its name.
    Custom(String),
}

/// A message authentication code algorithm for SAS verification.
#[derive(Clone, Debug, PartialEq, Eq)]
pub enum MessageAuthenticationCode {
    /// `hkdf-hmac-sha256`
    HkdfHmacSha256,
    /// `hmac-sha256`
    HmacSha256,
    /// A code this library does not know, kept by its name.
    Custom(String),
}

/// A short authentication string method.
#[derive(Clone, Debug, PartialEq, Eq)]
pub enum ShortAuthenticationString {
    /// `decimal`
    Decimal,
    /// `emoji`
    Emoji,
    /// A method this library does not know, kept by its name.
    Custom(String),
}

/// The field of an `m.sas.v1` start payload that misses its required value.
#[derive(Clone, Copy, Debug, PartialEq, Eq)]
pub enum SasField {
    KeyAgreementProtocols,
    Hashes,
    MessageAuthenticationCodes,
    ShortAuthenticationString,
}

pub open spec fn sas_field_name(f: SasField) -> Seq<char> {
    match f {
        SasField::KeyAgreementProtocols => "key_agreement_protocols"@,
        SasField::Hashes => "hashes"@,
        SasField::MessageAuthenticationCodes => "message_authentication_codes"@,
        SasField::ShortAuthenticationString => "short_authentication_string"@,
    }
}

/// Construction of a payload failed because of a cross-field requirement.
#[derive(Clone, Debug, PartialEq, Eq)]
pub struct InvalidInput {
    /// The offending field.
    pub field: SasField,
}

impl InvalidInput {
    /// A message naming the offending field, followed by `MISSING_VALUE_NOTE`.
    pub fn to_string(&self) -> (r: String)
        ensures
            r@ == sas_field_name(self.field) + MISSING_VALUE_NOTE@,
    {
        let mut s = match self.field {
            SasField::KeyAgreementProtocols => String::from_str("key_agreement_protocols"),
            SasField::Hashes => String::from_str("hashes"),
            SasField::MessageAuthenticationCodes => String::from_str(
                "message_authentication_codes",
            ),
            SasField::ShortAuthenticationString => String::from_str(
                "short_authentication_string",
            ),
        };
        s.append(MISSING_VALUE_NOTE);
        s
    }
}

/// The text that follows a field's name in an `InvalidInput` message.
pub const MISSING_VALUE_NOTE: &'static str = " does not contain the value it must contain";

pub open spec fn has_required_key_agreement(s: Seq<KeyAgreementProtocol>) -> bool {
    exists|i: int|
        0 <= i < s.len() && (#[trigger] s[i] is Curve25519 || s[i] is Curve25519HkdfSha256)
}

pub open spec fn has_required_hash(s: Seq<HashAlgorithm>) -> bool {
    exists|i: int| 0 <= i < s.len() && #[trigger] s[i] is Sha256
}

pub open spec fn has_required_mac(s: Seq<MessageAuthenticationCode>) -> bool {
    exists|i: int| 0 <= i < s.len() && #[trigger] s[i] is HkdfHmacSha256
}

pub open spec fn has_required_sas(s: Seq<ShortAuthenticationString>) -> bool {
    exists|i: int| 0 <= i < s.len() && #[trigger] s[i] is Decimal
}

/// Mandatory initial set of fields for creating an `MSasV1Content`.
#[derive(Clone, Debug)]
pub struct MSasV1ContentInit {
    /// Must include `curve25519` or `curve25519-hkdf-sha256`.
    pub key_agreement_protocols: Vec<KeyAgreementProtocol>,
    /// Must include `sha256`.
    pub hashes: Vec<HashAlgorithm>,
    /// Must include `hkdf-hmac-sha256`.
    pub message_authentication_codes: Vec<MessageAuthenticationCode>,
    /// Must include `decimal`.
    pub short_authentication_string: Vec<ShortAuthenticationString>,
}

impl MSasV1ContentInit {
    /// The first field, in declaration order, that lacks its required value.
    pub open spec fn first_missing(&self) -> Option<SasField> {
        if !has_required_key_agreement(self.key_agreement_protocols@) {
            Some(SasField::KeyAgreementProtocols)
        } else if !has_required_hash(self.hashes@) {
            Some(SasField::Hashes)
        } else if !has_required_mac(self.message_authentication_codes@) {
            Some(SasField::MessageAuthenticationCodes)
        } else if !has_required_sas(self.short_authentication_string@) {
            Some(SasField::ShortAuthenticationString)
        } else {
            None
        }
    }
}

/// The payload of a key-verification start event using the `m.sas.v1` method.
#[derive(Clone, Debug, PartialEq, Eq)]
#[non_exhaustive]
pub struct MSasV1Content {
    /// The key agreement protocols the sending device understands.
    pub key_agreement_protocols: Vec<KeyAgreementProtocol>,
    /// The hash methods the sending device understands.
    pub hashes: Vec<HashAlgorithm>,
    /// The message authentication codes the sending device understands.
    pub message_authentication_codes: Vec<MessageAuthenticationCode>,
    /// The SAS methods the sending device (and its user) understands.
    pub short_authentication_string: Vec<ShortAuthenticationString>,
}

impl MSasV1Content {
    /// Every list holds its required value.
    pub open spec fn valid(&self) -> bool {
        &&& has_required_key_agreement(self.key_agreement_protocols@)
        &&& has_required_hash(self.hashes@)
        &&& has_required_mac(self.message_authentication_codes@)
        &&& has_required_sas(self.short_authentication_string@)
    }

    /// Creates the payload, or names the first field that lacks its required value.
    pub fn new(init: MSasV1ContentInit) -> (r: Result<Self, InvalidInput>)
        ensures
            r is Ok <==> init.first_missing() is None,
            r matches Err(e) ==> init.first_missing() == Some(e.field),
            r matches Ok(c) ==> {
                &&& c.valid()
                &&& c.key_agreement_protocols@ == init.key_agreement_protocols@
                &&& c.hashes@ == init.hashes@
                &&& c.message_authentication_codes@ == init.message_authentication_codes@
                &&& c.short_authentication_string@ == init.short_authentication_string@
            },
    {
        Self::try_from_init(init)
    }

    /// Checks the four lists of `init` in order and moves them into the payload.
    pub fn try_from_init(init: MSasV1ContentInit) -> (r: Result<Self, InvalidInput>)
        ensures
            r is Ok <==> init.first_missing() is None,
            r matches Err(e) ==> init.first_missing() == Some(e.field),
            r matches Ok(c) ==> {
                &&& c.valid()
                &&& c.key_agreement_protocols@ == init.key_agreement_protocols@
                &&& c.hashes@ == init.hashes@
                &&& c.message_authentication_codes@ == init.message_authentication_codes@
                &&& c.short_authentication_string@ == init.short_authentication_string@
            },
    {
        if !contains_key_agreement(&init.key_agreement_protocols) {
            return Err(InvalidInput { field: SasField::KeyAgreementProtocols });
        }
        if !contains_sha256(&init.hashes) {
            return Err(InvalidInput { field: SasField::Hashes });
        }
        if !contains_hkdf_hmac_sha256(&init.message_authentication_codes) {
            return Err(InvalidInput { field: SasField::MessageAuthenticationCodes });
        }
        if !contains_decimal(&init.short_authentication_string) {
            return Err(InvalidInput { field: SasField::ShortAuthenticationString });
        }
        Ok(MSasV1Content {
            key_agreement_protocols: init.key_agreement_protocols,
            hashes: init.hashes,
            message_authentication_codes: init.message_authentication_codes,
            short_authentication_string: init.short_authentication_string,
        })
    }
}

fn contains_key_agreement(v: &Vec<KeyAgreementProtocol>) -> (r: bool)
    ensures
        r == has_required_key_agreement(v@),
{
    let mut i: usize = 0;
    while i < v.len()
        invariant
            i <= v@.len(),
            forall|j: int|
                0 <= j < i ==> !(#[trigger] v@[j] is Curve25519 || v@[j] is Curve25519HkdfSha256),
        decreases v@.len() - i,
    {
        match &v[i] {
            KeyAgreementProtocol::Curve25519 | KeyAgreementProtocol::Curve25519HkdfSha256 => {
                return true;
            },
            _ => {},
        }
        i = i + 1;
    }
    false
}

fn contains_sha256(v: &Vec<HashAlgorithm>) -> (r: bool)
    ensures
        r == has_required_hash(v@),
{
    let mut i: usize = 0;
    while i < v.len()
        invariant
            i <= v@.len(),
            forall|j: int| 0 <= j < i ==> !(#[trigger] v@[j] is Sha256),
        decreases v@.len() - i,
    {
        if let HashAlgorithm::Sha256 = &v[i] {
            return true;
        }
        i = i + 1;
    }
    false
}

fn contains_hkdf_hmac_sha256(v: &Vec<MessageAuthenticationCode>) -> (r: bool)
    ensures
        r == has_required_mac(v@),
{
    let mut i: usize = 0;
    while i < v.len()
        invariant
            i <= v@.len(),
            forall|j: int| 0 <= j < i ==> !(#[trigger] v@[j] is HkdfHmacSha256),
        decreases v@.len() - i,
    {
        if let MessageAuthenticationCode::HkdfHmacSha256 = &v[i] {
            return true;
        }
        i = i + 1;
    }
    false
}

fn contains_decimal(v: &Vec<ShortAuthenticationString>) -> (r: bool)
    ensures
        r == has_required_sas(v@),
{
    let mut i: usize = 0;
    while i < v.len()
        invariant
            i <= v@.len(),
            forall|j: int| 0 <= j < i ==> !(#[trigger] v@[j] is Decimal),
        decreases v@.len() - i,
    {
        if let ShortAuthenticationString::Decimal = &v[i] {
            return true;
        }
        i = i + 1;
    }
    false
}

/// The wire name of a key agreement protocol.
pub open spec fn key_agreement_name(p: KeyAgreementProtocol) -> Seq<char> {
    match p {
        KeyAgreementProtocol::Curve25519 => "curve25519"@,
        KeyAgreementProtocol::Curve25519HkdfSha256 => "curve25519-hkdf-sha256"@,
        KeyAgreementProtocol::Custom(s) => s@,
    }
}

/// The wire name of a hash algorithm.
pub open spec fn hash_name(p: HashAlgorithm) -> Seq<char> {
    match p {
        HashAlgorithm::Sha256 => "sha256"@,
        HashAlgorithm::Custom(s) => s@,
    }
}

/// The wire name of a message authentication code.
pub open spec fn mac_name(p: MessageAuthenticationCode) -> Seq<char> {
    match p {
        MessageAuthenticationCode::HkdfHmacSha256 => "hkdf-hmac-sha256"@,
        MessageAuthenticationCode::HmacSha256 => "hmac-sha256"@,
        MessageAuthenticationCode::Custom(s) => s@,
    }
}

/// The wire name of a short authentication string method.
pub open spec fn sas_name(p: ShortAuthenticationString) -> Seq<char> {
    match p {
        ShortAuthenticationString::Decimal => "decimal"@,
        ShortAuthenticationString::Emoji => "emoji"@,
        ShortAuthenticationString::Custom(s) => s@,
    }
}

impl KeyAgreementProtocol {
    /// The value with wire name `s`; a name this library does not know is kept.
    pub fn from_name(s: &str) -> (r: KeyAgreementProtocol)
        ensures
            key_agreement_name(r) == s@,
            (r is Custom) <==> (s@ != "curve25519"@ && s@ != "curve25519-hkdf-sha256"@),
    {
        if str_eq(s, "curve25519") {
            KeyAgreementProtocol::Curve25519
        } else if str_eq(s, "curve25519-hkdf-sha256") {
            KeyAgreementProtocol::Curve25519HkdfSha256
        } else {
            KeyAgreementProtocol::Custom(key(s))
        }
    }

    /// The wire name.
    pub fn name(&self) -> (r: String)
        ensures
            r@ == key_agreement_name(*self),
    {
        match self {
            KeyAgreementProtocol::Curve25519 => key("curve25519"),
            KeyAgreementProtocol::Curve25519HkdfSha256 => key("curve25519-hkdf-sha256"),
            KeyAgreementProtocol::Custom(s) => s.clone(),
        }
    }
}

impl HashAlgorithm {
    /// The value with wire name `s`; a name this library does not know is kept.
    pub fn from_name(s: &str) -> (r: HashAlgorithm)
        ensures
            hash_name(r) == s@,
            (r is Custom) <==> s@ != "sha256"@,
    {
        if str_eq(s, "sha256") {
            HashAlgorithm::Sha256
        } else {
            HashAlgorithm::Custom(key(s))
        }
    }

    /// The wire name.
    pub fn name(&self) -> (r: String)
        ensures
            r@ == hash_name(*self),
    {
        match self {
            HashAlgorithm::Sha256 => key("sha256"),
            HashAlgorithm::Custom(s) => s.clone(),
        }
    }
}

impl MessageAuthenticationCode {
    /// The value with wire name `s`; a name this library does not know is kept.
    pub fn from_name(s: &str) -> (r: MessageAuthenticationCode)
        ensures
            mac_name(r) == s@,
            (r is Custom) <==> (s@ != "hkdf-hmac-sha256"@ && s@ != "hmac-sha256"@),
    {
        if str_eq(s, "hkdf-hmac-sha256") {
            MessageAuthenticationCode::HkdfHmacSha256
        } else if str_eq(s, "hmac-sha256") {
            MessageAuthenticationCode::HmacSha256
        } else {
            MessageAuthenticationCode::Custom(key(s))
        }
    }

    /// The wire name.
    pub fn name(&self) -> (r: String)
        ensures
            r@ == mac_name(*self),
    {
        match self {
            MessageAuthenticationCode::HkdfHmacSha256 => key("hkdf-hmac-sha256"),
            MessageAuthenticationCode::HmacSha256 => key("hmac-sha256"),
            MessageAuthenticationCode::Custom(s) => s.clone(),
        }
    }
}

impl ShortAuthenticationString {
    /// The value with wire name `s`; a name this library does not know is kept.
    pub fn from_name(s: &str) -> (r: ShortAuthenticationString)
        ensures
            sas_name(r) == s@,
            (r is Custom) <==> (s@ != "decimal"@ && s@ != "emoji"@),
    {
        if str_eq(s, "decimal") {
            ShortAuthenticationString::Decimal
        } else if str_eq(s, "emoji") {
            ShortAuthenticationString::Emoji
        } else {
            ShortAuthenticationString::Custom(key(s))
        }
    }

    /// The wire name.
    pub fn name(&self) -> (r: String)
        ensures
            r@ == sas_name(*self),
    {
        match self {
            ShortAuthenticationString::Decimal => key("decimal"),
            ShortAuthenticationString::Emoji => key("emoji"),
            ShortAuthenticationString::Custom(s) => s.clone(),
        }
    }
}

/// What the member `k` of `m` gives as a required string.
pub open spec fn required_string(m: Seq<JsonMember>, k: Seq<char>) -> Result<Seq<char>, EventError> {
    match member(m, k) {
        None => Err(EventError::MissingRequiredField),
        Some(JsonValue::String(s)) => Ok(s@),
        Some(_) => Err(EventError::MalformedContent),
    }
}

/// What the member `k` of `m` gives as a required list of strings.
pub open spec fn required_strings(m: Seq<JsonMember>, k: Seq<char>) -> Result<
    Seq<Seq<char>>,
    EventError,
> {
    match member(m, k) {
        None => Err(EventError::MissingRequiredField),
        Some(JsonValue::Array(a)) => if all_strings(a@) {
            Ok(strings_of(a@))
        } else {
            Err(EventError::MalformedContent)
        },
        Some(_) => Err(EventError::MalformedContent),
    }
}

fn read_required_string(m: &Vec<JsonMember>, k: &str) -> (r: Result<String, EventError>)
    ensures
        r matches Ok(s) ==> required_string(m@, k@) == Ok::<Seq<char>, EventError>(s@),
        r matches Err(e) ==> required_string(m@, k@) == Err::<Seq<char>, EventError>(e),
{
    match get_member(m, k) {
        None => Err(EventError::MissingRequiredField),
        Some(JsonValue::String(s)) => Ok(s.clone()),
        Some(_) => Err(EventError::MalformedContent),
    }
}

fn read_required_strings(m: &Vec<JsonMember>, k: &str) -> (r: Result<Vec<String>, EventError>)
    ensures
        r matches Ok(v) ==> required_strings(m@, k@) == Ok::<Seq<Seq<char>>, EventError>(
            strings_view(v@),
        ),
        r matches Err(e) ==> required_strings(m@, k@) == Err::<Seq<Seq<char>>, EventError>(e),
{
    match get_member(m, k) {
        None => Err(EventError::MissingRequiredField),
        Some(JsonValue::Array(a)) => read_strings(a),
        Some(_) => Err(EventError::MalformedContent),
    }
}

/// Whether `names` holds `name`.
pub open spec fn has_name(names: Seq<Seq<char>>, name: Seq<char>) -> bool {
    exists|i: int| 0 <= i < names.len() && #[trigger] names[i] == name
}

/// The method name of the `m.sas.v1` start payload.
pub open spec fn sas_v1_method() -> Seq<char> {
    "m.sas.v1"@
}

/// Whether a member named `k` belongs to the common part of start content.
pub open spec fn is_start_key(k: Seq<char>) -> bool {
    k == "from_device"@ || k == "transaction_id"@ || k == "method"@
}

/// The members of `m` that are not part of the common start content, in order.
pub open spec fn custom_fields(m: Seq<JsonMember>) -> Seq<JsonMember>
    decreases m.len(),
{
    if m.len() == 0 {
        Seq::empty()
    } else if is_start_key(m.last().name@) {
        custom_fields(m.drop_last())
    } else {
        custom_fields(m.drop_last()).push(m.last())
    }
}

/// The four lists of an `m.sas.v1` payload, by wire name.
pub open spec fn sas_lists(x: MSasV1Content) -> (
    Seq<Seq<char>>,
    Seq<Seq<char>>,
    Seq<Seq<char>>,
    Seq<Seq<char>>,
) {
    (
        x.key_agreement_protocols@.map_values(|p: KeyAgreementProtocol| key_agreement_name(p)),
        x.hashes@.map_values(|p: HashAlgorithm| hash_name(p)),
        x.message_authentication_codes@.map_values(|p: MessageAuthenticationCode| mac_name(p)),
        x.short_authentication_string@.map_values(|p: ShortAuthenticationString| sas_name(p)),
    )
}

/// Whether the four name lists meet the `m.sas.v1` minimums.
pub open spec fn sas_names_valid(
    k: Seq<Seq<char>>,
    h: Seq<Seq<char>>,
    mac: Seq<Seq<char>>,
    sas: Seq<Seq<char>>,
) -> bool {
    &&& (has_name(k, "curve25519"@) || has_name(k, "curve25519-hkdf-sha256"@))
    &&& has_name(h, "sha256"@)
    &&& has_name(mac, "hkdf-hmac-sha256"@)
    &&& has_name(sas, "decimal"@)
}

/// Why the `m.sas.v1` part of start content `m` cannot be read, if it can't.
pub open spec fn sas_read_error(m: Seq<JsonMember>) -> Option<EventError> {
    match (
        required_strings(m, "key_agreement_protocols"@),
        required_strings(m, "hashes"@),
        required_strings(m, "message_authentication_codes"@),
        required_strings(m, "short_authentication_string"@),
    ) {
        (Err(e), _, _, _) => Some(e),
        (Ok(_), Err(e), _, _) => Some(e),
        (Ok(_), Ok(_), Err(e), _) => Some(e),
        (Ok(_), Ok(_), Ok(_), Err(e)) => Some(e),
        (Ok(k), Ok(h), Ok(mac), Ok(sas)) => if sas_names_valid(k, h, mac, sas) {
            None
        } else {
            Some(EventError::MalformedContent)
        },
    }
}

/// Why start content `m` cannot be read, if it can't.
pub open spec fn start_read_error(m: Seq<JsonMember>) -> Option<EventError> {
    match required_string(m, "from_device"@) {
        Err(e) => Some(e),
        Ok(d) => if d.len() == 0 {
            Some(EventError::MalformedContent)
        } else {
            match required_string(m, "transaction_id"@) {
                Err(e) => Some(e),
                Ok(_) => match required_string(m, "method"@) {
                    Err(e) => Some(e),
                    Ok(mt) => if mt == sas_v1_method() {
                        sas_read_error(m)
                    } else {
                        None
                    },
                },
            }
        },
    }
}

/// `c` is what start content `m` says.
pub open spec fn start_read_as(m: Seq<JsonMember>, c: StartEventContent) -> bool {
    &&& required_string(m, "from_device"@) == Ok::<Seq<char>, EventError>(c.from_device@)
    &&& required_string(m, "transaction_id"@) == Ok::<Seq<char>, EventError>(c.transaction_id@)
    &&& match c.method {
        StartMethod::MSasV1(x) => {
            &&& required_string(m, "method"@) == Ok::<Seq<char>, EventError>(sas_v1_method())
            &&& required_strings(m, "key_agreement_protocols"@) == Ok::<
                Seq<Seq<char>>,
                EventError,
            >(sas_lists(x).0)
            &&& required_strings(m, "hashes"@) == Ok::<Seq<Seq<char>>, EventError>(sas_lists(x).1)
            &&& required_strings(m, "message_authentication_codes"@) == Ok::<
                Seq<Seq<char>>,
                EventError,
            >(sas_lists(x).2)
            &&& required_strings(m, "short_authentication_string"@) == Ok::<
                Seq<Seq<char>>,
                EventError,
            >(sas_lists(x).3)
        },
        StartMethod::Custom(x) => {
            &&& required_string(m, "method"@) == Ok::<Seq<char>, EventError>(x.method@)
            &&& x.method@ != sas_v1_method()
            &&& x.fields@ == custom_fields(m)
        },
    }
}

/// The names of the members common to all start content, in the order written.
pub open spec fn start_common_names() -> Seq<Seq<char>> {
    seq!["from_device"@, "transaction_id"@, "method"@]
}

/// The names of the `m.sas.v1` lists, in the order written.
pub open spec fn sas_v1_names() -> Seq<Seq<char>> {
    seq![
        "key_agreement_protocols"@,
        "hashes"@,
        "message_authentication_codes"@,
        "short_authentication_string"@,
    ]
}

/// Method-specific content of a start method this library does not know.
#[derive(Debug, PartialEq, Eq)]
pub struct CustomContent {
    /// The name of the method.
    pub method: String,
    /// The other members the method's content holds, as received.
    pub fields: Vec<JsonMember>,
}

/// Method-specific start content.
#[derive(Debug, PartialEq, Eq)]
#[non_exhaustive]
pub enum StartMethod {
    /// The `m.sas.v1` method.
    MSasV1(MSasV1Content),
    /// Any other method.
    Custom(CustomContent),
}

/// The payload of an `m.key.verification.start` event.
#[derive(Debug, PartialEq, Eq)]
pub struct StartEventContent {
    /// The device that starts the process.
    pub from_device: DeviceId,
    /// An opaque identifier for the verification process.
    pub transaction_id: String,
    /// Method-specific content.
    pub method: StartMethod,
}

fn key_agreements_from(v: &Vec<String>) -> (r: Vec<KeyAgreementProtocol>)
    ensures
        r@.map_values(|p: KeyAgreementProtocol| key_agreement_name(p)) == strings_view(v@),
        forall|i: int|
            0 <= i < r@.len() ==> (#[trigger] r@[i] is Custom) == (v@[i]@ != "curve25519"@
                && v@[i]@ != "curve25519-hkdf-sha256"@),
{
    let mut out: Vec<KeyAgreementProtocol> = Vec::new();
    let mut i: usize = 0;
    while i < v.len()
        invariant
            i <= v@.len(),
            out@.len() == i,
            forall|j: int| 0 <= j < i ==> key_agreement_name(#[trigger] out@[j]) == v@[j]@,
            forall|j: int|
                0 <= j < i ==> (#[trigger] out@[j] is Custom) == (v@[j]@ != "curve25519"@
                    && v@[j]@ != "curve25519-hkdf-sha256"@),
        decreases v@.len() - i,
    {
        out.push(KeyAgreementProtocol::from_name(v[i].as_str()));
        i = i + 1;
    }
    assert(out@.map_values(|p: KeyAgreementProtocol| key_agreement_name(p)) =~= strings_view(v@));
    out
}

fn hashes_from(v: &Vec<String>) -> (r: Vec<HashAlgorithm>)
    ensures
        r@.map_values(|p: HashAlgorithm| hash_name(p)) == strings_view(v@),
        forall|i: int| 0 <= i < r@.len() ==> (#[trigger] r@[i] is Custom) == (v@[i]@ != "sha256"@),
{
    let mut out: Vec<HashAlgorithm> = Vec::new();
    let mut i: usize = 0;
    while i < v.len()
        invariant
            i <= v@.len(),
            out@.len() == i,
            forall|j: int| 0 <= j < i ==> hash_name(#[trigger] out@[j]) == v@[j]@,
            forall|j: int|
                0 <= j < i ==> (#[trigger] out@[j] is Custom) == (v@[j]@ != "sha256"@),
        decreases v@.len() - i,
    {
        out.push(HashAlgorithm::from_name(v[i].as_str()));
        i = i + 1;
    }
    assert(out@.map_values(|p: HashAlgorithm| hash_name(p)) =~= strings_view(v@));
    out
}

fn macs_from(v: &Vec<String>) -> (r: Vec<MessageAuthenticationCode>)
    ensures
        r@.map_values(|p: MessageAuthenticationCode| mac_name(p)) == strings_view(v@),
        forall|i: int|
            0 <= i < r@.len() ==> (#[trigger] r@[i] is Custom) == (v@[i]@ != "hkdf-hmac-sha256"@
                && v@[i]@ != "hmac-sha256"@),
{
    let mut out: Vec<MessageAuthenticationCode> = Vec::new();
    let mut i: usize = 0;
    while i < v.len()
        invariant
            i <= v@.len(),
            out@.len() == i,
            forall|j: int| 0 <= j < i ==> mac_name(#[trigger] out@[j]) == v@[j]@,
            forall|j: int|
                0 <= j < i ==> (#[trigger] out@[j] is Custom) == (v@[j]@ != "hkdf-hmac-sha256"@
                    && v@[j]@ != "hmac-sha256"@),
        decreases v@.len() - i,
    {
        out.push(MessageAuthenticationCode::from_name(v[i].as_str()));
        i = i + 1;
    }
    assert(out@.map_values(|p: MessageAuthenticationCode| mac_name(p)) =~= strings_view(v@));
    out
}

fn sas_methods_from(v: &Vec<String>) -> (r: Vec<ShortAuthenticationString>)
    ensures
        r@.map_values(|p: ShortAuthenticationString| sas_name(p)) == strings_view(v@),
        forall|i: int|
            0 <= i < r@.len() ==> (#[trigger] r@[i] is Custom) == (v@[i]@ != "decimal"@ && v@[i]@
                != "emoji"@),
{
    let mut out: Vec<ShortAuthenticationString> = Vec::new();
    let mut i: usize = 0;
    while i < v.len()
        invariant
            i <= v@.len(),
            out@.len() == i,
            forall|j: int| 0 <= j < i ==> sas_name(#[trigger] out@[j]) == v@[j]@,
            forall|j: int|
                0 <= j < i ==> (#[trigger] out@[j] is Custom) == (v@[j]@ != "decimal"@ && v@[j]@
                    != "emoji"@),
        decreases v@.len() - i,
    {
        out.push(ShortAuthenticationString::from_name(v[i].as_str()));
        i = i + 1;
    }
    assert(out@.map_values(|p: ShortAuthenticationString| sas_name(p)) =~= strings_view(v@));
    out
}

fn is_start_key_exec(k: &str) -> (r: bool)
    ensures
        r == is_start_key(k@),
{
    str_eq(k, "from_device") || str_eq(k, "transaction_id") || str_eq(k, "method")
}

fn take_custom_fields(m: Vec<JsonMember>) -> (r: Vec<JsonMember>)
    ensures
        r@ == custom_fields(m@),
{
    let ghost orig = m@;
    let n = m.len();
    let mut rest = m;
    let mut out: Vec<JsonMember> = Vec::new();
    let mut k: usize = 0;
    while rest.len() > 0
        invariant
            k <= orig.len(),
            orig.len() == n,
            rest@ == orig.skip(k as int),
            rest@.len() == orig.len() - k,
            out@ == custom_fields(orig.take(k as int)),
        decreases rest@.len(),
    {
        let x = rest.remove(0);
        assert(x == orig[k as int]);
        assert(orig.take(k + 1).drop_last() == orig.take(k as int));
        assert(orig.take(k + 1).last() == x);
        assert(orig.skip(k + 1) == orig.skip(k as int).drop_first());
        if !is_start_key_exec(x.name.as_str()) {
            out.push(x);
        }
        k = k + 1;
    }
    assert(orig.take(k as int) == orig);
    out
}

proof fn lemma_strings_match(a: Seq<JsonValue>, s: Seq<Seq<char>>)
    requires
        strings_match(a, s),
    ensures
        all_strings(a),
        strings_of(a) == s,
{
    assert(strings_of(a) =~= s);
}

fn key_agreement_names(v: &Vec<KeyAgreementProtocol>) -> (r: Vec<String>)
    ensures
        strings_view(r@) == v@.map_values(|p: KeyAgreementProtocol| key_agreement_name(p)),
{
    let mut out: Vec<String> = Vec::new();
    let mut i: usize = 0;
    while i < v.len()
        invariant
            i <= v@.len(),
            out@.len() == i,
            forall|j: int| 0 <= j < i ==> (#[trigger] out@[j])@ == key_agreement_name(v@[j]),
        decreases v@.len() - i,
    {
        out.push(v[i].name());
        i = i + 1;
    }
    assert(strings_view(out@) =~= v@.map_values(|p: KeyAgreementProtocol| key_agreement_name(p)));
    out
}

fn hash_names(v: &Vec<HashAlgorithm>) -> (r: Vec<String>)
    ensures
        strings_view(r@) == v@.map_values(|p: HashAlgorithm| hash_name(p)),
{
    let mut out: Vec<String> = Vec::new();
    let mut i: usize = 0;
    while i < v.len()
        invariant
            i <= v@.len(),
            out@.len() == i,
            forall|j: int| 0 <= j < i ==> (#[trigger] out@[j])@ == hash_name(v@[j]),
        decreases v@.len() - i,
    {
        out.push(v[i].name());
        i = i + 1;
    }
    assert(strings_view(out@) =~= v@.map_values(|p: HashAlgorithm| hash_name(p)));
    out
}

fn mac_names(v: &Vec<MessageAuthenticationCode>) -> (r: Vec<String>)
    ensures
        strings_view(r@) == v@.map_values(|p: MessageAuthenticationCode| mac_name(p)),
{
    let mut out: Vec<String> = Vec::new();
    let mut i: usize = 0;
    while i < v.len()
        invariant
            i <= v@.len(),
            out@.len() == i,
            forall|j: int| 0 <= j < i ==> (#[trigger] out@[j])@ == mac_name(v@[j]),
        decreases v@.len() - i,
    {
        out.push(v[i].name());
        i = i + 1;
    }
    assert(strings_view(out@) =~= v@.map_values(|p: MessageAuthenticationCode| mac_name(p)));
    out
}

fn sas_names(v: &Vec<ShortAuthenticationString>) -> (r: Vec<String>)
    ensures
        strings_view(r@) == v@.map_values(|p: ShortAuthenticationString| sas_name(p)),
{
    let mut out: Vec<String> = Vec::new();
    let mut i: usize = 0;
    while i < v.len()
        invariant
            i <= v@.len(),
            out@.len() == i,
            forall|j: int| 0 <= j < i ==> (#[trigger] out@[j])@ == sas_name(v@[j]),
        decreases v@.len() - i,
    {
        out.push(v[i].name());
        i = i + 1;
    }
    assert(strings_view(out@) =~= v@.map_values(|p: ShortAuthenticationString| sas_name(p)));
    out
}

impl StartEventContent {
    /// Reads start content. The `method` member picks the shape: `m.sas.v1` content
    /// must carry its four lists and meet their minimums; any other method keeps
    /// every other member, in order, as its fields.
    pub fn from_members(m: Vec<JsonMember>) -> (r: Result<StartEventContent, EventError>)
        ensures
            r is Err <==> start_read_error(m@) is Some,
            r matches Err(e) ==> start_read_error(m@) == Some(e),
            r matches Ok(c) ==> start_read_as(m@, c),
    {
        let from = match read_required_string(&m, "from_device") {
            Ok(s) => s,
            Err(e) => {
                return Err(e);
            },
        };
        let from_device = match DeviceId::parse(from.as_str()) {
            Ok(d) => d,
            Err(_) => {
                return Err(EventError::MalformedContent);
            },
        };
        let transaction_id = match read_required_string(&m, "transaction_id") {
            Ok(s) => s,
            Err(e) => {
                return Err(e);
            },
        };
        let method = match read_required_string(&m, "method") {
            Ok(s) => s,
            Err(e) => {
                return Err(e);
            },
        };
        if !str_eq(method.as_str(), "m.sas.v1") {
            let fields = take_custom_fields(m);
            return Ok(
                StartEventContent {
                    from_device,
                    transaction_id,
                    method: StartMethod::Custom(CustomContent { method, fields }),
                },
            );
        }
        let k = match read_required_strings(&m, "key_agreement_protocols") {
            Ok(v) => v,
            Err(e) => {
                return Err(e);
            },
        };
        let h = match read_required_strings(&m, "hashes") {
            Ok(v) => v,
            Err(e) => {
                return Err(e);
            },
        };
        let mac = match read_required_strings(&m, "message_authentication_codes") {
            Ok(v) => v,
            Err(e) => {
                return Err(e);
            },
        };
        let sas = match read_required_strings(&m, "short_authentication_string") {
            Ok(v) => v,
            Err(e) => {
                return Err(e);
            },
        };
        let init = MSasV1ContentInit {
            key_agreement_protocols: key_agreements_from(&k),
            hashes: hashes_from(&h),
            message_authentication_codes: macs_from(&mac),
            short_authentication_string: sas_methods_from(&sas),
        };
        proof {
            let kn = strings_view(k@);
            let ki = init.key_agreement_protocols@;
            assert(kn =~= ki.map_values(|p: KeyAgreementProtocol| key_agreement_name(p)));
            assert(has_required_key_agreement(ki) <==> (has_name(kn, "curve25519"@) || has_name(
                kn,
                "curve25519-hkdf-sha256"@,
            ))) by {
                if has_required_key_agreement(ki) {
                    let i = choose|i: int|
                        0 <= i < ki.len() && (#[trigger] ki[i] is Curve25519
                            || ki[i] is Curve25519HkdfSha256);
                    assert(kn[i] == key_agreement_name(ki[i]));
                }
                if has_name(kn, "curve25519"@) {
                    let i = choose|i: int| 0 <= i < kn.len() && #[trigger] kn[i] == "curve25519"@;
                    assert(key_agreement_name(ki[i]) == kn[i]);
                    assert(!(ki[i] is Custom));
                }
                if has_name(kn, "curve25519-hkdf-sha256"@) {
                    let i = choose|i: int|
                        0 <= i < kn.len() && #[trigger] kn[i] == "curve25519-hkdf-sha256"@;
                    assert(key_agreement_name(ki[i]) == kn[i]);
                    assert(!(ki[i] is Custom));
                }
            }
            let hn = strings_view(h@);
            let hi = init.hashes@;
            assert(hn =~= hi.map_values(|p: HashAlgorithm| hash_name(p)));
            assert(has_required_hash(hi) <==> has_name(hn, "sha256"@)) by {
                if has_required_hash(hi) {
                    let i = choose|i: int| 0 <= i < hi.len() && #[trigger] hi[i] is Sha256;
                    assert(hn[i] == hash_name(hi[i]));
                }
                if has_name(hn, "sha256"@) {
                    let i = choose|i: int| 0 <= i < hn.len() && #[trigger] hn[i] == "sha256"@;
                    assert(hash_name(hi[i]) == hn[i]);
                    assert(!(hi[i] is Custom));
                }
            }
            let mn = strings_view(mac@);
            let mi = init.message_authentication_codes@;
            assert(mn =~= mi.map_values(|p: MessageAuthenticationCode| mac_name(p)));
            assert(has_required_mac(mi) <==> has_name(mn, "hkdf-hmac-sha256"@)) by {
                reveal_strlit("hkdf-hmac-sha256");
                reveal_strlit("hmac-sha256");
                assert("hkdf-hmac-sha256"@.len() != "hmac-sha256"@.len());
                if has_required_mac(mi) {
                    let i = choose|i: int| 0 <= i < mi.len() && #[trigger] mi[i] is HkdfHmacSha256;
                    assert(mn[i] == mac_name(mi[i]));
                }
                if has_name(mn, "hkdf-hmac-sha256"@) {
                    let i = choose|i: int|
                        0 <= i < mn.len() && #[trigger] mn[i] == "hkdf-hmac-sha256"@;
                    assert(mac_name(mi[i]) == mn[i]);
                    assert(!(mi[i] is Custom));
                }
            }
            let sn = strings_view(sas@);
            let si = init.short_authentication_string@;
            assert(sn =~= si.map_values(|p: ShortAuthenticationString| sas_name(p)));
            assert(has_required_sas(si) <==> has_name(sn, "decimal"@)) by {
                reveal_strlit("decimal");
                reveal_strlit("emoji");
                assert("decimal"@.len() != "emoji"@.len());
                if has_required_sas(si) {
                    let i = choose|i: int| 0 <= i < si.len() && #[trigger] si[i] is Decimal;
                    assert(sn[i] == sas_name(si[i]));
                }
                if has_name(sn, "decimal"@) {
                    let i = choose|i: int| 0 <= i < sn.len() && #[trigger] sn[i] == "decimal"@;
                    assert(sas_name(si[i]) == sn[i]);
                    assert(!(si[i] is Custom));
                }
            }
        }
        match MSasV1Content::new(init) {
            Ok(x) => Ok(
                StartEventContent { from_device, transaction_id, method: StartMethod::MSasV1(x) },
            ),
            Err(_) => Err(EventError::MalformedContent),
        }
    }

    /// Whether writing this content and reading it back gives it again: custom
    /// content must not use the `m.sas.v1` method name, nor carry fields named like
    /// the common members.
    pub open spec fn writes_back(&self) -> bool {
        match self.method {
            StartMethod::MSasV1(_) => true,
            StartMethod::Custom(x) => x.method@ != sas_v1_method() && forall|i: int|
                0 <= i < x.fields@.len() ==> !is_start_key(#[trigger] x.fields@[i].name@),
        }
    }

    /// Writes the content: the common members first, then the method's own.
    pub fn to_members(self) -> (r: Vec<JsonMember>)
        ensures
            member_names(r@) == start_common_names() + match self.method {
                StartMethod::MSasV1(_) => sas_v1_names(),
                StartMethod::Custom(x) => member_names(x.fields@),
            },
            self.writes_back() ==> start_read_as(r@, self),
    {
        proof {
            reveal_strlit("from_device");
            reveal_strlit("transaction_id");
            reveal_strlit("method");
            reveal_strlit("key_agreement_protocols");
            reveal_strlit("hashes");
            reveal_strlit("message_authentication_codes");
            reveal_strlit("short_authentication_string");
            assert("from_device"@.len() == 11 && "transaction_id"@.len() == 14);
            assert("method"@.len() == 6 && "hashes"@.len() == 6);
            assert("method"@[0] == 'm' && "hashes"@[0] == 'h');
            assert("key_agreement_protocols"@.len() == 23);
            assert("message_authentication_codes"@.len() == 28);
            assert("short_authentication_string"@.len() == 27);
        }
        let StartEventContent { from_device, transaction_id, method } = self;
        let mut out: Vec<JsonMember> = Vec::new();
        proof {
            assert forall|k: Seq<char>| #[trigger] member(out@, k) is None by {
                lemma_no_members(k);
            }
            assert(member_names(out@) =~= Seq::<Seq<char>>::empty());
        }
        push_member(&mut out, "from_device", JsonValue::String(key(from_device.as_str())));
        push_member(&mut out, "transaction_id", JsonValue::String(transaction_id));
        match method {
            StartMethod::MSasV1(x) => {
                push_member(&mut out, "method", JsonValue::String(key("m.sas.v1")));
                let a = string_array(&key_agreement_names(&x.key_agreement_protocols));
                proof {
                    lemma_strings_match(a->Array_0@, sas_lists(x).0);
                }
                push_member(&mut out, "key_agreement_protocols", a);
                let a = string_array(&hash_names(&x.hashes));
                proof {
                    lemma_strings_match(a->Array_0@, sas_lists(x).1);
                }
                push_member(&mut out, "hashes", a);
                let a = string_array(&mac_names(&x.message_authentication_codes));
                proof {
                    lemma_strings_match(a->Array_0@, sas_lists(x).2);
                }
                push_member(&mut out, "message_authentication_codes", a);
                let a = string_array(&sas_names(&x.short_authentication_string));
                proof {
                    lemma_strings_match(a->Array_0@, sas_lists(x).3);
                }
                push_member(&mut out, "short_authentication_string", a);
                assert(member_names(out@) =~= start_common_names() + sas_v1_names());
            },
            StartMethod::Custom(x) => {
                let ghost fields = x.fields@;
                push_member(&mut out, "method", JsonValue::String(x.method));
                assert(custom_fields(out@.drop_last().drop_last().drop_last()) == Seq::<
                    JsonMember,
                >::empty());
                assert(custom_fields(out@.drop_last().drop_last()) == Seq::<JsonMember>::empty());
                assert(custom_fields(out@.drop_last()) == Seq::<JsonMember>::empty());
                assert(custom_fields(out@) == Seq::<JsonMember>::empty());
                let ghost mid = out@;
                assert(member_names(mid) =~= start_common_names());
                assert(member(mid, "from_device"@) is Some);
                assert(member(mid, "transaction_id"@) is Some);
                assert(member(mid, "method"@) is Some);
                append_fields(&mut out, x.fields);
                assert(member(out@, "from_device"@) == member(mid, "from_device"@));
                assert(member(out@, "transaction_id"@) == member(mid, "transaction_id"@));
                assert(member(out@, "method"@) == member(mid, "method"@));
            },
        }
        out
    }
}

/// Start content that writes back, with a device id and with valid `m.sas.v1`
/// lists, is read back without error from what describes it: together with the
/// writer's guarantee this makes reading undo writing.
pub proof fn lemma_written_start_content_reads(c: StartEventContent, written: Seq<JsonMember>)
    requires
        c.writes_back(),
        c.from_device@.len() > 0,
        c.method matches StartMethod::MSasV1(x) ==> x.valid(),
        start_read_as(written, c),
    ensures
        start_read_error(written) is None,
{
    if let StartMethod::MSasV1(x) = c.method {
        let (k, h, mac, sas) = sas_lists(x);
        let ki = x.key_agreement_protocols@;
        let i = choose|i: int|
            0 <= i < ki.len() && (#[trigger] ki[i] is Curve25519 || ki[i] is Curve25519HkdfSha256);
        assert(k[i] == key_agreement_name(ki[i]));
        let hi = x.hashes@;
        let j = choose|j: int| 0 <= j < hi.len() && #[trigger] hi[j] is Sha256;
        assert(h[j] == hash_name(hi[j]));
        let mi = x.message_authentication_codes@;
        let a = choose|a: int| 0 <= a < mi.len() && #[trigger] mi[a] is HkdfHmacSha256;
        assert(mac[a] == mac_name(mi[a]));
        let si = x.short_authentication_string@;
        let b = choose|b: int| 0 <= b < si.len() && #[trigger] si[b] is Decimal;
        assert(sas[b] == sas_name(si[b]));
        assert(sas_names_valid(k, h, mac, sas));
    }
}

/// Appends `fields` to `out`; no field is named like a common start member.
fn append_fields(out: &mut Vec<JsonMember>, fields: Vec<JsonMember>)
    ensures
        member_names(final(out)@) == member_names(old(out)@) + member_names(fields@),
        (forall|i: int| 0 <= i < fields@.len() ==> !is_start_key(#[trigger] fields@[i].name@))
            ==> custom_fields(final(out)@) == custom_fields(old(out)@) + fields@,
        forall|k: Seq<char>|
            (#[trigger] member(old(out)@, k)) is Some ==> member(final(out)@, k) == member(
                old(out)@,
                k,
            ),
{
    let ghost start = out@;
    let ghost orig = fields@;
    let n = fields.len();
    let mut rest = fields;
    let mut k: usize = 0;
    while rest.len() > 0
        invariant
            k <= orig.len(),
            orig.len() == n,
            rest@ == orig.skip(k as int),
            rest@.len() == orig.len() - k,
            out@ == start + orig.take(k as int),
            (forall|i: int| 0 <= i < orig.len() ==> !is_start_key(#[trigger] orig[i].name@))
                ==> custom_fields(out@) == custom_fields(start) + orig.take(k as int),
            forall|q: Seq<char>|
                (#[trigger] member(start, q)) is Some ==> member(out@, q) == member(start, q),
        decreases rest@.len(),
    {
        let x = rest.remove(0);
        assert(x == orig[k as int]);
        assert(orig.skip(k + 1) == orig.skip(k as int).drop_first());
        let ghost before = out@;
        out.push(x);
        assert(out@.drop_last() == before);
        proof {
            assert forall|q: Seq<char>| (#[trigger] member(start, q)) is Some implies member(
                out@,
                q,
            ) == member(start, q) by {
                crate::events::content::lemma_member_push(before, x, q);
            }
            assert(orig.take(k + 1) == orig.take(k as int).push(x));
            if forall|i: int| 0 <= i < orig.len() ==> !is_start_key(#[trigger] orig[i].name@) {
                assert(!is_start_key(orig[k as int].name@));
                assert(out@.last() == x);
                assert(custom_fields(out@) == custom_fields(before).push(x));
                assert(custom_fields(before).push(x) =~= custom_fields(start) + orig.take(k + 1));
            }
        }
        assert(out@ =~= start + orig.take(k + 1));
        k = k + 1;
    }
    assert(orig.take(k as int) == orig);
    assert(member_names(out@) =~= member_names(start) + member_names(orig));
}

} // verus!
