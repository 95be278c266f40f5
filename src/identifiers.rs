//! Validated protocol identifiers.
//!
//! Every identifier type here other than `MxcUri` holds a string that passed its
//! grammar when the value was made; none is ever changed afterwards. An `MxcUri`
//! holds any string and reports on request whether it is well formed.
use ruma_identifiers_validation::error::MxcUriError as OutsideMxcUriError;
use crate::json::str_eq;
use vstd::prelude::*;
use vstd::utf8::encode_utf8;

verus! {

/// Why a string was not accepted as an identifier.
#[derive(Clone, Copy, Debug, PartialEq, Eq)]
pub enum IdentifierError {
    /// The string is empty where the identifier must not be.
    Empty,
    /// The string does not match the identifier's grammar.
    Invalid,
}

/// Why a string is not a well-formed media URI.
#[derive(Clone, Copy, Debug, PartialEq, Eq)]
pub enum MxcUriError {
    /// The URI does not start with `mxc://`.
    WrongSchema,
    /// No `/` follows the scheme, so there is no media id.
    MissingSlash,
    /// The media id holds a character outside `[A-Za-z0-9_-]`.
    MediaIdMalformed,
    /// The part between the scheme and the slash is not a server name.
    ServerNameMalformed,
    /// The slash that ends the server name lies past index `MAX_SLASH_INDEX`.
    TooLong,
}

/// The largest index at which the slash that ends a media URI's server name may
/// stand: the validator reports that index as a `u8`.
pub const MAX_SLASH_INDEX: usize = 249;

/// Whether the server-name grammar accepts `s` (a host name, an IPv4 literal or a
/// bracketed IPv6 literal, with an optional port).
pub uninterp spec fn server_name_valid(s: Seq<char>) -> bool;

/// Whether `s` is a room id: at most `MAX_ID_BYTES` bytes of UTF-8, a leading
/// `!`, and no NUL character.
pub open spec fn room_id_valid(s: Seq<char>) -> bool {
    &&& encode_utf8(s).len() <= MAX_ID_BYTES
    &&& s.len() > 0
    &&& s[0] == '!'
    &&& !s.contains('\0')
}

/// The longest identifier the grammars accept, in bytes.
pub const MAX_ID_BYTES: usize = 255;

/// Whether the room-id-or-alias grammar accepts `s`.
pub uninterp spec fn room_id_or_alias_valid(s: Seq<char>) -> bool;

/// Whether the user-id grammar accepts `s`.
pub uninterp spec fn user_id_valid(s: Seq<char>) -> bool;

/// Whether the event-id grammar accepts `s`.
pub uninterp spec fn event_id_valid(s: Seq<char>) -> bool;

/// Relies on `ruma_identifiers_validation::server_name::validate`: whether `s` is a
/// server name.
#[verifier::external_body]
fn check_server_name(s: &str) -> (r: bool)
    ensures
        r == server_name_valid(s@),
{
    ruma_identifiers_validation::server_name::validate(s).is_ok()
}

/// Relies on `ruma_identifiers_validation::room_id::validate`: it refuses more
/// than 255 bytes, a first byte other than `!`, and any NUL byte.
#[verifier::external_body]
fn check_room_id(s: &str) -> (r: bool)
    ensures
        r == room_id_valid(s@),
{
    ruma_identifiers_validation::room_id::validate(s).is_ok()
}

/// Relies on `ruma_identifiers_validation::room_id_or_alias_id::validate`: whether
/// `s` is a room id or a room alias.
#[verifier::external_body]
fn check_room_id_or_alias(s: &str) -> (r: bool)
    ensures
        r == room_id_or_alias_valid(s@),
{
    ruma_identifiers_validation::room_id_or_alias_id::validate(s).is_ok()
}

/// Relies on `ruma_identifiers_validation::event_id::validate`: whether `s` is an
/// event id.
#[verifier::external_body]
fn check_event_id(s: &str) -> (r: bool)
    ensures
        r == event_id_valid(s@),
{
    ruma_identifiers_validation::event_id::validate(s).is_ok()
}

/// Relies on `ruma_identifiers_validation::user_id::validate`: whether `s` is a
/// user id, historical local parts included.
#[verifier::external_body]
fn check_user_id(s: &str) -> (r: bool)
    ensures
        r == user_id_valid(s@),
{
    ruma_identifiers_validation::user_id::validate(s).is_ok()
}

/// A user id: `@` + local part + `:` + server name.
#[derive(Debug, PartialEq, Eq)]
pub struct UserId {
    id: String,
}

impl View for UserId {
    type V = Seq<char>;

    closed spec fn view(&self) -> Seq<char> {
        self.id@
    }
}

impl UserId {
    #[verifier::type_invariant]
    closed spec fn inv(&self) -> bool {
        user_id_valid(self.id@)
    }

    /// Validates `s` and, when it is a user id, holds an exact copy of it.
    pub fn parse(s: &str) -> (r: Result<UserId, IdentifierError>)
        ensures
            r is Ok <==> user_id_valid(s@),
            r matches Ok(n) ==> n@ == s@,
            r matches Err(e) ==> e == IdentifierError::Invalid,
    {
        if check_user_id(s) {
            Ok(UserId { id: s.to_owned() })
        } else {
            Err(IdentifierError::Invalid)
        }
    }

    /// The text of the user id, exactly as it was given; it passed the grammar.
    pub fn as_str(&self) -> (r: &str)
        ensures
            r@ == self@,
            user_id_valid(self@),
    {
        proof {
            use_type_invariant(self);
        }
        self.id.as_str()
    }
}

/// A server name: host name or IP literal, with an optional port.
#[derive(Debug, PartialEq, Eq)]
pub struct ServerName {
    name: String,
}

impl View for ServerName {
    type V = Seq<char>;

    closed spec fn view(&self) -> Seq<char> {
        self.name@
    }
}

impl ServerName {
    #[verifier::type_invariant]
    closed spec fn inv(&self) -> bool {
        server_name_valid(self.name@)
    }

    pub closed spec fn wf(&self) -> bool {
        server_name_valid(self.name@)
    }

    /// Validates `s` and, when it is a server name, holds an exact copy of it.
    pub fn parse(s: &str) -> (r: Result<ServerName, IdentifierError>)
        ensures
            r is Ok <==> server_name_valid(s@),
            r matches Ok(n) ==> n@ == s@ && n.wf(),
            r matches Err(e) ==> e == IdentifierError::Invalid,
    {
        if check_server_name(s) {
            Ok(ServerName { name: s.to_owned() })
        } else {
            Err(IdentifierError::Invalid)
        }
    }

    /// The text of the server name, exactly as it was given.
    pub fn as_str(&self) -> (r: &str)
        ensures
            r@ == self@,
            server_name_valid(self@),
    {
        proof {
            use_type_invariant(self);
        }
        self.name.as_str()
    }
}

/// A room id: `!` + opaque local part + `:` + server name.
#[derive(Debug, PartialEq, Eq)]
pub struct RoomId {
    id: String,
}

impl View for RoomId {
    type V = Seq<char>;

    closed spec fn view(&self) -> Seq<char> {
        self.id@
    }
}

impl RoomId {
    #[verifier::type_invariant]
    closed spec fn inv(&self) -> bool {
        room_id_valid(self.id@)
    }

    pub closed spec fn wf(&self) -> bool {
        room_id_valid(self.id@)
    }

    /// Validates `s` and, when it is a room id, holds an exact copy of it.
    pub fn parse(s: &str) -> (r: Result<RoomId, IdentifierError>)
        ensures
            r is Ok <==> room_id_valid(s@),
            r matches Ok(n) ==> n@ == s@ && n.wf(),
            r matches Err(e) ==> e == IdentifierError::Invalid,
    {
        if check_room_id(s) {
            Ok(RoomId { id: s.to_owned() })
        } else {
            Err(IdentifierError::Invalid)
        }
    }

    /// The text of the room id, exactly as it was given.
    pub fn as_str(&self) -> (r: &str)
        ensures
            r@ == self@,
            room_id_valid(self@),
    {
        proof {
            use_type_invariant(self);
        }
        self.id.as_str()
    }
}

/// A room id (`!…`) or a room alias (`#…`).
#[derive(Debug, PartialEq, Eq)]
pub struct RoomIdOrAliasId {
    id: String,
}

impl View for RoomIdOrAliasId {
    type V = Seq<char>;

    closed spec fn view(&self) -> Seq<char> {
        self.id@
    }
}

impl RoomIdOrAliasId {
    #[verifier::type_invariant]
    closed spec fn inv(&self) -> bool {
        room_id_or_alias_valid(self.id@)
    }

    pub closed spec fn wf(&self) -> bool {
        room_id_or_alias_valid(self.id@)
    }

    /// Validates `s` and, when it is a room id or alias, holds an exact copy of it.
    pub fn parse(s: &str) -> (r: Result<RoomIdOrAliasId, IdentifierError>)
        ensures
            r is Ok <==> room_id_or_alias_valid(s@),
            r matches Ok(n) ==> n@ == s@ && n.wf(),
            r matches Err(e) ==> e == IdentifierError::Invalid,
    {
        if check_room_id_or_alias(s) {
            Ok(RoomIdOrAliasId { id: s.to_owned() })
        } else {
            Err(IdentifierError::Invalid)
        }
    }

    /// The text of the identifier, exactly as it was given.
    pub fn as_str(&self) -> (r: &str)
        ensures
            r@ == self@,
            room_id_or_alias_valid(self@),
    {
        proof {
            use_type_invariant(self);
        }
        self.id.as_str()
    }
}

/// An event id: `$` + opaque text, with a `:` + server name in older room versions.
#[derive(Debug, PartialEq, Eq)]
pub struct EventId {
    id: String,
}

impl View for EventId {
    type V = Seq<char>;

    closed spec fn view(&self) -> Seq<char> {
        self.id@
    }
}

impl EventId {
    #[verifier::type_invariant]
    closed spec fn inv(&self) -> bool {
        event_id_valid(self.id@)
    }

    pub closed spec fn wf(&self) -> bool {
        event_id_valid(self.id@)
    }

    /// Validates `s` and, when it is an event id, holds an exact copy of it.
    pub fn parse(s: &str) -> (r: Result<EventId, IdentifierError>)
        ensures
            r is Ok <==> event_id_valid(s@),
            r matches Ok(n) ==> n@ == s@ && n.wf(),
            r matches Err(e) ==> e == IdentifierError::Invalid,
    {
        if check_event_id(s) {
            Ok(EventId { id: s.to_owned() })
        } else {
            Err(IdentifierError::Invalid)
        }
    }

    /// The text of the event id, exactly as it was given; it passed the grammar.
    pub fn as_str(&self) -> (r: &str)
        ensures
            r@ == self@,
            event_id_valid(self@),
    {
        proof {
            use_type_invariant(self);
        }
        self.id.as_str()
    }
}

/// The scheme every media URI starts with.
pub open spec fn mxc_scheme() -> Seq<char> {
    seq!['m', 'x', 'c', ':', '/', '/']
}

/// The index of the first `c` in `s` at or after `i`.
pub open spec fn find_from(s: Seq<char>, c: char, i: int) -> Option<int>
    decreases s.len() - i,
{
    if i < 0 || i >= s.len() {
        None
    } else if s[i] == c {
        Some(i)
    } else {
        find_from(s, c, i + 1)
    }
}

proof fn lemma_find_from_bounds(s: Seq<char>, c: char, i: int)
    ensures
        find_from(s, c, i) matches Some(k) ==> 0 <= i <= k < s.len() && s[k] == c,
    decreases s.len() - i,
{
    if 0 <= i < s.len() && s[i] != c {
        lemma_find_from_bounds(s, c, i + 1);
    }
}

/// A character allowed in a media id: `[A-Za-z0-9_-]`.
pub open spec fn is_media_id_char(c: char) -> bool {
    ('0' <= c <= '9') || ('a' <= c <= 'z') || ('A' <= c <= 'Z') || c == '-' || c == '_'
}

pub open spec fn all_media_id_chars(s: Seq<char>) -> bool {
    forall|i: int| 0 <= i < s.len() ==> is_media_id_char(#[trigger] s[i])
}

/// What validating `s` as a media URI gives: the index of the slash that ends the
/// server name, or the first rule that `s` breaks.
pub open spec fn mxc_grammar(s: Seq<char>) -> Result<int, MxcUriError> {
    if !(s.len() >= 6 && s.subrange(0, 6) == mxc_scheme()) {
        Err(MxcUriError::WrongSchema)
    } else {
        match find_from(s, '/', 6) {
            None => Err(MxcUriError::MissingSlash),
            Some(k) => if !all_media_id_chars(s.subrange(k + 1, s.len() as int)) {
                Err(MxcUriError::MediaIdMalformed)
            } else if !server_name_valid(s.subrange(6, k)) {
                Err(MxcUriError::ServerNameMalformed)
            } else {
                Ok(k)
            },
        }
    }
}

/// Whether `s` starts with the media URI scheme.
pub open spec fn has_mxc_scheme(s: Seq<char>) -> bool {
    s.len() >= 6 && s.subrange(0, 6) == mxc_scheme()
}

/// Whether the slash that ends the server name lies past `MAX_SLASH_INDEX`.
pub open spec fn slash_too_far(s: Seq<char>) -> bool {
    has_mxc_scheme(s) && (find_from(s, '/', 6) matches Some(k) && k > MAX_SLASH_INDEX)
}

/// The outcome of validating `s` as a media URI, the bound on the slash's index
/// included.
pub open spec fn mxc_validation(s: Seq<char>) -> Result<int, MxcUriError> {
    if slash_too_far(s) {
        Err(MxcUriError::TooLong)
    } else {
        mxc_grammar(s)
    }
}

/// Relies on `ruma_identifiers_validation::mxc_uri::validate`: it strips `mxc://`,
/// finds the first `/`, checks the media id's characters and then the server name
/// with `server_name::validate`, and returns the slash's index in the whole URI.
/// The index is returned only when the scheme and the server name are ASCII, so
/// within the bound it is the character index, fits in a `u8` and is not zero.
#[verifier::external_body]
fn check_mxc_uri(s: &str) -> (r: Result<u8, MxcUriError>)
    requires
        !slash_too_far(s@),
    ensures
        r is Ok ==> mxc_grammar(s@) == Ok::<int, MxcUriError>(r->Ok_0 as int),
        r is Err ==> mxc_grammar(s@) == Err::<int, MxcUriError>(r->Err_0),
{
    match ruma_identifiers_validation::mxc_uri::validate(s) {
        Ok(i) => Ok(i.get()),
        Err(OutsideMxcUriError::WrongSchema) => Err(MxcUriError::WrongSchema),
        Err(OutsideMxcUriError::MissingSlash) => Err(MxcUriError::MissingSlash),
        Err(OutsideMxcUriError::MediaIdMalformed) => Err(MxcUriError::MediaIdMalformed),
        Err(_) => Err(MxcUriError::ServerNameMalformed),
    }
}

fn slash_too_far_exec(s: &str) -> (r: bool)
    ensures
        r == slash_too_far(s@),
{
    let n = s.unicode_len();
    proof {
        reveal_strlit("mxc://");
        assert("mxc://"@ =~= mxc_scheme());
    }
    if n < 6 || !str_eq(s.substring_char(0, 6), "mxc://") {
        return false;
    }
    let mut i: usize = 6;
    while i < n
        invariant
            n == s@.len(),
            6 <= i <= n,
            has_mxc_scheme(s@),
            find_from(s@, '/', 6) == find_from(s@, '/', i as int),
        decreases n - i,
    {
        if s.get_char(i) == '/' {
            return i > MAX_SLASH_INDEX;
        }
        i = i + 1;
    }
    false
}

/// A media URI, `mxc://<server name>/<media id>`.
///
/// The value holds any string; `validate` says whether it is well formed. An empty
/// media id after the slash still validates: a consumer that needs media must
/// reject it itself.
#[derive(Clone, Debug, PartialEq, Eq)]
pub struct MxcUri {
    uri: String,
}

impl View for MxcUri {
    type V = Seq<char>;

    closed spec fn view(&self) -> Seq<char> {
        self.uri@
    }
}

impl MxcUri {
    /// Holds `s` as it is, valid or not.
    pub fn from(s: &str) -> (r: MxcUri)
        ensures
            r@ == s@,
    {
        MxcUri { uri: s.to_owned() }
    }

    /// The text of the URI, exactly as it was given.
    pub fn as_str(&self) -> (r: &str)
        ensures
            r@ == self@,
    {
        self.uri.as_str()
    }

    fn extract_slash_idx(&self) -> (r: Result<usize, MxcUriError>)
        ensures
            r matches Ok(i) ==> mxc_validation(self@) == Ok::<int, MxcUriError>(i as int),
            r matches Err(e) ==> mxc_validation(self@) == Err::<int, MxcUriError>(e),
    {
        let s = self.uri.as_str();
        if slash_too_far_exec(s) {
            return Err(MxcUriError::TooLong);
        }
        match check_mxc_uri(s) {
            Ok(i) => Ok(i as usize),
            Err(e) => Err(e),
        }
    }

    /// The server name and the media id, or the first rule the URI breaks.
    pub fn parts(&self) -> (r: Result<(ServerName, String), MxcUriError>)
        ensures
            r is Ok <==> mxc_validation(self@) is Ok,
            r matches Err(e) ==> mxc_validation(self@) == Err::<int, MxcUriError>(e),
            r matches Ok((n, m)) ==> {
                let k = mxc_validation(self@)->Ok_0;
                &&& n@ == self@.subrange(6, k)
                &&& m@ == self@.subrange(k + 1, self@.len() as int)
                &&& n.wf()
            },
    {
        match self.extract_slash_idx() {
            Ok(idx) => {
                proof {
                    lemma_find_from_bounds(self@, '/', 6);
                }
                let s = self.uri.as_str();
                let len = s.unicode_len();
                let server = ServerName { name: s.substring_char(6, idx).to_owned() };
                let media = s.substring_char(idx + 1, len).to_owned();
                Ok((server, media))
            },
            Err(e) => Err(e),
        }
    }

    /// The media id, when the URI is well formed.
    pub fn media_id(&self) -> (r: Result<String, MxcUriError>)
        ensures
            r is Ok <==> mxc_validation(self@) is Ok,
            r matches Err(e) ==> mxc_validation(self@) == Err::<int, MxcUriError>(e),
            r matches Ok(m) ==> m@ == self@.subrange(
                mxc_validation(self@)->Ok_0 + 1,
                self@.len() as int,
            ),
    {
        match self.parts() {
            Ok((_, m)) => Ok(m),
            Err(e) => Err(e),
        }
    }

    /// The server name, when the URI is well formed.
    pub fn server_name(&self) -> (r: Result<ServerName, MxcUriError>)
        ensures
            r is Ok <==> mxc_validation(self@) is Ok,
            r matches Err(e) ==> mxc_validation(self@) == Err::<int, MxcUriError>(e),
            r matches Ok(n) ==> n@ == self@.subrange(6, mxc_validation(self@)->Ok_0) && n.wf(),
    {
        match self.parts() {
            Ok((n, _)) => Ok(n),
            Err(e) => Err(e),
        }
    }

    /// `Ok` when the URI is well formed, else the first rule it breaks.
    pub fn validate(&self) -> (r: Result<(), MxcUriError>)
        ensures
            r is Ok <==> mxc_validation(self@) is Ok,
            r matches Err(e) ==> mxc_validation(self@) == Err::<int, MxcUriError>(e),
    {
        match self.extract_slash_idx() {
            Ok(_) => Ok(()),
            Err(e) => Err(e),
        }
    }

    /// Whether the URI is well formed.
    pub fn is_valid(&self) -> (r: bool)
        ensures
            r == mxc_validation(self@) is Ok,
    {
        self.validate().is_ok()
    }
}

/// Whether `c` is an ASCII letter or digit.
pub open spec fn is_ascii_alphanumeric(c: char) -> bool {
    ('0' <= c <= '9') || ('a' <= c <= 'z') || ('A' <= c <= 'Z')
}

/// The number of characters in a generated device id.
pub const DEVICE_ID_LEN: usize = 8;

/// Relies on `rand::distributions::Alphanumeric`, which samples a byte from
/// `[A-Za-z0-9]`, drawn from the thread-local generator.
#[verifier::external_body]
fn random_alphanumeric() -> (c: char)
    ensures
        is_ascii_alphanumeric(c),
{
    rand::Rng::sample(&mut rand::thread_rng(), rand::distributions::Alphanumeric) as char
}

/// Relies on `String::push`, which appends one character.
#[verifier::external_body]
pub(crate) fn push_char(s: &mut String, c: char)
    ensures
        final(s)@ == old(s)@.push(c),
{
    s.push(c)
}

/// The text made of `chars`, in order.
pub fn string_of(chars: &Vec<char>) -> (r: String)
    ensures
        r@ == chars@,
{
    let mut s = String::new();
    let mut i: usize = 0;
    while i < chars.len()
        invariant
            i <= chars@.len(),
            s@ == chars@.subrange(0, i as int),
        decreases chars@.len() - i,
    {
        push_char(&mut s, chars[i]);
        i = i + 1;
        assert(s@ =~= chars@.subrange(0, i as int));
    }
    assert(chars@.subrange(0, i as int) == chars@);
    s
}

/// A device id: a non-empty opaque string.
#[derive(Debug, PartialEq, Eq)]
pub struct DeviceId {
    id: String,
}

impl View for DeviceId {
    type V = Seq<char>;

    closed spec fn view(&self) -> Seq<char> {
        self.id@
    }
}

impl DeviceId {
    #[verifier::type_invariant]
    closed spec fn inv(&self) -> bool {
        self.id@.len() > 0
    }

    /// A device id made of `chars`, in order; only no characters at all is refused.
    pub fn from_chars(chars: &Vec<char>) -> (r: Result<DeviceId, IdentifierError>)
        ensures
            r is Ok <==> chars@.len() > 0,
            r matches Ok(d) ==> d@ == chars@,
            r matches Err(e) ==> e == IdentifierError::Empty,
    {
        if chars.len() == 0 {
            return Err(IdentifierError::Empty);
        }
        Ok(DeviceId { id: string_of(chars) })
    }

    /// Generates a fresh device id of `DEVICE_ID_LEN` ASCII letters and digits.
    ///
    /// Ids from a pseudo-random source only need to avoid collisions between the
    /// devices of one user; they are not secrets and guard nothing.
    pub fn new() -> (r: DeviceId)
        ensures
            r@.len() == DEVICE_ID_LEN,
            forall|i: int| 0 <= i < r@.len() ==> is_ascii_alphanumeric(#[trigger] r@[i]),
    {
        let mut chars: Vec<char> = Vec::new();
        let mut n: usize = 0;
        while n < DEVICE_ID_LEN
            invariant
                n <= DEVICE_ID_LEN,
                chars@.len() == n,
                forall|i: int|
                    0 <= i < chars@.len() ==> is_ascii_alphanumeric(#[trigger] chars@[i]),
            decreases DEVICE_ID_LEN - n,
        {
            chars.push(random_alphanumeric());
            n = n + 1;
        }
        DeviceId { id: string_of(&chars) }
    }

    /// Holds `s` as a device id; only the empty string is refused.
    pub fn parse(s: &str) -> (r: Result<DeviceId, IdentifierError>)
        ensures
            r is Ok <==> s@.len() > 0,
            r matches Ok(d) ==> d@ == s@,
            r matches Err(e) ==> e == IdentifierError::Empty,
    {
        if s.is_empty() {
            Err(IdentifierError::Empty)
        } else {
            Ok(DeviceId { id: s.to_owned() })
        }
    }

    /// The text of the device id, exactly as it was given or generated; it is not
    /// empty.
    pub fn as_str(&self) -> (r: &str)
        ensures
            r@ == self@,
            self@.len() > 0,
    {
        proof {
            use_type_invariant(self);
        }
        self.id.as_str()
    }
}

} // verus!
