//! Binary data carried as unpadded base64 text.
use std::marker::PhantomData;
use vstd::prelude::*;

verus! {

/// The unpadded base64 text of `bytes`, in the URL-safe alphabet when `url_safe`
/// holds and in the standard one otherwise.
pub uninterp spec fn base64_encoded(url_safe: bool, bytes: Seq<u8>) -> Seq<char>;

/// The bytes that unpadded base64 `text` stands for, in the URL-safe alphabet when
/// `url_safe` holds and in the standard one otherwise; `None` when it is no such
/// text. Trailing bits of the last character are tolerated.
pub uninterp spec fn base64_decoded(url_safe: bool, text: Seq<char>) -> Option<Seq<u8>>;

/// The largest input the encoder and decoder take: their size arithmetic must not
/// overflow.
pub const MAX_BASE64_INPUT: usize = 0x3fff_ffff;

/// Relies on `base64::encode_config` with `STANDARD_NO_PAD`.
#[verifier::external_body]
fn encode_standard(bytes: &[u8]) -> (r: String)
    requires
        bytes@.len() <= MAX_BASE64_INPUT,
    ensures
        r@ == base64_encoded(false, bytes@),
{
    ::base64::encode_config(bytes, ::base64::STANDARD_NO_PAD)
}

/// Relies on `base64::encode_config` with `URL_SAFE_NO_PAD`.
#[verifier::external_body]
fn encode_url_safe(bytes: &[u8]) -> (r: String)
    requires
        bytes@.len() <= MAX_BASE64_INPUT,
    ensures
        r@ == base64_encoded(true, bytes@),
{
    ::base64::encode_config(bytes, ::base64::URL_SAFE_NO_PAD)
}

/// Relies on `base64::decode_config` with `STANDARD_NO_PAD` and trailing bits allowed.
#[verifier::external_body]
fn decode_standard(text: &str) -> (r: Option<Vec<u8>>)
    requires
        text@.len() <= MAX_BASE64_INPUT,
    ensures
        r matches Some(v) ==> base64_decoded(false, text@) == Some(v@),
        r is None ==> base64_decoded(false, text@) is None,
{
    ::base64::decode_config(text, ::base64::STANDARD_NO_PAD.decode_allow_trailing_bits(true)).ok()
}

/// Relies on `base64::decode_config` with `URL_SAFE_NO_PAD` and trailing bits allowed.
#[verifier::external_body]
fn decode_url_safe(text: &str) -> (r: Option<Vec<u8>>)
    requires
        text@.len() <= MAX_BASE64_INPUT,
    ensures
        r matches Some(v) ==> base64_decoded(true, text@) == Some(v@),
        r is None ==> base64_decoded(true, text@) is None,
{
    ::base64::decode_config(text, ::base64::URL_SAFE_NO_PAD.decode_allow_trailing_bits(true)).ok()
}

/// The alphabet used by a `Base64` value.
pub trait Base64Config {
    /// Whether the URL-safe alphabet is used.
    spec fn url_safe() -> bool;

    /// Encodes `bytes` as unpadded text in this alphabet.
    fn encode(bytes: &[u8]) -> (r: String)
        requires
            bytes@.len() <= MAX_BASE64_INPUT,
        ensures
            r@ == base64_encoded(Self::url_safe(), bytes@),
    ;

    /// Decodes unpadded text in this alphabet.
    fn decode(text: &str) -> (r: Option<Vec<u8>>)
        requires
            text@.len() <= MAX_BASE64_INPUT,
        ensures
            r matches Some(v) ==> base64_decoded(Self::url_safe(), text@) == Some(v@),
            r is None ==> base64_decoded(Self::url_safe(), text@) is None,
    ;
}

/// The standard base64 alphabet without padding; trailing bits are allowed when
/// decoding.
#[derive(Clone, Copy, Debug, PartialEq, Eq)]
#[non_exhaustive]
pub struct Standard;

impl Base64Config for Standard {
    open spec fn url_safe() -> bool {
        false
    }

    fn encode(bytes: &[u8]) -> (r: String) {
        encode_standard(bytes)
    }

    fn decode(text: &str) -> (r: Option<Vec<u8>>) {
        decode_standard(text)
    }
}

/// The URL-safe base64 alphabet without padding; trailing bits are allowed when
/// decoding.
#[derive(Clone, Copy, Debug, PartialEq, Eq)]
#[non_exhaustive]
pub struct UrlSafe;

impl Base64Config for UrlSafe {
    open spec fn url_safe() -> bool {
        true
    }

    fn encode(bytes: &[u8]) -> (r: String) {
        encode_url_safe(bytes)
    }

    fn decode(text: &str) -> (r: Option<Vec<u8>>) {
        decode_url_safe(text)
    }
}

/// Text that is not unpadded base64 in the expected alphabet.
#[derive(Clone, Copy, Debug, PartialEq, Eq)]
pub enum Base64Error {
    /// The text holds a character outside the alphabet, or has an impossible length.
    InvalidText,
    /// The text is longer than `MAX_BASE64_INPUT`.
    TooLong,
}

/// Bytes that are written as unpadded base64 text in the alphabet `C`.
#[derive(Debug, PartialEq, Eq)]
pub struct Base64<C = Standard> {
    bytes: Vec<u8>,
    config: PhantomData<C>,
}

impl<C: Base64Config> Base64<C> {
    /// The bytes held.
    pub closed spec fn spec_bytes(&self) -> Seq<u8> {
        self.bytes@
    }

    /// Holds `bytes`, to be base64-encoded when written out.
    pub fn new(bytes: Vec<u8>) -> (r: Self)
        ensures
            r.spec_bytes() == bytes@,
    {
        Base64 { bytes, config: PhantomData }
    }

    /// The bytes held.
    pub fn as_bytes(&self) -> (r: &[u8])
        ensures
            r@ == self.spec_bytes(),
    {
        self.bytes.as_slice()
    }

    /// The bytes held, as unpadded base64 text.
    pub fn encode(&self) -> (r: String)
        requires
            self.spec_bytes().len() <= MAX_BASE64_INPUT,
        ensures
            r@ == base64_encoded(C::url_safe(), self.spec_bytes()),
    {
        C::encode(self.bytes.as_slice())
    }

    /// Gives up the bytes held.
    pub fn into_inner(self) -> (r: Vec<u8>)
        ensures
            r@ == self.spec_bytes(),
    {
        self.bytes
    }

    /// A value holding no bytes.
    pub fn empty() -> (r: Self)
        ensures
            r.spec_bytes() == Seq::<u8>::empty(),
    {
        Base64 { bytes: Vec::new(), config: PhantomData }
    }

    /// Decodes unpadded base64 text in the alphabet `C`.
    pub fn parse(encoded: &str) -> (r: Result<Self, Base64Error>)
        ensures
            encoded@.len() > MAX_BASE64_INPUT ==> r == Err::<Self, Base64Error>(
                Base64Error::TooLong,
            ),
            encoded@.len() <= MAX_BASE64_INPUT ==> match base64_decoded(C::url_safe(), encoded@) {
                Some(b) => r matches Ok(v) && v.spec_bytes() == b,
                None => r == Err::<Self, Base64Error>(Base64Error::InvalidText),
            },
    {
        if encoded.unicode_len() > MAX_BASE64_INPUT {
            return Err(Base64Error::TooLong);
        }
        match C::decode(encoded) {
            Some(bytes) => Ok(Base64 { bytes, config: PhantomData }),
            None => Err(Base64Error::InvalidText),
        }
    }
}

} // verus!
