//! Percent-encoding of path segments and query components.
//!
//! Text is encoded as its UTF-8 bytes: a byte that is an ASCII letter, digit or one
//! of `-._~` stands for itself, and every other byte is written `%XY` with
//! upper-case hex digits.
use crate::identifiers::push_char;
use vstd::prelude::*;
use vstd::utf8::{decode_utf8, encode_utf8, encode_utf8_decode_utf8, encode_utf8_valid_utf8, valid_utf8};

verus! {

/// An unreserved byte: an ASCII letter or digit, or one of `-._~`.
pub open spec fn is_unreserved(b: u8) -> bool {
    (48 <= b <= 57) || (97 <= b <= 122) || (65 <= b <= 90) || b == 45 || b == 46 || b == 95
        || b == 126
}

/// The upper-case hex digit of `n`.
pub open spec fn hex_digit(n: u8) -> char {
    if n < 10 {
        ((n + 48) as u8) as char
    } else {
        ((n + 55) as u8) as char
    }
}

/// The value of hex digit `c`, of either case.
pub open spec fn hex_value(c: char) -> Option<u8> {
    if '0' <= c <= '9' {
        Some((c as u32 - 48) as u8)
    } else if 'A' <= c <= 'F' {
        Some((c as u32 - 55) as u8)
    } else if 'a' <= c <= 'f' {
        Some((c as u32 - 87) as u8)
    } else {
        None
    }
}

/// How one byte is written.
pub open spec fn encode_byte(b: u8) -> Seq<char> {
    if is_unreserved(b) {
        seq![b as char]
    } else {
        seq!['%', hex_digit(b / 16), hex_digit(b % 16)]
    }
}

/// The encoded form of the bytes `b`.
pub open spec fn encoded_bytes(b: Seq<u8>) -> Seq<char>
    decreases b.len(),
{
    if b.len() == 0 {
        Seq::empty()
    } else {
        encoded_bytes(b.drop_last()) + encode_byte(b.last())
    }
}

/// The encoded form of `s`: its UTF-8 bytes, encoded.
pub open spec fn encoded(s: Seq<char>) -> Seq<char> {
    encoded_bytes(encode_utf8(s))
}

/// The bytes that encoded `w` stands for, or `None` when a `%` is not followed by
/// two hex digits. A character that is not escaped stands for its UTF-8 bytes.
pub open spec fn decoded_bytes(w: Seq<char>) -> Option<Seq<u8>>
    decreases w.len(),
{
    if w.len() == 0 {
        Some(Seq::empty())
    } else if w[0] == '%' {
        if w.len() < 3 {
            None
        } else {
            match (hex_value(w[1]), hex_value(w[2])) {
                (Some(h), Some(l)) => match decoded_bytes(w.subrange(3, w.len() as int)) {
                    Some(rest) => Some(seq![(h * 16 + l) as u8] + rest),
                    None => None,
                },
                _ => None,
            }
        }
    } else {
        match decoded_bytes(w.drop_first()) {
            Some(rest) => Some(raw_char_bytes(w[0]) + rest),
            None => None,
        }
    }
}

/// The bytes of a character that stands for itself.
pub open spec fn raw_char_bytes(c: char) -> Seq<u8> {
    if (c as u32) < 128 {
        seq![c as u8]
    } else {
        encode_utf8(seq![c])
    }
}

/// The text that encoded `w` stands for, or `None` when it has a broken escape or
/// its bytes are not UTF-8.
pub open spec fn decoded(w: Seq<char>) -> Option<Seq<char>> {
    match decoded_bytes(w) {
        Some(b) => if valid_utf8(b) {
            Some(decode_utf8(b))
        } else {
            None
        },
        None => None,
    }
}

proof fn lemma_encoded_front(b: Seq<u8>)
    requires
        b.len() > 0,
    ensures
        encoded_bytes(b) == encode_byte(b[0]) + encoded_bytes(b.drop_first()),
    decreases b.len(),
{
    if b.len() == 1 {
        assert(b.drop_last().len() == 0);
        assert(b.drop_first().len() == 0);
        assert(encoded_bytes(b.drop_first()) == Seq::<char>::empty());
        assert(encoded_bytes(b.drop_last()) == Seq::<char>::empty());
        assert(encoded_bytes(b) =~= encode_byte(b[0]) + encoded_bytes(b.drop_first()));
    } else {
        lemma_encoded_front(b.drop_last());
        assert(b.drop_last().drop_first() == b.drop_first().drop_last());
        assert(b.drop_first().last() == b.last());
        assert(b.drop_last()[0] == b[0]);
        assert(encoded_bytes(b) =~= encode_byte(b[0]) + encoded_bytes(b.drop_first()));
    }
}

proof fn lemma_hex_round_trip(n: u8)
    requires
        n < 16,
    ensures
        hex_value(hex_digit(n)) == Some(n),
{
    if n < 10 {
        assert(((n + 48) as u8) as char as u32 == n + 48);
    } else {
        assert(((n + 55) as u8) as char as u32 == n + 55);
    }
}

/// Decoding the bytes undoes encoding them.
pub proof fn lemma_decode_encoded_bytes(b: Seq<u8>)
    ensures
        decoded_bytes(encoded_bytes(b)) == Some(b),
    decreases b.len(),
{
    if b.len() == 0 {
        assert(encoded_bytes(b) == Seq::<char>::empty());
        assert(b =~= Seq::<u8>::empty());
    } else {
        lemma_encoded_front(b);
        lemma_decode_encoded_bytes(b.drop_first());
        let x = b[0];
        let w = encoded_bytes(b);
        let rest = encoded_bytes(b.drop_first());
        if is_unreserved(x) {
            assert((x as char) as u32 == x as u32);
            assert(w[0] == x as char);
            assert(w.drop_first() == rest);
            assert(raw_char_bytes(x as char) == seq![x]);
        } else {
            lemma_hex_round_trip(x / 16);
            lemma_hex_round_trip(x % 16);
            assert(((x / 16) * 16 + x % 16) as u8 == x);
            assert(w[0] == '%');
            assert(w.subrange(3, w.len() as int) == rest);
        }
        assert(seq![x] + b.drop_first() =~= b);
    }
}

/// Decoding undoes encoding, for every text.
pub proof fn lemma_decode_encoded(s: Seq<char>)
    ensures
        decoded(encoded(s)) == Some(s),
{
    lemma_decode_encoded_bytes(encode_utf8(s));
    encode_utf8_valid_utf8(s);
    encode_utf8_decode_utf8(s);
}

/// Encoded bytes hold no `/`.
pub proof fn lemma_encoded_bytes_have_no_slash(b: Seq<u8>)
    ensures
        !encoded_bytes(b).contains('/'),
    decreases b.len(),
{
    if b.len() > 0 {
        lemma_encoded_bytes_have_no_slash(b.drop_last());
        let x = b.last();
        if !is_unreserved(x) {
            assert(hex_digit(x / 16) != '/' && hex_digit(x % 16) != '/') by {
                assert(((x / 16 + 48) as u8) as char as u32 == (x / 16 + 48) as u32);
                assert(((x % 16 + 48) as u8) as char as u32 == (x % 16 + 48) as u32);
                assert(((x / 16 + 55) as u8) as char as u32 == (x / 16 + 55) as u32);
                assert(((x % 16 + 55) as u8) as char as u32 == (x % 16 + 55) as u32);
            }
        } else {
            assert((x as char) as u32 == x as u32);
        }
        let e = encoded_bytes(b);
        assert(e == encoded_bytes(b.drop_last()) + encode_byte(x));
        assert forall|i: int| 0 <= i < e.len() implies e[i] != '/' by {
            if i < encoded_bytes(b.drop_last()).len() {
                assert(e[i] == encoded_bytes(b.drop_last())[i]);
            }
        }
    }
}

/// An encoded text holds no `/`.
pub proof fn lemma_encoded_has_no_slash(s: Seq<char>)
    ensures
        !encoded(s).contains('/'),
{
    lemma_encoded_bytes_have_no_slash(encode_utf8(s));
}

fn hex_char(n: u8) -> (r: char)
    requires
        n < 16,
    ensures
        r == hex_digit(n),
{
    if n < 10 {
        (n + 48) as char
    } else {
        (n + 55) as char
    }
}

fn hex_of(c: char) -> (r: Option<u8>)
    ensures
        r == hex_value(c),
{
    if '0' <= c && c <= '9' {
        Some((c as u32 - 48) as u8)
    } else if 'A' <= c && c <= 'F' {
        Some((c as u32 - 55) as u8)
    } else if 'a' <= c && c <= 'f' {
        Some((c as u32 - 87) as u8)
    } else {
        None
    }
}

/// Relies on `String::from_utf8`, which returns the text exactly when the bytes
/// are UTF-8.
#[verifier::external_body]
fn utf8_text(bytes: Vec<u8>) -> (r: Option<String>)
    ensures
        r matches Some(s) ==> valid_utf8(bytes@) && s@ == decode_utf8(bytes@),
        r is None ==> !valid_utf8(bytes@),
{
    String::from_utf8(bytes).ok()
}

/// Writes `s` percent-encoded.
pub fn percent_encode(s: &str) -> (r: String)
    ensures
        r@ == encoded(s@),
{
    let bytes = s.as_bytes();
    let n = bytes.len();
    let mut out = String::new();
    let mut i: usize = 0;
    assert(bytes@.subrange(0, 0).len() == 0);
    while i < n
        invariant
            n == bytes@.len(),
            bytes@ == encode_utf8(s@),
            i <= n,
            out@ == encoded_bytes(bytes@.subrange(0, i as int)),
        decreases n - i,
    {
        let b = bytes[i];
        assert(bytes@.subrange(0, i + 1).drop_last() == bytes@.subrange(0, i as int));
        assert(bytes@.subrange(0, i + 1).last() == b);
        if (48 <= b && b <= 57) || (97 <= b && b <= 122) || (65 <= b && b <= 90) || b == 45 || b
            == 46 || b == 95 || b == 126 {
            push_char(&mut out, b as char);
        } else {
            push_char(&mut out, '%');
            push_char(&mut out, hex_char(b / 16));
            push_char(&mut out, hex_char(b % 16));
        }
        assert(out@ == encoded_bytes(bytes@.subrange(0, i + 1)));
        i = i + 1;
    }
    assert(bytes@.subrange(0, n as int) == bytes@);
    out
}

fn push_bytes(out: &mut Vec<u8>, b: &[u8])
    ensures
        final(out)@ == old(out)@ + b@,
{
    let mut i: usize = 0;
    while i < b.len()
        invariant
            i <= b@.len(),
            out@ == old(out)@ + b@.subrange(0, i as int),
        decreases b@.len() - i,
    {
        out.push(b[i]);
        i = i + 1;
        assert(out@ =~= old(out)@ + b@.subrange(0, i as int));
    }
    assert(b@.subrange(0, i as int) == b@);
}

/// Reads percent-encoded `w`; `None` when an escape is broken or the bytes are
/// not UTF-8.
pub fn percent_decode(w: &str) -> (r: Option<String>)
    ensures
        r matches Some(t) ==> decoded(w@) == Some(t@),
        r is None ==> decoded(w@) is None,
{
    let n = w.unicode_len();
    let mut out: Vec<u8> = Vec::new();
    let mut i: usize = 0;
    assert(w@.subrange(0, n as int) == w@);
    while i < n
        invariant
            n == w@.len(),
            i <= n,
            decoded_bytes(w@) == match decoded_bytes(w@.subrange(i as int, n as int)) {
                Some(t) => Some(out@ + t),
                None => None,
            },
        decreases n - i,
    {
        let ghost sub = w@.subrange(i as int, n as int);
        let c = w.get_char(i);
        assert(sub[0] == c);
        if c == '%' {
            if n - i < 3 {
                return None;
            }
            let h = hex_of(w.get_char(i + 1));
            let l = hex_of(w.get_char(i + 2));
            assert(sub[1] == w@[i + 1] && sub[2] == w@[i + 2]);
            match (h, l) {
                (Some(h), Some(l)) => {
                    assert(sub.subrange(3, sub.len() as int) == w@.subrange(i + 3, n as int));
                    let ghost before = out@;
                    let d = h * 16 + l;
                    out.push(d);
                    assert(before.push(d) + decoded_bytes(w@.subrange(i + 3, n as int))->Some_0
                        =~= before + (seq![d] + decoded_bytes(
                        w@.subrange(i + 3, n as int),
                    )->Some_0));
                    i = i + 3;
                },
                _ => {
                    return None;
                },
            }
        } else {
            assert(sub.drop_first() == w@.subrange(i + 1, n as int));
            let ghost before = out@;
            if (c as u32) < 128 {
                out.push(c as u8);
                assert(out@ == before + raw_char_bytes(c));
            } else {
                let one = w.substring_char(i, i + 1);
                assert(one@ =~= seq![c]);
                push_bytes(&mut out, one.as_bytes());
            }
            assert(out@ + decoded_bytes(w@.subrange(i + 1, n as int))->Some_0 =~= before + (
            raw_char_bytes(c) + decoded_bytes(w@.subrange(i + 1, n as int))->Some_0));
            i = i + 1;
        }
    }
    assert(w@.subrange(n as int, n as int) == Seq::<char>::empty());
    assert(out@ + Seq::<u8>::empty() == out@);
    utf8_text(out)
}

} // verus!
