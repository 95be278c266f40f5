//! Binding of typed requests and responses to wire messages.
use crate::identifiers::push_char;
use crate::json::{str_eq, JsonMember};
use crate::percent::{encoded, percent_encode};
use vstd::prelude::*;

pub mod knock_room;

verus! {

/// An HTTP method.
#[derive(Clone, Copy, Debug, PartialEq, Eq)]
pub enum Method {
    Get,
    Post,
    Put,
    Delete,
}

/// Whether an endpoint takes a bearer token.
#[derive(Clone, Copy, Debug, PartialEq, Eq)]
pub enum AuthScheme {
    /// A token is never sent.
    NoToken,
    /// A token is required.
    AccessToken,
    /// A token is sent when there is one.
    AccessTokenOptional,
}

/// What never changes about an endpoint.
#[derive(Clone, Copy, Debug, PartialEq, Eq)]
pub struct Metadata {
    /// A short description.
    pub description: &'static str,
    /// The HTTP method.
    pub method: Method,
    /// A stable name.
    pub name: &'static str,
    /// The path template, rooted in a protocol version segment; `:name` marks a
    /// placeholder.
    pub path: &'static str,
    /// Whether the server rate-limits the endpoint. Nothing here enforces it.
    pub rate_limited: bool,
    /// Whether a bearer token is sent.
    pub authentication: AuthScheme,
}

/// Why a request or response could not be bound to or from the wire.
#[derive(Clone, Copy, Debug, PartialEq, Eq)]
pub enum ApiError {
    /// The endpoint requires a token and none was given.
    MissingToken,
    /// The path does not have the shape of the endpoint's template.
    PathMismatch,
    /// A body member, query value or path segment has the wrong kind or is invalid.
    MalformedWire,
    /// A mandatory body member is absent.
    MissingRequiredField,
}

/// A request as it goes on the wire.
#[derive(Debug, PartialEq, Eq)]
pub struct WireRequest {
    pub method: Method,
    /// The percent-encoded path.
    pub path: String,
    /// The query pairs, in order; a key may repeat.
    pub query: Vec<(String, String)>,
    /// The bearer token sent, if any.
    pub access_token: Option<String>,
    /// The members of the JSON body.
    pub body: Vec<JsonMember>,
}

/// A response as it comes off the wire.
#[derive(Debug, PartialEq, Eq)]
pub struct WireResponse {
    pub status: u16,
    /// The members of the JSON body.
    pub body: Vec<JsonMember>,
}

/// The characters of each query pair.
pub open spec fn pairs_view(q: Seq<(String, String)>) -> Seq<(Seq<char>, Seq<char>)> {
    q.map_values(|p: (String, String)| (p.0@, p.1@))
}

/// The values of the pairs named `key`, in order.
pub open spec fn values_of(q: Seq<(Seq<char>, Seq<char>)>, key: Seq<char>) -> Seq<Seq<char>>
    decreases q.len(),
{
    if q.len() == 0 {
        Seq::empty()
    } else if q.last().0 == key {
        values_of(q.drop_last(), key).push(q.last().1)
    } else {
        values_of(q.drop_last(), key)
    }
}

/// The pairs that write each of `values` under `key`, in order.
pub open spec fn pairs_for(key: Seq<char>, values: Seq<Seq<char>>) -> Seq<(Seq<char>, Seq<char>)> {
    values.map_values(|v: Seq<char>| (key, v))
}

/// Reading back the values written under one key gives them in their order.
pub proof fn lemma_values_of_pairs_for(key: Seq<char>, values: Seq<Seq<char>>)
    ensures
        values_of(pairs_for(key, values), key) == values,
    decreases values.len(),
{
    if values.len() > 0 {
        assert(pairs_for(key, values).drop_last() == pairs_for(key, values.drop_last()));
        lemma_values_of_pairs_for(key, values.drop_last());
        assert(values.drop_last().push(values.last()) == values);
    } else {
        assert(values == Seq::<Seq<char>>::empty());
    }
}

/// Query pairs that all carry `key` are the pairs written for their values.
pub proof fn lemma_pairs_for_values_of(q: Seq<(Seq<char>, Seq<char>)>, key: Seq<char>)
    requires
        forall|i: int| 0 <= i < q.len() ==> (#[trigger] q[i]).0 == key,
    ensures
        pairs_for(key, values_of(q, key)) == q,
    decreases q.len(),
{
    if q.len() > 0 {
        lemma_pairs_for_values_of(q.drop_last(), key);
        let v = values_of(q.drop_last(), key);
        assert(pairs_for(key, v.push(q.last().1)) =~= pairs_for(key, v).push((key, q.last().1)));
        assert(q.drop_last().push(q.last()) == q);
    } else {
        assert(pairs_for(key, values_of(q, key)) =~= q);
    }
}

/// The query string of `q`: each pair as `key=value`, percent-encoded, joined by `&`.
pub open spec fn query_text(q: Seq<(Seq<char>, Seq<char>)>) -> Seq<char>
    decreases q.len(),
{
    if q.len() == 0 {
        Seq::empty()
    } else {
        let pair = encoded(q.last().0) + seq!['='] + encoded(q.last().1);
        if q.len() == 1 {
            pair
        } else {
            query_text(q.drop_last()) + seq!['&'] + pair
        }
    }
}

/// The values of the query pairs named `key`, in order.
pub fn query_values(q: &Vec<(String, String)>, key: &str) -> (r: Vec<String>)
    ensures
        r@.map_values(|s: String| s@) == values_of(pairs_view(q@), key@),
{
    let mut out: Vec<String> = Vec::new();
    let mut i: usize = 0;
    while i < q.len()
        invariant
            i <= q@.len(),
            out@.map_values(|s: String| s@) == values_of(
                pairs_view(q@.subrange(0, i as int)),
                key@,
            ),
        decreases q@.len() - i,
    {
        let ghost before = out@;
        assert(pairs_view(q@.subrange(0, i + 1)).drop_last() == pairs_view(
            q@.subrange(0, i as int),
        ));
        assert(pairs_view(q@.subrange(0, i + 1)).last() == (q@[i as int].0@, q@[i as int].1@));
        if str_eq(q[i].0.as_str(), key) {
            out.push(q[i].1.clone());
            assert(out@.map_values(|s: String| s@) =~= before.map_values(|s: String| s@).push(
                q@[i as int].1@,
            ));
        }
        i = i + 1;
    }
    assert(q@.subrange(0, i as int) == q@);
    out
}

/// Writes the query pairs as a query string.
pub fn query_string(q: &Vec<(String, String)>) -> (r: String)
    ensures
        r@ == query_text(pairs_view(q@)),
{
    let mut out = String::new();
    let mut i: usize = 0;
    while i < q.len()
        invariant
            i <= q@.len(),
            out@ == query_text(pairs_view(q@.subrange(0, i as int))),
        decreases q@.len() - i,
    {
        assert(pairs_view(q@.subrange(0, i + 1)).drop_last() == pairs_view(
            q@.subrange(0, i as int),
        ));
        assert(pairs_view(q@.subrange(0, i + 1)).last() == (q@[i as int].0@, q@[i as int].1@));
        if i > 0 {
            push_char(&mut out, '&');
        }
        let k = percent_encode(q[i].0.as_str());
        let v = percent_encode(q[i].1.as_str());
        out.append(k.as_str());
        push_char(&mut out, '=');
        out.append(v.as_str());
        i = i + 1;
        assert(out@ =~= query_text(pairs_view(q@.subrange(0, i as int))));
    }
    assert(q@.subrange(0, i as int) == q@);
    out
}

/// The token sent for an endpoint with `scheme`, given the caller's `token`.
pub fn token_to_send(scheme: AuthScheme, token: Option<&str>) -> (r: Result<Option<String>, ApiError>)
    ensures
        match scheme {
            AuthScheme::NoToken => r == Ok::<Option<String>, ApiError>(None),
            AuthScheme::AccessToken => match token {
                None => r == Err::<Option<String>, ApiError>(ApiError::MissingToken),
                Some(t) => r matches Ok(Some(s)) && s@ == t@,
            },
            AuthScheme::AccessTokenOptional => match token {
                None => r == Ok::<Option<String>, ApiError>(None),
                Some(t) => r matches Ok(Some(s)) && s@ == t@,
            },
        },
{
    match scheme {
        AuthScheme::NoToken => Ok(None),
        AuthScheme::AccessToken => match token {
            None => Err(ApiError::MissingToken),
            Some(t) => Ok(Some(String::from_str(t))),
        },
        AuthScheme::AccessTokenOptional => match token {
            None => Ok(None),
            Some(t) => Ok(Some(String::from_str(t))),
        },
    }
}

/// Whether `s` holds `c`.
pub fn contains_char(s: &str, c: char) -> (r: bool)
    ensures
        r == s@.contains(c),
{
    let n = s.unicode_len();
    let mut i: usize = 0;
    while i < n
        invariant
            n == s@.len(),
            i <= n,
            forall|j: int| 0 <= j < i ==> s@[j] != c,
        decreases n - i,
    {
        if s.get_char(i) == c {
            return true;
        }
        i = i + 1;
    }
    false
}

} // verus!
