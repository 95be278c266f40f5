//! A JSON document model for event content and request bodies.
use vstd::prelude::*;

verus! {

/// A JSON value. Numbers that are 64-bit integers are held as such, others as
/// their text; objects keep their members in order.
#[derive(Debug, PartialEq, Eq)]
pub enum JsonValue {
    Null,
    Bool(bool),
    Number(i64),
    /// A number outside the 64-bit integers (fractional, or too large), kept as
    /// its JSON text.
    NumberText(String),
    String(String),
    Array(Vec<JsonValue>),
    Object(Vec<JsonMember>),
}

/// A named member of a JSON object.
#[derive(Debug, PartialEq, Eq)]
pub struct JsonMember {
    pub name: String,
    pub value: JsonValue,
}

/// The value of the first member of `members` named `key`.
pub open spec fn member(members: Seq<JsonMember>, key: Seq<char>) -> Option<JsonValue>
    decreases members.len(),
{
    if members.len() == 0 {
        None
    } else if members[0].name@ == key {
        Some(members[0].value)
    } else {
        member(members.drop_first(), key)
    }
}

/// The names of `members`, in order.
pub open spec fn member_names(members: Seq<JsonMember>) -> Seq<Seq<char>> {
    members.map_values(|m: JsonMember| m.name@)
}

/// Whether two strings hold the same characters.
pub fn str_eq(a: &str, b: &str) -> (r: bool)
    ensures
        r == (a@ == b@),
{
    let n = a.unicode_len();
    if n != b.unicode_len() {
        return false;
    }
    let mut i: usize = 0;
    while i < n
        invariant
            n == a@.len(),
            n == b@.len(),
            i <= n,
            a@.subrange(0, i as int) == b@.subrange(0, i as int),
        decreases n - i,
    {
        if a.get_char(i) != b.get_char(i) {
            assert(a@[i as int] != b@[i as int]);
            return false;
        }
        assert(a@.subrange(0, i + 1) == a@.subrange(0, i as int).push(a@[i as int]));
        assert(b@.subrange(0, i + 1) == b@.subrange(0, i as int).push(b@[i as int]));
        i = i + 1;
    }
    assert(a@ == a@.subrange(0, n as int));
    assert(b@ == b@.subrange(0, n as int));
    true
}

/// The value of the first member of `members` named `key`.
pub fn get_member<'a>(members: &'a Vec<JsonMember>, key: &str) -> (r: Option<
    &'a JsonValue,
>)
    ensures
        r matches Some(v) ==> member(members@, key@) == Some(*v),
        r is None ==> member(members@, key@) is None,
{
    let mut i: usize = 0;
    assert(members@.subrange(0, members@.len() as int) == members@);
    while i < members.len()
        invariant
            i <= members@.len(),
            member(members@, key@) == member(members@.subrange(i as int, members@.len() as int), key@),
        decreases members@.len() - i,
    {
        let ghost rest = members@.subrange(i as int, members@.len() as int);
        assert(rest.drop_first() == members@.subrange(i + 1, members@.len() as int));
        if str_eq(members[i].name.as_str(), key) {
            return Some(&members[i].value);
        }
        i = i + 1;
    }
    None
}

} // verus!
