//! Redaction: which content members of each event type survive it.
use crate::json::{str_eq, JsonMember};
use vstd::prelude::*;

verus! {

broadcast use {Seq::lemma_filter_pred, Seq::lemma_filter_contains};

/// The names of the content members that redaction keeps for `event_type`.
pub open spec fn retained_keys(event_type: Seq<char>) -> Seq<Seq<char>> {
    if event_type == "m.room.member"@ {
        seq!["membership"@]
    } else if event_type == "m.room.create"@ {
        seq!["creator"@]
    } else if event_type == "m.room.join_rules"@ {
        seq!["join_rule"@]
    } else if event_type == "m.room.history_visibility"@ {
        seq!["history_visibility"@]
    } else if event_type == "m.room.power_levels"@ {
        seq![
            "ban"@,
            "events"@,
            "events_default"@,
            "kick"@,
            "redact"@,
            "state_default"@,
            "users"@,
            "users_default"@,
        ]
    } else if event_type == "m.room.redaction"@ {
        seq!["reason"@]
    } else {
        Seq::empty()
    }
}

/// Whether redaction keeps a content member named `key` of an `event_type` event.
pub open spec fn is_retained(event_type: Seq<char>, key: Seq<char>) -> bool {
    retained_keys(event_type).contains(key)
}

/// The content members that survive redaction, in their order.
pub open spec fn redacted(event_type: Seq<char>, content: Seq<JsonMember>) -> Seq<JsonMember> {
    content.filter(|m: JsonMember| is_retained(event_type, m.name@))
}

/// The names of the content members that redaction keeps for `event_type`.
pub fn retained_keys_of(event_type: &str) -> (r: Vec<&'static str>)
    ensures
        r@.len() == retained_keys(event_type@).len(),
        forall|i: int| 0 <= i < r@.len() ==> #[trigger] r@[i]@ == retained_keys(event_type@)[i],
{
    if str_eq(event_type, "m.room.member") {
        vec!["membership"]
    } else if str_eq(event_type, "m.room.create") {
        vec!["creator"]
    } else if str_eq(event_type, "m.room.join_rules") {
        vec!["join_rule"]
    } else if str_eq(event_type, "m.room.history_visibility") {
        vec!["history_visibility"]
    } else if str_eq(event_type, "m.room.power_levels") {
        vec![
            "ban",
            "events",
            "events_default",
            "kick",
            "redact",
            "state_default",
            "users",
            "users_default",
        ]
    } else if str_eq(event_type, "m.room.redaction") {
        vec!["reason"]
    } else {
        Vec::new()
    }
}

/// Whether redaction keeps a content member named `key` of an `event_type` event.
pub fn retains(event_type: &str, key: &str) -> (r: bool)
    ensures
        r == is_retained(event_type@, key@),
{
    let keys = retained_keys_of(event_type);
    let ghost spec_keys = retained_keys(event_type@);
    let mut i: usize = 0;
    while i < keys.len()
        invariant
            i <= keys@.len(),
            keys@.len() == spec_keys.len(),
            spec_keys == retained_keys(event_type@),
            forall|j: int| 0 <= j < keys@.len() ==> #[trigger] keys@[j]@ == spec_keys[j],
            forall|j: int| 0 <= j < i ==> spec_keys[j] != key@,
        decreases keys@.len() - i,
    {
        if str_eq(keys[i], key) {
            assert(spec_keys[i as int] == key@);
            return true;
        }
        i = i + 1;
    }
    false
}

/// Strips event content down to the members that redaction keeps for its type.
pub fn redact_content(event_type: &str, content: Vec<JsonMember>) -> (r: Vec<JsonMember>)
    ensures
        r@ == redacted(event_type@, content@),
{
    let ghost orig = content@;
    let ghost pred = |m: JsonMember| is_retained(event_type@, m.name@);
    let mut rest = content;
    let mut out: Vec<JsonMember> = Vec::new();
    let mut k: usize = 0;
    let n = rest.len();
    assert(orig.take(0).filter(pred) == Seq::<JsonMember>::empty()) by {
        reveal(Seq::filter);
    }
    while rest.len() > 0
        invariant
            k <= orig.len(),
            orig.len() == n,
            rest@ == orig.skip(k as int),
            rest@.len() == orig.len() - k,
            out@ == orig.take(k as int).filter(pred),
            pred == (|m: JsonMember| is_retained(event_type@, m.name@)),
        decreases rest@.len(),
    {
        let m = rest.remove(0);
        assert(m == orig[k as int]);
        assert(orig.take(k + 1).drop_last() == orig.take(k as int));
        assert(orig.take(k + 1).last() == m);
        assert(orig.skip(k + 1) == orig.skip(k as int).drop_first());
        reveal(Seq::filter);
        if retains(event_type, m.name.as_str()) {
            out.push(m);
        }
        k = k + 1;
    }
    assert(orig.take(k as int) == orig);
    out
}

/// Redaction keeps exactly the content members that the type's policy names: every
/// member left is named by the policy and was in the content, and every member of
/// the content that the policy names is left.
pub proof fn lemma_redaction_keeps_exactly_policy_fields(
    event_type: Seq<char>,
    content: Seq<JsonMember>,
)
    ensures
        forall|i: int|
            0 <= i < redacted(event_type, content).len() ==> {
                &&& is_retained(event_type, (#[trigger] redacted(event_type, content)[i]).name@)
                &&& content.contains(redacted(event_type, content)[i])
            },
        forall|i: int|
            0 <= i < content.len() && is_retained(event_type, (#[trigger] content[i]).name@)
                ==> redacted(event_type, content).contains(content[i]),
{
    let pred = |m: JsonMember| is_retained(event_type, m.name@);
    assert forall|i: int| 0 <= i < redacted(event_type, content).len() implies {
        &&& is_retained(event_type, (#[trigger] redacted(event_type, content)[i]).name@)
        &&& content.contains(redacted(event_type, content)[i])
    } by {
        content.lemma_filter_pred(pred, i);
        lemma_filter_subset(content, pred, i);
    }
    assert forall|i: int|
        0 <= i < content.len() && is_retained(event_type, (#[trigger] content[i]).name@) implies redacted(
        event_type,
        content,
    ).contains(content[i]) by {
        content.lemma_filter_contains(pred, i);
    }
}

proof fn lemma_filter_subset(s: Seq<JsonMember>, pred: spec_fn(JsonMember) -> bool, i: int)
    requires
        0 <= i < s.filter(pred).len(),
    ensures
        s.contains(s.filter(pred)[i]),
    decreases s.len(),
{
    reveal(Seq::filter);
    if s.len() > 0 {
        let sub = s.drop_last().filter(pred);
        if i < sub.len() {
            lemma_filter_subset(s.drop_last(), pred, i);
            let j = choose|j: int| 0 <= j < s.drop_last().len() && s.drop_last()[j] == sub[i];
            assert(s[j] == s.filter(pred)[i]);
        } else {
            assert(s[s.len() - 1] == s.filter(pred)[i]);
        }
    }
}

} // verus!
