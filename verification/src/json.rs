//! JSON values as the chat wire format carries them, with lookups by key.
use vstd::prelude::*;
use crate::text::str_equal;

verus! {

/// A JSON value. Numbers keep the text they were written with; an object
/// keeps its members in order.
pub enum JsonValue {
    Null,
    Bool(bool),
    Number(String),
    Str(String),
    Array(Vec<JsonValue>),
    Object(Vec<JsonMember>),
}

/// One member of a JSON object.
pub struct JsonMember {
    pub key: String,
    pub value: JsonValue,
}

/// The value of the first member named `key`.
pub open spec fn lookup(ms: Seq<JsonMember>, key: Seq<char>) -> Option<JsonValue>
    decreases ms.len(),
{
    if ms.len() == 0 {
        None
    } else if ms[0].key@ == key {
        Some(ms[0].value)
    } else {
        lookup(ms.drop_first(), key)
    }
}

/// The member `key` of an object; nothing for any other value.
pub open spec fn get(v: JsonValue, key: Seq<char>) -> Option<JsonValue> {
    match v {
        JsonValue::Object(ms) => lookup(ms@, key),
        _ => None,
    }
}

/// The text of a string value.
pub open spec fn str_of(v: JsonValue) -> Option<Seq<char>> {
    match v {
        JsonValue::Str(s) => Some(s@),
        _ => None,
    }
}

/// The text of the member `key`, where it is a string.
pub open spec fn get_str(v: JsonValue, key: Seq<char>) -> Option<Seq<char>> {
    match get(v, key) {
        Some(x) => str_of(x),
        None => None,
    }
}

/// `v` is the string `s`.
pub open spec fn str_is(v: JsonValue, s: Seq<char>) -> bool {
    str_of(v) == Some(s)
}

/// The keys of an object's members, in order.
pub open spec fn keys_of(ms: Seq<JsonMember>) -> Seq<Seq<char>> {
    ms.map_values(|m: JsonMember| m.key@)
}

/// `v` is an object whose members have exactly the keys `ks`, in that order.
pub open spec fn object_with(v: JsonValue, ks: Seq<Seq<char>>) -> bool {
    v matches JsonValue::Object(ms) && keys_of(ms@) == ks
}

/// The value of the `i`th member of an object.
pub open spec fn field(v: JsonValue, i: int) -> JsonValue {
    match v {
        JsonValue::Object(ms) => ms@[i].value,
        _ => JsonValue::Null,
    }
}

/// The items of an array.
pub open spec fn items(v: JsonValue) -> Seq<JsonValue> {
    match v {
        JsonValue::Array(xs) => xs@,
        _ => Seq::empty(),
    }
}

/// `v` is an array of `n` items.
pub open spec fn array_of_len(v: JsonValue, n: nat) -> bool {
    v matches JsonValue::Array(xs) && xs@.len() == n
}

proof fn lemma_lookup_skip(ms: Seq<JsonMember>, key: Seq<char>, i: int)
    requires
        0 <= i <= ms.len(),
        forall|j: int| 0 <= j < i ==> (#[trigger] ms[j]).key@ != key,
    ensures
        lookup(ms, key) == lookup(ms.skip(i), key),
    decreases i,
{
    if i > 0 {
        assert forall|j: int| 0 <= j < i - 1 implies (#[trigger] ms.drop_first()[j]).key@ != key by {
            assert(ms.drop_first()[j] == ms[j + 1]);
        }
        assert(ms[0].key@ != key);
        lemma_lookup_skip(ms.drop_first(), key, i - 1);
        assert(ms.drop_first().skip(i - 1) =~= ms.skip(i));
    } else {
        assert(ms.skip(0) =~= ms);
    }
}

/// The member `key` of `v`, where `v` is an object that has one.
pub fn json_get<'a>(v: &'a JsonValue, key: &str) -> (r: Option<&'a JsonValue>)
    ensures
        match r {
            Some(x) => get(*v, key@) == Some(*x),
            None => get(*v, key@) is None,
        },
{
    match v {
        JsonValue::Object(ms) => {
            let mut i: usize = 0;
            while i < ms.len()
                invariant
                    0 <= i <= ms.len(),
                    get(*v, key@) == lookup(ms@, key@),
                    forall|j: int| 0 <= j < i ==> (#[trigger] ms@[j]).key@ != key@,
                decreases ms.len() - i,
            {
                if str_equal(ms[i].key.as_str(), key) {
                    proof {
                        lemma_lookup_skip(ms@, key@, i as int);
                        assert(ms@.skip(i as int)[0] == ms@[i as int]);
                    }
                    return Some(&ms[i].value);
                }
                i += 1;
            }
            proof {
                lemma_lookup_skip(ms@, key@, i as int);
            }
            None
        },
        _ => None,
    }
}

/// The text of `v`, where it is a string.
pub fn json_as_str(v: &JsonValue) -> (r: Option<&str>)
    ensures
        match r {
            Some(s) => str_of(*v) == Some(s@),
            None => str_of(*v) is None,
        },
{
    match v {
        JsonValue::Str(s) => Some(s.as_str()),
        _ => None,
    }
}

/// The text of the member `key`, where `v` has one and it is a string.
pub fn json_get_str<'a>(v: &'a JsonValue, key: &str) -> (r: Option<&'a str>)
    ensures
        match r {
            Some(s) => get_str(*v, key@) == Some(s@),
            None => get_str(*v, key@) is None,
        },
{
    match json_get(v, key) {
        Some(x) => json_as_str(x),
        None => None,
    }
}

/// A string value.
pub fn jstr(s: &str) -> (r: JsonValue)
    ensures
        str_is(r, s@),
{
    JsonValue::Str(String::from_str(s))
}

/// A string value holding `s`.
pub fn jstring(s: String) -> (r: JsonValue)
    ensures
        str_is(r, s@),
{
    JsonValue::Str(s)
}

/// A member `key: value`.
pub fn member(key: &str, value: JsonValue) -> (m: JsonMember)
    ensures
        m.key@ == key@,
        m.value == value,
{
    JsonMember { key: String::from_str(key), value }
}

/// Appends the member `key: value` to a list of members.
pub fn push_member(ms: &mut Vec<JsonMember>, key: &str, value: JsonValue)
    ensures
        final(ms)@.len() == old(ms)@.len() + 1,
        final(ms)@.take(old(ms)@.len() as int) == old(ms)@,
        forall|k: int| 0 <= k < old(ms)@.len() ==> final(ms)@[k] == old(ms)@[k],
        final(ms)@.last().key@ == key@,
        final(ms)@.last().value == value,
        keys_of(final(ms)@) == keys_of(old(ms)@).push(key@),
{
    let m = member(key, value);
    ms.push(m);
    assert(ms@.take(old(ms)@.len() as int) =~= old(ms)@);
    assert(keys_of(ms@) =~= keys_of(old(ms)@).push(key@));
}

/// Removes the members named in `wanted` from an object's members and hands
/// out, for each name, the value of its first member (nothing where there is
/// none).
pub fn take_members(ms: Vec<JsonMember>, wanted: &[&str]) -> (r: Vec<Option<JsonValue>>)
    requires
        forall|i: int, j: int| 0 <= i < j < wanted@.len() ==> wanted@[i]@ != wanted@[j]@,
    ensures
        r@.len() == wanted@.len(),
        forall|i: int| 0 <= i < wanted@.len() ==> r@[i] == lookup(ms@, (#[trigger] wanted@[i])@),
{
    let ghost orig = ms@;
    let mut r: Vec<Option<JsonValue>> = Vec::new();
    let mut k: usize = 0;
    while k < wanted.len()
        invariant
            0 <= k <= wanted@.len(),
            r@.len() == k,
            forall|i: int| 0 <= i < k ==> (#[trigger] r@[i]) is None,
        decreases wanted@.len() - k,
    {
        r.push(None);
        k += 1;
    }
    let mut rest = ms;
    while rest.len() > 0
        invariant
            r@.len() == wanted@.len(),
            forall|i: int, j: int| 0 <= i < j < wanted@.len() ==> wanted@[i]@ != wanted@[j]@,
            forall|i: int|
                0 <= i < wanted@.len() ==> lookup(orig, (#[trigger] wanted@[i])@) == (if r@[i] is Some {
                    r@[i]
                } else {
                    lookup(rest@, wanted@[i]@)
                }),
        decreases rest@.len(),
    {
        let ghost before = rest@;
        let ghost r_before = r@;
        let m = rest.remove(0);
        assert(rest@ =~= before.drop_first());
        let JsonMember { key, value } = m;
        let mut slot: usize = 0;
        let mut found = false;
        while !found && slot < wanted.len()
            invariant
                0 <= slot <= wanted@.len(),
                found ==> slot < wanted@.len() && wanted@[slot as int]@ == key@,
                forall|j: int| 0 <= j < slot ==> (#[trigger] wanted@[j])@ != key@,
            decreases wanted@.len() - slot + (if found { 0int } else { 1int }),
        {
            if str_equal(wanted[slot], key.as_str()) {
                found = true;
            } else {
                slot += 1;
            }
        }
        if found && r[slot].is_none() {
            r.set(slot, Some(value));
        }
        assert forall|i: int|
            0 <= i < wanted@.len() implies lookup(orig, (#[trigger] wanted@[i])@) == (if r@[i] is Some {
                r@[i]
            } else {
                lookup(rest@, wanted@[i]@)
            }) by {
            if i != slot || !found {
                assert(r@[i] == r_before[i]);
            }
        }
    }
    r
}

} // verus!
