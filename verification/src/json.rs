//! Flat JSON records: the members of an object as plain values, read and
//! written by `serde_json`, and verified lookups on them.

use vstd::prelude::*;

verus! {

/// What the library reads of a member's value: a text, `null`, or anything
/// else.
#[derive(Debug, PartialEq, Eq)]
pub enum JsonValue {
    Null,
    Text(String),
    Other,
}

/// The mathematical value of [`JsonValue`].
pub enum JsonValueView {
    Null,
    Text(Seq<char>),
    Other,
}

impl View for JsonValue {
    type V = JsonValueView;

    open spec fn view(&self) -> JsonValueView {
        match self {
            JsonValue::Null => JsonValueView::Null,
            JsonValue::Text(s) => JsonValueView::Text(s@),
            JsonValue::Other => JsonValueView::Other,
        }
    }
}

/// One member of a JSON object.
#[derive(Debug, PartialEq, Eq)]
pub struct Member {
    pub key: String,
    pub value: JsonValue,
}

/// The mathematical value of [`Member`].
pub struct MemberView {
    pub key: Seq<char>,
    pub value: JsonValueView,
}

impl View for Member {
    type V = MemberView;

    open spec fn view(&self) -> MemberView {
        MemberView { key: self.key@, value: self.value@ }
    }
}

/// The members of an object, each by its view.
pub open spec fn member_views(members: Seq<Member>) -> Seq<MemberView> {
    Seq::new(members.len(), |i: int| members[i]@)
}

/// The objects of a list, each by the views of its members.
pub open spec fn object_views(objects: Seq<Vec<Member>>) -> Seq<Seq<MemberView>> {
    Seq::new(objects.len(), |i: int| member_views(objects[i]@))
}

/// Key and text of each pair.
pub open spec fn pair_views(pairs: Seq<(String, String)>) -> Seq<(Seq<char>, Seq<char>)> {
    Seq::new(pairs.len(), |i: int| (pairs[i].0@, pairs[i].1@))
}

/// The value of the first member of `members` whose key is `key`.
pub open spec fn lookup(members: Seq<MemberView>, key: Seq<char>) -> Option<JsonValueView>
    decreases members.len(),
{
    if members.len() == 0 {
        None
    } else if members[0].key == key {
        Some(members[0].value)
    } else {
        lookup(members.skip(1), key)
    }
}

/// The text under `key`, where the first member of that key holds a text.
pub open spec fn text_of(members: Seq<MemberView>, key: Seq<char>) -> Option<Seq<char>> {
    match lookup(members, key) {
        Some(JsonValueView::Text(s)) => Some(s),
        _ => None,
    }
}

/// A lookup that passes a member of another key goes on in the rest.
pub proof fn lemma_lookup_skips(members: Seq<MemberView>, key: Seq<char>, upto: int)
    requires
        0 <= upto <= members.len(),
        forall|j: int| 0 <= j < upto ==> members[j].key != key,
    ensures
        lookup(members, key) == lookup(members.skip(upto), key),
    decreases upto,
{
    if upto == 0 {
        assert(members.skip(0) =~= members);
    } else {
        lemma_lookup_skips(members, key, upto - 1);
        let rest = members.skip(upto - 1);
        assert(rest[0] == members[upto - 1]);
        assert(rest.skip(1) =~= members.skip(upto));
    }
}

/// The member at `at` answers a lookup of its key where no earlier member
/// has that key.
pub proof fn lemma_lookup_at(members: Seq<MemberView>, key: Seq<char>, at: int)
    requires
        0 <= at < members.len(),
        members[at].key == key,
        forall|j: int| 0 <= j < at ==> members[j].key != key,
    ensures
        lookup(members, key) == Some(members[at].value),
{
    lemma_lookup_skips(members, key, at);
    assert(members.skip(at)[0] == members[at]);
}

/// Finds the first member of `members` whose key is `key`.
pub fn find_member<'a>(members: &'a Vec<Member>, key: &str) -> (out: Option<&'a Member>)
    ensures
        match out {
            Some(m) => lookup(member_views(members@), key@) == Some(m@.value) && m@.key == key@,
            None => lookup(member_views(members@), key@) is None,
        },
{
    let wanted = String::from_str(key);
    let ghost all = member_views(members@);
    let mut i: usize = 0;
    while i < members.len()
        invariant
            i <= members.len(),
            all == member_views(members@),
            wanted@ == key@,
            forall|j: int| 0 <= j < i ==> all[j].key != key@,
        decreases members.len() - i,
    {
        if members[i].key == wanted {
            proof {
                lemma_lookup_skips(all, key@, i as int);
                assert(all.skip(i as int)[0] == members@[i as int]@);
            }
            return Some(&members[i]);
        }
        i = i + 1;
    }
    proof {
        lemma_lookup_skips(all, key@, i as int);
    }
    None
}

/// The text that the first member of key `key` holds, if it holds one.
pub fn find_text(members: &Vec<Member>, key: &str) -> (out: Option<String>)
    ensures
        match out {
            Some(s) => text_of(member_views(members@), key@) == Some(s@),
            None => text_of(member_views(members@), key@) is None,
        },
{
    match find_member(members, key) {
        Some(m) => match &m.value {
            JsonValue::Text(s) => Some(s.clone()),
            _ => None,
        },
        None => None,
    }
}

/// The error of `serde_json`, carried as an opaque value.
#[verifier::external_type_specification]
#[verifier::external_body]
pub struct ExJsonError(serde_json::Error);

/// The members, in document order, of the JSON object that `text` spells,
/// as `serde_json::from_str` reads it into a `serde_json::Map`; `None`
/// where it refuses the text.
pub uninterp spec fn json_object(text: Seq<char>) -> Option<Seq<MemberView>>;

/// The objects of the JSON array that `bytes` spell, as
/// `serde_json::from_slice` reads it into a vector of maps; `None` where it
/// refuses the bytes.
pub uninterp spec fn json_object_list(bytes: Seq<u8>) -> Option<Seq<Seq<MemberView>>>;

/// The text that `serde_json::to_string_pretty` writes for the object whose
/// members are the given keys and texts, in this order; `None` where it
/// fails.
pub uninterp spec fn json_pretty(pairs: Seq<(Seq<char>, Seq<char>)>) -> Option<Seq<char>>;

/// Reads one JSON object with `serde_json::from_str`.
///
/// Trusted: the outcome is the one named [`json_object`], a function of
/// the text alone. Each value is handed out as a text, as `null`, or as
/// something else.
#[verifier::external_body]
pub(crate) fn parse_object(text: &str) -> (out: Result<Vec<Member>, serde_json::Error>)
    ensures
        match out {
            Ok(members) => json_object(text@) == Some(member_views(members@)),
            Err(_) => json_object(text@) is None,
        },
{
    let map: serde_json::Map<String, serde_json::Value> = serde_json::from_str(text)?;
    Ok(map.into_iter().map(|(key, v)| Member { key, value: match v {
        serde_json::Value::Null => JsonValue::Null,
        serde_json::Value::String(s) => JsonValue::Text(s),
        _ => JsonValue::Other,
    } }).collect())
}

/// Reads a JSON array of objects with `serde_json::from_slice`.
///
/// Trusted: the outcome is the one named [`json_object_list`], a function
/// of the bytes alone.
#[verifier::external_body]
pub(crate) fn parse_object_list(bytes: &[u8]) -> (out: Result<
    Vec<Vec<Member>>,
    serde_json::Error,
>)
    ensures
        match out {
            Ok(objects) => json_object_list(bytes@) == Some(object_views(objects@)),
            Err(_) => json_object_list(bytes@) is None,
        },
{
    let maps: Vec<serde_json::Map<String, serde_json::Value>> = serde_json::from_slice(bytes)?;
    Ok(maps.into_iter().map(|m| m.into_iter().map(|(key, v)| Member { key, value: match v {
        serde_json::Value::Null => JsonValue::Null,
        serde_json::Value::String(s) => JsonValue::Text(s),
        _ => JsonValue::Other,
    } }).collect()).collect())
}

/// Writes an object of text members with `serde_json::to_string_pretty`.
///
/// Trusted: the outcome is the one named [`json_pretty`], a function of
/// the keys and texts alone.
#[verifier::external_body]
pub(crate) fn render_object(pairs: &Vec<(String, String)>) -> (out: Result<
    String,
    serde_json::Error,
>)
    ensures
        match out {
            Ok(text) => json_pretty(pair_views(pairs@)) == Some(text@),
            Err(_) => json_pretty(pair_views(pairs@)) is None,
        },
{
    let map: serde_json::Map<String, serde_json::Value> = pairs.iter().map(
        |p| (p.0.clone(), serde_json::Value::String(p.1.clone())),
    ).collect();
    serde_json::to_string_pretty(&serde_json::Value::Object(map))
}

} // verus!
