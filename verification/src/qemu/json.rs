//! JSON values held as JSON text, taken apart and written by `serde_json`.

use vstd::prelude::*;

use crate::text;

verus! {

/// The names and the JSON texts of the members that `serde_json` finds in a text, if the text
/// is a JSON object.
pub uninterp spec fn json_members(text: Seq<char>) -> Option<Seq<(Seq<char>, Seq<char>)>>;

/// The string that `serde_json` finds in a text, if the text is a JSON string.
pub uninterp spec fn json_string(text: Seq<char>) -> Option<Seq<char>>;

/// The number that `serde_json` finds in a text, if the text is a JSON integer in the range
/// of `u64`.
pub uninterp spec fn json_u64(text: Seq<char>) -> Option<u64>;

/// The JSON string that `serde_json` writes for a text.
pub uninterp spec fn json_quoted(text: Seq<char>) -> Seq<char>;

/// The texts of pairs of strings.
pub open spec fn pairs_text(v: Seq<(String, String)>) -> Seq<(Seq<char>, Seq<char>)> {
    v.map_values(|p: (String, String)| (p.0@, p.1@))
}

/// The texts of pairs of strings, where there are any.
pub open spec fn members_text(v: Option<Vec<(String, String)>>) -> Option<
    Seq<(Seq<char>, Seq<char>)>,
> {
    match v {
        Some(v) => Some(pairs_text(v@)),
        None => None,
    }
}

/// `serde_json::from_str` to a `Value`, and the members of the object it holds. Trusted to
/// depend on the text alone.
#[verifier::external_body]
pub(crate) fn object_members(text: &str) -> (r: Option<Vec<(String, String)>>)
    ensures
        members_text(r) == json_members(text@),
{
    match serde_json::from_str::<serde_json::Value>(text) {
        Ok(serde_json::Value::Object(map)) => {
            Some(map.into_iter().map(|(name, value)| (name, value.to_string())).collect())
        },
        _ => None,
    }
}

/// `serde_json::from_str` to a `Value`, and the string it holds. Trusted to depend on the text
/// alone.
#[verifier::external_body]
pub(crate) fn string_value(text: &str) -> (r: Option<String>)
    ensures
        text::string_of(r) == json_string(text@),
{
    match serde_json::from_str::<serde_json::Value>(text) {
        Ok(serde_json::Value::String(s)) => Some(s),
        _ => None,
    }
}

/// `serde_json::from_str` to a `Value`, and its `as_u64`. Trusted to depend on the text alone.
#[verifier::external_body]
pub(crate) fn u64_value(text: &str) -> (r: Option<u64>)
    ensures
        r == json_u64(text@),
{
    match serde_json::from_str::<serde_json::Value>(text) {
        Ok(value) => value.as_u64(),
        Err(_) => None,
    }
}

/// The text that `serde_json` writes for a `Value` that is a string. Trusted to depend on the
/// text alone, to read back as that text, and to stand on one line, since control characters
/// are escaped.
#[verifier::external_body]
pub(crate) fn quote(s: &str) -> (r: String)
    ensures
        r@ == json_quoted(s@),
        json_string(r@) == Some(s@),
        !r@.contains('\n'),
{
    serde_json::Value::String(s.to_string()).to_string()
}

/// The JSON text of the member called `name`.
pub open spec fn member(members: Seq<(Seq<char>, Seq<char>)>, name: Seq<char>) -> Option<Seq<char>>
    decreases members.len(),
{
    if members.len() == 0 {
        None
    } else if members[0].0 == name {
        Some(members[0].1)
    } else {
        member(members.skip(1), name)
    }
}

/// The JSON text of the member called `name` of a JSON text, if it is an object with one.
pub open spec fn member_in(text: Seq<char>, name: Seq<char>) -> Option<Seq<char>> {
    match json_members(text) {
        Some(members) => member(members, name),
        None => None,
    }
}

/// The JSON text of the member called `name`.
pub fn get<'a>(members: &'a Vec<(String, String)>, name: &str) -> (r: Option<&'a str>)
    ensures
        text::text_of(r) == member(pairs_text(members@), name@),
{
    let mut i: usize = 0;
    let ghost all = pairs_text(members@);
    assert(all.skip(0) =~= all);
    while i < members.len()
        invariant
            all == pairs_text(members@),
            i <= members.len(),
            member(all.skip(i as int), name@) == member(all, name@),
        decreases members.len() - i,
    {
        assert(all.skip(i as int).skip(1) =~= all.skip(i + 1));
        assert(all.skip(i as int)[0] == all[i as int]);
        if text::str_eq(members[i].0.as_str(), name) {
            return Some(members[i].1.as_str());
        }
        i = i + 1;
    }
    None
}

/// The JSON text of the member called `name` of a JSON text, if it is an object with one.
pub fn get_in(text: &str, name: &str) -> (r: Option<String>)
    ensures
        text::string_of(r) == member_in(text@, name@),
{
    match object_members(text) {
        Some(members) => match get(&members, name) {
            Some(value) => Some(value.to_string()),
            None => None,
        },
        None => None,
    }
}

/// The string member called `name` of a JSON text.
pub open spec fn string_in(text: Seq<char>, name: Seq<char>) -> Option<Seq<char>> {
    match member_in(text, name) {
        Some(value) => json_string(value),
        None => None,
    }
}

/// The string member called `name` of a JSON text.
pub fn get_string(text: &str, name: &str) -> (r: Option<String>)
    ensures
        text::string_of(r) == string_in(text@, name@),
{
    match get_in(text, name) {
        Some(value) => string_value(value.as_str()),
        None => None,
    }
}

/// A member is looked up by its name: the first that has it, wherever it stands, with its value.
pub proof fn members_are_looked_up_by_name(
    members: Seq<(Seq<char>, Seq<char>)>,
    name: Seq<char>,
    k: int,
)
    ensures
        member(members, name) is None <==> forall|i: int|
            0 <= i < members.len() ==> (#[trigger] members[i]).0 != name,
        0 <= k < members.len() && members[k].0 == name && (forall|i: int|
            0 <= i < k ==> (#[trigger] members[i]).0 != name) ==> member(members, name) == Some(
            members[k].1,
        ),
    decreases members.len(),
{
    if members.len() > 0 {
        let rest = members.skip(1);
        members_are_looked_up_by_name(rest, name, k - 1);
        if forall|i: int| 0 <= i < members.len() ==> (#[trigger] members[i]).0 != name {
            assert(members[0].0 != name);
            assert forall|i: int| 0 <= i < rest.len() implies (#[trigger] rest[i]).0 != name by {
                assert(rest[i] == members[i + 1]);
            }
        }
        if member(members, name) is None {
            assert forall|i: int| 0 <= i < members.len() implies (#[trigger] members[i]).0
                != name by {
                if i > 0 {
                    assert(rest[i - 1].0 != name);
                }
            }
        }
        if 0 < k < members.len() && members[k].0 == name && (forall|i: int|
            0 <= i < k ==> (#[trigger] members[i]).0 != name) {
            assert(members[0].0 != name);
            assert(rest[k - 1] == members[k]);
            assert forall|i: int| 0 <= i < k - 1 implies (#[trigger] rest[i]).0 != name by {
                assert(rest[i] == members[i + 1]);
            }
        }
    }
}

/// What is said of an object is all of its members, in order, each with its name and its value;
/// a member of a text is one of the object that the text is, and its string the one that it is.
pub proof fn objects_are_seen_whole(
    v: Option<Vec<(String, String)>>,
    text: Seq<char>,
    name: Seq<char>,
    i: int,
)
    ensures
        members_text(v) is Some <==> v is Some,
        v matches Some(w) ==> members_text(v)->0.len() == w@.len(),
        v matches Some(w) ==> 0 <= i < w@.len() ==> members_text(v)->0[i].0 == w@[i].0@
            && members_text(v)->0[i].1 == w@[i].1@,
        json_members(text) is None ==> member_in(text, name) is None,
        json_members(text) matches Some(m) ==> member_in(text, name) == member(m, name),
        member_in(text, name) is None ==> string_in(text, name) is None,
        member_in(text, name) matches Some(value) ==> string_in(text, name) == json_string(value),
{
}

} // verus!
