//! Laws on JSON values.

use crate::json::{escaped, lookup, quoted, shown_items, shown_members, Json};
use crate::text::decimal;
use vstd::prelude::*;

verus! {

/// A value is read as what it holds, and as nothing else.
pub proof fn a_value_is_read_as_what_it_holds(b: bool, i: i64, s: String, list: Vec<Json>)
    ensures
        Json::Bool(b).truth() == Some(b) && Json::Bool(b).integer() is None && Json::Bool(b).text()
            is None,
        Json::Int(i).integer() == Some(i) && Json::Int(i).truth() is None && Json::Int(i).text()
            is None,
        Json::Text(s).text() == Some(s@) && Json::Text(s).truth() is None && Json::Text(s).integer()
            is None,
        Json::Number(s).integer() is None && Json::Number(s).truth() is None && Json::Number(
            s,
        ).text() is None,
        Json::Null.integer() is None && Json::Null.truth() is None && Json::Null.text() is None,
        Json::List(list).integer() is None && Json::List(list).truth() is None && Json::List(
            list,
        ).text() is None,
{
}

/// A member is found exactly where its name is: no name gives `Null`, and a name gives the value
/// that stands with it first.
pub proof fn a_member_is_found_by_its_name(members: Seq<(String, Json)>, key: Seq<char>)
    ensures
        (forall|i: int| 0 <= i < members.len() ==> (#[trigger] members[i]).0@ != key) ==> lookup(
            members,
            key,
        ) == Json::Null,
        forall|i: int|
            0 <= i < members.len() && (#[trigger] members[i]).0@ == key && (forall|j: int|
                0 <= j < i ==> (#[trigger] members[j]).0@ != key) ==> lookup(members, key)
                == members[i].1,
    decreases members.len(),
{
    if members.len() > 0 {
        let rest = members.skip(1);
        a_member_is_found_by_its_name(rest, key);
        if forall|i: int| 0 <= i < members.len() ==> (#[trigger] members[i]).0@ != key {
            assert(members[0].0@ != key);
            assert forall|i: int| 0 <= i < rest.len() implies (#[trigger] rest[i]).0@ != key by {
                assert(members[i + 1].0@ != key);
            }
        }
        assert forall|i: int|
            0 <= i < members.len() && (#[trigger] members[i]).0@ == key && (forall|j: int|
                0 <= j < i ==> (#[trigger] members[j]).0@ != key) implies lookup(members, key)
            == members[i].1 by {
            if i > 0 {
                assert(members[0].0@ != key);
                assert(rest[i - 1].0@ == key);
                assert forall|j: int| 0 <= j < i - 1 implies (#[trigger] rest[j]).0@ != key by {
                    assert(members[j + 1].0@ != key);
                }
            }
        }
    }
}

/// The text of a list is that of its items with commas between them: a further item comes behind a
/// comma.
pub proof fn items_are_shown_behind_commas(items: Seq<Json>, from: int, item: Json)
    requires
        0 <= from < items.len(),
    ensures
        shown_items(items.push(item), from) == shown_items(items, from) + ","@ + item.shown(),
        shown_items(seq![item], 0) == item.shown(),
    decreases items.len() - from,
{
    let more = items.push(item);
    if from == items.len() - 1 {
        assert(shown_items(more, from + 1) == item.shown());
        assert(shown_items(more, from) =~= shown_items(items, from) + ","@ + item.shown());
    } else {
        items_are_shown_behind_commas(items, from + 1, item);
        assert(shown_items(more, from) =~= shown_items(items, from) + ","@ + item.shown());
    }
}

/// The text of an object is that of its members with commas between them: a further member comes
/// behind a comma.
pub proof fn members_are_shown_behind_commas(
    members: Seq<(String, Json)>,
    from: int,
    member: (String, Json),
)
    requires
        0 <= from < members.len(),
    ensures
        shown_members(members.push(member), from) == shown_members(members, from) + ","@
            + shown_members(seq![member], 0),
    decreases members.len() - from,
{
    let more = members.push(member);
    if from == members.len() - 1 {
        assert(shown_members(more, from + 1) == shown_members(seq![member], 0));
        assert(shown_members(more, from) =~= shown_members(members, from) + ","@ + shown_members(
            seq![member],
            0,
        ));
    } else {
        members_are_shown_behind_commas(members, from + 1, member);
        assert(shown_members(more, from) =~= shown_members(members, from) + ","@ + shown_members(
            seq![member],
            0,
        ));
    }
}

/// A member of an object is looked up among its members, and no other value has members.
pub proof fn only_objects_have_members(members: Vec<(String, Json)>, other: Json, key: Seq<char>)
    requires
        !(other is Object),
    ensures
        Json::Object(members).member(key) == lookup(members@, key),
        other.member(key) == Json::Null,
        other.keys().len() == 0,
        Json::Object(members).keys().len() == members@.len(),
        forall|i: int|
            0 <= i < members@.len() ==> #[trigger] Json::Object(members).keys()[i]
                == members@[i].0@,
{
}

/// Strings are escaped character by character, and a character that is no quote, no backslash and no
/// control character stays.
pub proof fn strings_are_escaped_character_by_character(a: Seq<char>, b: Seq<char>)
    ensures
        escaped(a + b) == escaped(a) + escaped(b),
        (forall|i: int| 0 <= i < a.len() ==> a[i] as int >= 32 && a[i] != '"' && a[i] != '\\')
            ==> escaped(a) == a,
        quoted(a) == seq!['"'] + escaped(a) + seq!['"'],
    decreases a.len(),
{
    if a.len() == 0 {
        assert(a + b =~= b);
        assert(escaped(a) + escaped(b) =~= escaped(b));
    } else {
        let rest = a.skip(1);
        strings_are_escaped_character_by_character(rest, b);
        assert((a + b).skip(1) =~= rest + b);
        assert(escaped(a + b) =~= escaped(a) + escaped(b));
        if forall|i: int| 0 <= i < a.len() ==> a[i] as int >= 32 && a[i] != '"' && a[i] != '\\' {
            assert forall|i: int| 0 <= i < rest.len() implies rest[i] as int >= 32 && rest[i] != '"'
                && rest[i] != '\\' by {
                assert(a[i + 1] as int >= 32);
            }
            assert(a[0] as int >= 32);
            assert(seq![a[0]] + rest =~= a);
        }
    }
}

/// A value is shown by its own text: a number by its digits, a string between quotes, and a list or
/// an object between brackets around what it holds.
pub proof fn a_value_is_shown_by_its_own_text(
    b: bool,
    i: i64,
    s: String,
    list: Vec<Json>,
    members: Vec<(String, Json)>,
)
    ensures
        Json::Null.shown() == "null"@,
        Json::Bool(b).shown() == if b {
            "true"@
        } else {
            "false"@
        },
        Json::Int(i).shown() == decimal(i as int),
        Json::Number(s).shown() == s@,
        Json::Text(s).shown() == quoted(s@),
        Json::List(list).shown() == "["@ + shown_items(list@, 0) + "]"@,
        Json::Object(members).shown() == "{"@ + shown_members(members@, 0) + "}"@,
{
}

} // verus!
