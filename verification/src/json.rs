//! The values of a settings file and of the messages of the user interface.

use crate::text::{decimal, decimal_of, same};
use vstd::prelude::*;

verus! {

/// A JSON value.
///
/// A number is an `Int` where it is an integer that fits in `i64`, and is otherwise kept as its
/// JSON text in `Number`. The members of an `Object` stand in the order in which `display` writes
/// them; where two have the same name, the first one counts.
#[derive(Debug)]
pub enum Json {
    Null,
    Bool(bool),
    Int(i64),
    Number(String),
    Text(String),
    List(Vec<Json>),
    Object(Vec<(String, Json)>),
}

/// The value of the first member called `key`, or `Null` where there is none.
pub open spec fn lookup(members: Seq<(String, Json)>, key: Seq<char>) -> Json
    decreases members.len(),
{
    if members.len() == 0 {
        Json::Null
    } else if members[0].0@ == key {
        members[0].1
    } else {
        lookup(members.skip(1), key)
    }
}

/// What a string is between its quotes in JSON text: a quote, a backslash and the control
/// characters below the space are escaped.
pub open spec fn escaped_char(c: char) -> Seq<char> {
    if c == '"' {
        seq!['\\', '"']
    } else if c == '\\' {
        seq!['\\', '\\']
    } else if c == '\u{8}' {
        seq!['\\', 'b']
    } else if c == '\t' {
        seq!['\\', 't']
    } else if c == '\n' {
        seq!['\\', 'n']
    } else if c == '\u{c}' {
        seq!['\\', 'f']
    } else if c == '\r' {
        seq!['\\', 'r']
    } else if (c as int) < 16 {
        seq!['\\', 'u', '0', '0', '0', hex_digit(c as int)]
    } else if (c as int) < 32 {
        seq!['\\', 'u', '0', '0', '1', hex_digit(c as int - 16)]
    } else {
        seq![c]
    }
}

/// The hexadecimal digit `d`, in lower case.
pub open spec fn hex_digit(d: int) -> char {
    seq!['0', '1', '2', '3', '4', '5', '6', '7', '8', '9', 'a', 'b', 'c', 'd', 'e', 'f'][d]
}

/// `s` with each character escaped.
pub open spec fn escaped(s: Seq<char>) -> Seq<char>
    decreases s.len(),
{
    if s.len() == 0 {
        s
    } else {
        escaped_char(s[0]) + escaped(s.skip(1))
    }
}

/// `s` as a JSON string literal.
pub open spec fn quoted(s: Seq<char>) -> Seq<char> {
    seq!['"'] + escaped(s) + seq!['"']
}

/// The names of `members`, in order.
pub open spec fn names(members: Seq<(String, Json)>) -> Seq<Seq<char>> {
    Seq::new(members.len(), |i: int| members[i].0@)
}

impl Json {
    /// The names of the members of an object, in order.
    pub open spec fn keys(self) -> Seq<Seq<char>> {
        match self {
            Json::Object(members) => names(members@),
            _ => seq![],
        }
    }

    /// The member called `key`: `Null` where the value is no object or has no such member.
    pub open spec fn member(self, key: Seq<char>) -> Json {
        match self {
            Json::Object(members) => lookup(members@, key),
            _ => Json::Null,
        }
    }

    /// The text of a string.
    pub open spec fn text(self) -> Option<Seq<char>> {
        match self {
            Json::Text(s) => Some(s@),
            _ => None,
        }
    }

    /// The truth value of a boolean.
    pub open spec fn truth(self) -> Option<bool> {
        match self {
            Json::Bool(b) => Some(b),
            _ => None,
        }
    }

    /// The value of an integer that fits in `i64`.
    pub open spec fn integer(self) -> Option<i64> {
        match self {
            Json::Int(i) => Some(i),
            _ => None,
        }
    }

    /// The JSON text of the value, without spaces.
    pub open spec fn shown(self) -> Seq<char>
        decreases self,
    {
        match self {
            Json::Null => "null"@,
            Json::Bool(b) => if b {
                "true"@
            } else {
                "false"@
            },
            Json::Int(i) => decimal(i as int),
            Json::Number(s) => s@,
            Json::Text(s) => quoted(s@),
            Json::List(items) => "["@ + shown_items(items@, 0) + "]"@,
            Json::Object(members) => "{"@ + shown_members(members@, 0) + "}"@,
        }
    }

    /// The member called `key`.
    pub fn get(&self, key: &str) -> (r: &Json)
        ensures
            *r == self.member(key@),
    {
        match self {
            Json::Object(members) => {
                let mut i: usize = 0;
                assert(members@.skip(0) =~= members@);
                while i < members.len()
                    invariant
                        i <= members@.len(),
                        *self == Json::Object(*members),
                        lookup(members@, key@) == lookup(members@.skip(i as int), key@),
                    decreases members@.len() - i,
                {
                    if same(members[i].0.as_str(), key) {
                        return &members[i].1;
                    }
                    assert(members@.skip(i as int).skip(1) =~= members@.skip(i + 1));
                    i += 1;
                }
                &Json::Null
            },
            _ => &Json::Null,
        }
    }

    /// The text of a string.
    pub fn as_str(&self) -> (r: Option<&str>)
        ensures
            match r {
                Some(s) => self.text() == Some(s@),
                None => self.text() is None,
            },
    {
        match self {
            Json::Text(s) => Some(s.as_str()),
            _ => None,
        }
    }

    /// The truth value of a boolean.
    pub fn as_bool(&self) -> (r: Option<bool>)
        ensures
            r == self.truth(),
    {
        match self {
            Json::Bool(b) => Some(*b),
            _ => None,
        }
    }

    /// The value of an integer that fits in `i64`.
    pub fn as_i64(&self) -> (r: Option<i64>)
        ensures
            r == self.integer(),
    {
        match self {
            Json::Int(i) => Some(*i),
            _ => None,
        }
    }

    /// The JSON text of the value, without spaces.
    pub fn display(&self) -> (r: String)
        ensures
            r@ == self.shown(),
        decreases self,
    {
        match self {
            Json::Null => "null".to_owned(),
            Json::Bool(b) => if *b {
                "true".to_owned()
            } else {
                "false".to_owned()
            },
            Json::Int(i) => decimal_of(*i),
            Json::Number(s) => s.clone(),
            Json::Text(s) => string_literal(s.as_str()),
            Json::List(items) => {
                let mut r = "[".to_owned();
                let mut i: usize = 0;
                while i < items.len()
                    invariant
                        i <= items@.len(),
                        *self == Json::List(*items),
                        r@ + shown_items(items@, i as int) == "["@ + shown_items(items@, 0),
                    decreases items@.len() - i,
                {
                    let ghost before = r@;
                    assert(decreases_to!(*self => self->List_0));
                    assert(decreases_to!(*items => items@));
                    assert(decreases_to!(items@ => items@[i as int]));
                    let one = items[i].display();
                    r.append(one.as_str());
                    if i + 1 < items.len() {
                        r.append(",");
                        assert(before + (one@ + ","@ + shown_items(items@, i + 1)) =~= r@
                            + shown_items(items@, i + 1));
                    } else {
                        assert(r@ + shown_items(items@, i + 1) =~= before + one@);
                    }
                    i += 1;
                }
                assert(r@ + shown_items(items@, i as int) =~= r@);
                r.append("]");
                r
            },
            Json::Object(members) => {
                let mut r = "{".to_owned();
                let mut i: usize = 0;
                while i < members.len()
                    invariant
                        i <= members@.len(),
                        *self == Json::Object(*members),
                        r@ + shown_members(members@, i as int) == "{"@ + shown_members(
                            members@,
                            0,
                        ),
                    decreases members@.len() - i,
                {
                    let ghost before = r@;
                    let key = string_literal(members[i].0.as_str());
                    assert(decreases_to!(*self => self->Object_0));
                    assert(decreases_to!(*members => members@));
                    assert(decreases_to!(members@ => members@[i as int]));
                    assert(decreases_to!(members@[i as int] => members@[i as int].1));
                    let one = members[i].1.display();
                    r.append(key.as_str());
                    r.append(":");
                    r.append(one.as_str());
                    assert(r@ =~= before + (key@ + ":"@ + one@));
                    if i + 1 < members.len() {
                        r.append(",");
                        assert(before + (key@ + ":"@ + one@ + ","@ + shown_members(
                            members@,
                            i + 1,
                        )) =~= r@ + shown_members(members@, i + 1));
                    } else {
                        assert(r@ + shown_members(members@, i + 1) =~= before + (key@ + ":"@
                            + one@));
                    }
                    i += 1;
                }
                assert(r@ + shown_members(members@, i as int) =~= r@);
                r.append("}");
                r
            },
        }
    }
}

/// A name that comes first at index `i` has the value there.
pub proof fn first_of_its_name(members: Seq<(String, Json)>, i: int)
    requires
        0 <= i < members.len(),
        forall|j: int| 0 <= j < i ==> (#[trigger] members[j]).0@ != members[i].0@,
    ensures
        lookup(members, members[i].0@) == members[i].1,
    decreases i,
{
    if i > 0 {
        assert(members[0].0@ != members[i].0@);
        assert forall|j: int| 0 <= j < i - 1 implies (#[trigger] members.skip(1)[j]).0@
            != members.skip(1)[i - 1].0@ by {
            assert(members[j + 1].0@ != members[i].0@);
        }
        first_of_its_name(members.skip(1), i - 1);
    }
}

/// Where the first member called `key` gets a new value, every other name keeps its own.
proof fn lookup_of_others(
    members: Seq<(String, Json)>,
    i: int,
    new: (String, Json),
    other: Seq<char>,
)
    requires
        0 <= i < members.len(),
        members[i].0@ == new.0@,
        other != new.0@,
    ensures
        lookup(members.update(i, new), other) == lookup(members, other),
    decreases i,
{
    let after = members.update(i, new);
    if i > 0 {
        assert(after.skip(1) =~= members.skip(1).update(i - 1, new));
        lookup_of_others(members.skip(1), i - 1, new, other);
    } else {
        assert(after.skip(1) =~= members.skip(1));
    }
}

/// A new member at the end leaves every other name its value.
proof fn lookup_of_earlier(members: Seq<(String, Json)>, new: (String, Json), other: Seq<char>)
    requires
        other != new.0@,
    ensures
        lookup(members.push(new), other) == lookup(members, other),
    decreases members.len(),
{
    let after = members.push(new);
    if members.len() > 0 {
        assert(after.skip(1) =~= members.skip(1).push(new));
        lookup_of_earlier(members.skip(1), new, other);
    } else {
        assert(after.skip(1) =~= members);
    }
}

/// Sets the member called `key`: it gets the new value in its place, or comes at the end.
pub fn put(members: &mut Vec<(String, Json)>, key: String, value: Json)
    ensures
        lookup(final(members)@, key@) == value,
        forall|other: Seq<char>|
            other != key@ ==> #[trigger] lookup(final(members)@, other) == lookup(
                old(members)@,
                other,
            ),
        names(final(members)@) == if names(old(members)@).contains(key@) {
            names(old(members)@)
        } else {
            names(old(members)@).push(key@)
        },
{
    let ghost before = members@;
    let ghost new = (key, value);
    let mut i: usize = 0;
    while i < members.len()
        invariant
            i <= members@.len(),
            members@ == before,
            before == old(members)@,
            new == (key, value),
            forall|j: int| 0 <= j < i ==> (#[trigger] before[j]).0@ != key@,
        decreases members@.len() - i,
    {
        if same(members[i].0.as_str(), key.as_str()) {
            members.set(i, (key, value));
            proof {
                first_of_its_name(members@, i as int);
                assert(names(before)[i as int] == key@);
                assert(names(members@) =~= names(before));
                assert forall|other: Seq<char>| other != key@ implies #[trigger] lookup(
                    members@,
                    other,
                ) == lookup(before, other) by {
                    lookup_of_others(before, i as int, new, other);
                }
            }
            return ;
        }
        i += 1;
    }
    members.push((key, value));
    proof {
        first_of_its_name(members@, before.len() as int);
        assert(names(members@) =~= names(before).push(key@));
        assert(!names(before).contains(key@)) by {
            assert forall|j: int| 0 <= j < names(before).len() implies names(before)[j]
                != key@ by {
                assert(before[j].0@ != key@);
            }
        }
        assert forall|other: Seq<char>| other != key@ implies #[trigger] lookup(members@, other)
            == lookup(before, other) by {
            lookup_of_earlier(before, new, other);
        }
    }
}

/// The JSON text of a string, as `Display` of `serde_json::Value` writes it: the escaped
/// characters between two quotes.
#[verifier::external_body]
fn string_literal(s: &str) -> (r: String)
    ensures
        r@ == quoted(s@),
{
    serde_json::Value::String(s.to_owned()).to_string()
}

/// The JSON texts of `items` from index `from` on, with commas between them.
pub open spec fn shown_items(items: Seq<Json>, from: int) -> Seq<char>
    decreases items, items.len() - from,
{
    if from < 0 || from >= items.len() {
        seq![]
    } else if from == items.len() - 1 {
        items[from].shown()
    } else {
        items[from].shown() + ","@ + shown_items(items, from + 1)
    }
}

/// The JSON texts of `members` from index `from` on, with commas between them.
pub open spec fn shown_members(members: Seq<(String, Json)>, from: int) -> Seq<char>
    decreases members, members.len() - from,
{
    if from < 0 || from >= members.len() {
        seq![]
    } else {
        let one = quoted(members[from].0@) + ":"@ + members[from].1.shown();
        if from == members.len() - 1 {
            one
        } else {
            one + ","@ + shown_members(members, from + 1)
        }
    }
}

} // verus!
