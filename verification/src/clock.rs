//! The local time, as it is written into files.

use crate::grammar::ascii_digit;
use crate::text::{replace, replaced};
use vstd::prelude::*;

verus! {

/// The time of an event.
pub const EVENT_TIME: &'static str = "%Y/%m/%d %H:%M";

/// The time of a backup.
pub const BACKUP_TIME: &'static str = "%Y-%m-%d_%H-%M-%S";

/// Whether a number from `low` to `high` stands in `s` at index `at`, with two digits.
pub open spec fn two_digits(s: Seq<char>, at: int, low: int, high: int) -> bool {
    &&& ascii_digit(s[at]) && ascii_digit(s[at + 1])
    &&& low <= (s[at] as int - '0' as int) * 10 + (s[at + 1] as int - '0' as int) <= high
}

/// Whether the first `n` characters of `s` are a year: four digits, or a sign and at least four
/// digits.
pub open spec fn year(s: Seq<char>, n: int) -> bool {
    &&& n >= 4
    &&& if n == 4 {
        ascii_digit(s[0])
    } else {
        s[0] == '+' || s[0] == '-'
    }
    &&& forall|i: int| 1 <= i < n ==> ascii_digit(#[trigger] s[i])
}

/// Whether `s` is a time of an event, such as `2024/01/31 20:15`.
pub open spec fn is_event_time(s: Seq<char>) -> bool {
    let n = s.len() - 12;
    &&& year(s, n)
    &&& s[n] == '/' && two_digits(s, n + 1, 1, 12)
    &&& s[n + 3] == '/' && two_digits(s, n + 4, 1, 31)
    &&& s[n + 6] == ' ' && two_digits(s, n + 7, 0, 23)
    &&& s[n + 9] == ':' && two_digits(s, n + 10, 0, 59)
}

/// Whether `s` is a time of a backup, such as `2024-01-31_20-15-59`. A leap second is the second 60.
pub open spec fn is_backup_time(s: Seq<char>) -> bool {
    let n = s.len() - 15;
    &&& year(s, n)
    &&& s[n] == '-' && two_digits(s, n + 1, 1, 12)
    &&& s[n + 3] == '-' && two_digits(s, n + 4, 1, 31)
    &&& s[n + 6] == '_' && two_digits(s, n + 7, 0, 23)
    &&& s[n + 9] == '-' && two_digits(s, n + 10, 0, 59)
    &&& s[n + 12] == '-' && two_digits(s, n + 13, 0, 60)
}

/// `Local::now` and `DateTime::format` of `chrono`: the local time, with a year of four digits or
/// with a sign, and two digits for each of the other fields, which are in their ranges. Which time it
/// is, is left open.
#[verifier::external_body]
fn local_time(format: &str) -> (s: String)
    requires
        format@ == EVENT_TIME@ || format@ == BACKUP_TIME@,
    ensures
        format@ == EVENT_TIME@ ==> is_event_time(s@),
        format@ == BACKUP_TIME@ ==> is_backup_time(s@),
{
    chrono::Local::now().format(format).to_string()
}

/// The local time for an event.
pub fn event_time() -> (s: String)
    ensures
        is_event_time(s@),
{
    local_time(EVENT_TIME)
}

/// A text without quotes stays as it is where quotes are taken out.
proof fn no_quote_to_take_out(s: Seq<char>)
    requires
        forall|i: int| 0 <= i < s.len() ==> s[i] != '"',
    ensures
        replaced(s, "\""@, ""@) == s,
    decreases s.len(),
{
    reveal_strlit("\"");
    if s.len() > 0 {
        no_quote_to_take_out(s.skip(1));
        assert(s.take(1)[0] == s[0]);
        assert(seq![s[0]] + s.skip(1) =~= s);
    }
}

/// The time of an event holds no quote.
pub proof fn event_time_has_no_quote(s: Seq<char>)
    requires
        is_event_time(s),
    ensures
        replaced(s, "\""@, ""@) == s,
{
    let n = s.len() - 12;
    assert forall|i: int| 0 <= i < s.len() implies s[i] != '"' by {
        if 1 <= i < n {
            assert(ascii_digit(s[i]));
        }
    }
    no_quote_to_take_out(s);
}

/// The name of a backup that is made now.
pub fn backup_name() -> (s: String)
    ensures
        is_backup_time(s@),
{
    let time = local_time(BACKUP_TIME);
    proof {
        reveal_strlit("\"");
        let n = time@.len() - 15;
        assert forall|i: int| 0 <= i < time@.len() implies time@[i] != '"' by {
            if 1 <= i < n {
                assert(ascii_digit(time@[i]));
            }
        }
        no_quote_to_take_out(time@);
    }
    replace(time.as_str(), "\"", "")
}

} // verus!
