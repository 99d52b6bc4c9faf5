//! The lines in which the game notes its events.
//!
//! A line is a time in square brackets, what happened, and in round brackets the quoted name of the
//! demo and the tick: `[2024/01/31 20:15] Killstreak 5 ("match" at 1200)`.

use vstd::prelude::*;

verus! {

/// The lines of events, as a regular expression. Its groups are the time, what happened, the demo
/// and the tick.
pub const EVENT_PATTERN: &'static str = "\\[(.*)\\] (.*) \\(\"(.*)\" at (\\d*)\\)";

/// The parts of a line.
#[derive(Debug)]
pub struct EventCapture {
    pub whole: String,
    pub stamp: String,
    pub value: String,
    pub demo_name: String,
    pub tick: String,
}

/// The parts of a line.
pub struct CaptureView {
    pub whole: Seq<char>,
    pub stamp: Seq<char>,
    pub value: Seq<char>,
    pub demo_name: Seq<char>,
    pub tick: Seq<char>,
}

impl View for EventCapture {
    type V = CaptureView;

    open spec fn view(&self) -> CaptureView {
        CaptureView {
            whole: self.whole@,
            stamp: self.stamp@,
            value: self.value@,
            demo_name: self.demo_name@,
            tick: self.tick@,
        }
    }
}

/// The line with these parts.
pub open spec fn event_line(
    stamp: Seq<char>,
    value: Seq<char>,
    demo_name: Seq<char>,
    tick: Seq<char>,
) -> Seq<char> {
    "["@ + stamp + "] "@ + value + " (\""@ + demo_name + "\" at "@ + tick + ")"@
}

/// Where the parts of a match stand in a text: the index of its first character, and for each part
/// the index after its last one.
pub struct Span {
    pub start: int,
    pub stamp_end: int,
    pub value_end: int,
    pub demo_end: int,
    pub tick_end: int,
}

/// Whether the character `c` beyond ASCII is a decimal number in the Unicode tables of the `regex`
/// crate.
pub uninterp spec fn decimal_number(c: char) -> bool;

/// Whether `c` is an ASCII digit.
pub open spec fn ascii_digit(c: char) -> bool {
    '0' as int <= c as int <= '9' as int
}

/// Whether `c` is a decimal digit of any script.
pub open spec fn is_digit(c: char) -> bool {
    ascii_digit(c) || (c as int >= 128 && decimal_number(c))
}

/// Whether no line ends in `s` between the indices `from` and `to`.
pub open spec fn on_line(s: Seq<char>, from: int, to: int) -> bool {
    forall|i: int| from <= i < to ==> s[i] != '\n'
}

/// Whether a line of an event stands in `s` at `m`.
#[verifier::opaque]
pub open spec fn is_match(s: Seq<char>, m: Span) -> bool {
    &&& 0 <= m.start < m.stamp_end
    &&& m.stamp_end + 2 <= m.value_end
    &&& m.value_end + 3 <= m.demo_end
    &&& m.demo_end + 5 <= m.tick_end < s.len()
    &&& s[m.start] == '['
    &&& on_line(s, m.start + 1, m.stamp_end)
    &&& s[m.stamp_end] == ']' && s[m.stamp_end + 1] == ' '
    &&& on_line(s, m.stamp_end + 2, m.value_end)
    &&& s[m.value_end] == ' ' && s[m.value_end + 1] == '(' && s[m.value_end + 2] == '"'
    &&& on_line(s, m.value_end + 3, m.demo_end)
    &&& s[m.demo_end] == '"' && s[m.demo_end + 1] == ' ' && s[m.demo_end + 2] == 'a' && s[m.demo_end
        + 3] == 't' && s[m.demo_end + 4] == ' '
    &&& forall|i: int| m.demo_end + 5 <= i < m.tick_end ==> is_digit(s[i])
    &&& s[m.tick_end] == ')'
}

/// Whether the match `a` comes before `b` or is the same: it starts further to the left, or at the
/// same place with a longer part, where an earlier part decides before a later one.
pub open spec fn no_later(a: Span, b: Span) -> bool {
    if a.start != b.start {
        a.start < b.start
    } else if a.stamp_end != b.stamp_end {
        a.stamp_end > b.stamp_end
    } else if a.value_end != b.value_end {
        a.value_end > b.value_end
    } else if a.demo_end != b.demo_end {
        a.demo_end > b.demo_end
    } else {
        a.tick_end >= b.tick_end
    }
}

/// Whether `m` is the match in `s` that comes before all others.
pub open spec fn is_first(s: Seq<char>, m: Span) -> bool {
    &&& is_match(s, m)
    &&& forall|other: Span| #[trigger] is_match(s, other) ==> no_later(m, other)
}

/// The first match in `s`.
pub open spec fn first_match(s: Seq<char>) -> Option<Span> {
    if exists|m: Span| is_match(s, m) {
        Some(choose|m: Span| is_first(s, m))
    } else {
        None
    }
}

/// The parts of the line that stands in `s` at `m`.
pub open spec fn parts(s: Seq<char>, m: Span) -> CaptureView {
    CaptureView {
        whole: s.subrange(m.start, m.tick_end + 1),
        stamp: s.subrange(m.start + 1, m.stamp_end),
        value: s.subrange(m.stamp_end + 2, m.value_end),
        demo_name: s.subrange(m.value_end + 3, m.demo_end),
        tick: s.subrange(m.demo_end + 5, m.tick_end),
    }
}

/// The parts of the first line of an event in `s`.
pub open spec fn first_capture(s: Seq<char>) -> Option<CaptureView> {
    match first_match(s) {
        Some(m) => Some(parts(s, m)),
        None => None,
    }
}

/// The parts of the lines of events in `s`: of the first one, and of those after it.
pub open spec fn all_captures(s: Seq<char>) -> Seq<CaptureView>
    decreases s.len(),
{
    match first_match(s) {
        Some(m) if 0 <= m.tick_end < s.len() => seq![parts(s, m)] + all_captures(
            s.skip(m.tick_end + 1),
        ),
        _ => seq![],
    }
}

/// The views of `captures`.
pub open spec fn capture_views(captures: Seq<EventCapture>) -> Seq<CaptureView> {
    Seq::new(captures.len(), |i: int| captures[i]@)
}

/// `Regex::captures` for the lines of events: the leftmost match, with each repeated part, from the
/// first to the last, as long as it can be.
#[verifier::external_body]
fn regex_captures(pattern: &str, text: &str) -> (r: Option<EventCapture>)
    requires
        pattern@ == EVENT_PATTERN@,
    ensures
        match r {
            Some(c) => first_capture(text@) == Some(c@),
            None => first_capture(text@) is None,
        },
        r matches Some(c) ==> forall|i: int|
            0 <= i < c.tick@.len() ==> ascii_digit(c.tick@[i]) || decimal_number(c.tick@[i]),
{
    regex::Regex::new(pattern).unwrap().captures(text).map(
        |c| EventCapture {
            whole: c[0].to_owned(),
            stamp: c[1].to_owned(),
            value: c[2].to_owned(),
            demo_name: c[3].to_owned(),
            tick: c[4].to_owned(),
        },
    )
}

/// `Regex::captures_iter` for the lines of events: the match that `Regex::captures` finds, and then
/// those in the text behind it.
#[verifier::external_body]
fn regex_captures_iter(pattern: &str, text: &str) -> (r: Vec<EventCapture>)
    requires
        pattern@ == EVENT_PATTERN@,
    ensures
        capture_views(r@) == all_captures(text@),
{
    regex::Regex::new(pattern).unwrap().captures_iter(text).map(
        |c| EventCapture {
            whole: c[0].to_owned(),
            stamp: c[1].to_owned(),
            value: c[2].to_owned(),
            demo_name: c[3].to_owned(),
            tick: c[4].to_owned(),
        },
    ).collect()
}

/// The parts of the first line of an event in `text`.
pub fn capture(text: &str) -> (r: Option<EventCapture>)
    ensures
        match r {
            Some(c) => first_capture(text@) == Some(c@),
            None => first_capture(text@) is None,
        },
{
    regex_captures(EVENT_PATTERN, text)
}

/// The parts of all lines of events in `text`, in order.
pub fn captures(text: &str) -> (r: Vec<EventCapture>)
    ensures
        capture_views(r@) == all_captures(text@),
{
    regex_captures_iter(EVENT_PATTERN, text)
}

} // verus!
