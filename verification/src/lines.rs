//! What reading gives back of the lines that were written.

use crate::grammar::{
    all_captures, ascii_digit, first_capture, first_match, is_digit, is_first, is_match, no_later,
    on_line, parts, CaptureView, Span,
};
use crate::grammar::event_line;
use crate::text::{decimal, digit, digits};
use vstd::prelude::*;

verus! {

/// Of the integers from `low` to below `high` that have a property, one is the largest.
proof fn largest(p: spec_fn(int) -> bool, low: int, high: int) -> (r: int)
    requires
        exists|i: int| low <= i < high && #[trigger] p(i),
    ensures
        low <= r < high,
        p(r),
        forall|i: int| low <= i < high && #[trigger] p(i) ==> i <= r,
    decreases high - low,
{
    if p(high - 1) {
        high - 1
    } else {
        largest(p, low, high - 1)
    }
}

/// The order of the parts of a match.
proof fn match_bounds(s: Seq<char>, m: Span)
    requires
        is_match(s, m),
    ensures
        0 <= m.start < m.stamp_end,
        m.stamp_end + 2 <= m.value_end,
        m.value_end + 3 <= m.demo_end,
        m.demo_end + 5 <= m.tick_end < s.len(),
{
    reveal(is_match);
}

/// Where there is a match, there is one that comes before all others.
proof fn first_match_exists(s: Seq<char>)
    requires
        exists|m: Span| is_match(s, m),
    ensures
        exists|m: Span| is_first(s, m),
{
    let any = choose|m: Span| is_match(s, m);
    assert forall|m: Span| #[trigger] is_match(s, m) implies 0 <= m.start < m.stamp_end
        < m.value_end < m.demo_end < m.tick_end < s.len() by {
        match_bounds(s, m);
    }
    let n = s.len() as int;
    let starts = |k: int| exists|m: Span| #[trigger] is_match(s, m) && m.start == -k;
    assert(starts(-any.start));
    let start = -largest(starts, -n, 1);
    let m0 = choose|m: Span| #[trigger] is_match(s, m) && m.start == start;
    let stamps = |k: int|
        exists|m: Span| #[trigger] is_match(s, m) && m.start == start && m.stamp_end == k;
    assert(stamps(m0.stamp_end));
    let stamp_end = largest(stamps, 0, n);
    let m1 = choose|m: Span| #[trigger]
        is_match(s, m) && m.start == start && m.stamp_end == stamp_end;
    let values = |k: int|
        exists|m: Span| #[trigger]
            is_match(s, m) && m.start == start && m.stamp_end == stamp_end && m.value_end == k;
    assert(values(m1.value_end));
    let value_end = largest(values, 0, n);
    let m2 = choose|m: Span| #[trigger]
        is_match(s, m) && m.start == start && m.stamp_end == stamp_end && m.value_end == value_end;
    let demos = |k: int|
        exists|m: Span| #[trigger]
            is_match(s, m) && m.start == start && m.stamp_end == stamp_end && m.value_end
                == value_end && m.demo_end == k;
    assert(demos(m2.demo_end));
    let demo_end = largest(demos, 0, n);
    let m3 = choose|m: Span| #[trigger]
        is_match(s, m) && m.start == start && m.stamp_end == stamp_end && m.value_end == value_end
            && m.demo_end == demo_end;
    let ticks = |k: int|
        exists|m: Span| #[trigger]
            is_match(s, m) && m.start == start && m.stamp_end == stamp_end && m.value_end
                == value_end && m.demo_end == demo_end && m.tick_end == k;
    assert(ticks(m3.tick_end));
    let tick_end = largest(ticks, 0, n);
    let first = Span { start, stamp_end, value_end, demo_end, tick_end };
    assert(is_match(s, first)) by {
        let m4 = choose|m: Span| #[trigger]
            is_match(s, m) && m.start == start && m.stamp_end == stamp_end && m.value_end
                == value_end && m.demo_end == demo_end && m.tick_end == tick_end;
        assert(m4 == first);
    }
    assert forall|other: Span| #[trigger] is_match(s, other) implies no_later(first, other) by {
        assert(starts(-other.start));
        if other.start == start {
            assert(stamps(other.stamp_end));
            if other.stamp_end == stamp_end {
                assert(values(other.value_end));
                if other.value_end == value_end {
                    assert(demos(other.demo_end));
                    if other.demo_end == demo_end {
                        assert(ticks(other.tick_end));
                    }
                }
            }
        }
    }
    assert(is_first(s, first));
}

/// A match that comes before all others is the first match.
proof fn first_match_is(s: Seq<char>, m: Span)
    requires
        is_first(s, m),
    ensures
        first_match(s) == Some(m),
{
    let chosen = choose|other: Span| is_first(s, other);
    assert(is_first(s, chosen));
    assert(no_later(m, chosen) && no_later(chosen, m));
    assert(chosen == m);
}

/// The first match, where there is one, comes before all others.
proof fn first_match_is_first(s: Seq<char>)
    ensures
        match first_match(s) {
            Some(m) => is_first(s, m),
            None => forall|m: Span| !is_match(s, m),
        },
{
    if exists|m: Span| is_match(s, m) {
        first_match_exists(s);
    }
}

/// `m`, `by` characters further on.
spec fn shifted(m: Span, by: int) -> Span {
    Span {
        start: m.start + by,
        stamp_end: m.stamp_end + by,
        value_end: m.value_end + by,
        demo_end: m.demo_end + by,
        tick_end: m.tick_end + by,
    }
}

/// A match holds no end of a line.
proof fn match_is_on_one_line(s: Seq<char>, m: Span)
    requires
        is_match(s, m),
    ensures
        on_line(s, m.start, m.tick_end + 1),
{
    reveal(is_match);
    assert forall|i: int| m.start <= i < m.tick_end + 1 implies s[i] != '\n' by {
        if m.demo_end + 5 <= i < m.tick_end {
            assert(is_digit(s[i]));
        }
    }
}

/// A match in `s` is one in every text that holds the same characters `by` characters further on,
/// with the same parts.
proof fn match_moves(s: Seq<char>, t: Seq<char>, m: Span, by: int)
    requires
        is_match(s, m),
        0 <= m.start + by,
        m.tick_end + by < t.len(),
        forall|i: int| m.start <= i <= m.tick_end ==> #[trigger] s[i] == t[i + by],
    ensures
        is_match(t, shifted(m, by)),
        parts(t, shifted(m, by)) == parts(s, m),
{
    let there = shifted(m, by);
    match_bounds(s, m);
    assert(is_match(t, there)) by {
        reveal(is_match);
        assert forall|i: int| there.start + 1 <= i < there.stamp_end implies t[i] != '\n' by {
            assert(s[i - by] != '\n');
        }
        assert forall|i: int| there.stamp_end + 2 <= i < there.value_end implies t[i] != '\n' by {
            assert(s[i - by] != '\n');
        }
        assert forall|i: int| there.value_end + 3 <= i < there.demo_end implies t[i] != '\n' by {
            assert(s[i - by] != '\n');
        }
        assert forall|i: int| there.demo_end + 5 <= i < there.tick_end implies is_digit(t[i]) by {
            assert(is_digit(s[i - by]));
        }
    }
    same_part(s, t, m.start, m.tick_end + 1, by);
    same_part(s, t, m.start + 1, m.stamp_end, by);
    same_part(s, t, m.stamp_end + 2, m.value_end, by);
    same_part(s, t, m.value_end + 3, m.demo_end, by);
    same_part(s, t, m.demo_end + 5, m.tick_end, by);
}

/// The same characters `by` characters further on are the same part of a text.
proof fn same_part(s: Seq<char>, t: Seq<char>, from: int, to: int, by: int)
    requires
        0 <= from <= to <= s.len(),
        0 <= from + by,
        to + by <= t.len(),
        forall|i: int| from <= i < to ==> #[trigger] s[i] == t[i + by],
    ensures
        t.subrange(from + by, to + by) == s.subrange(from, to),
{
    let there = t.subrange(from + by, to + by);
    let here = s.subrange(from, to);
    assert forall|i: int| 0 <= i < here.len() implies there[i] == here[i] by {
        assert(s[from + i] == t[from + i + by]);
    }
    assert(there =~= here);
}

/// A match in a text stands on its first line or behind it.
proof fn match_on_first_line_or_behind(line: Seq<char>, rest: Seq<char>, m: Span)
    requires
        is_match(line + seq!['\n'] + rest, m),
    ensures
        m.start < line.len() ==> is_match(line, m),
        m.start >= line.len() ==> is_match(rest, shifted(m, -(line.len() + 1))),
{
    let s = line + seq!['\n'] + rest;
    let n = line.len() as int;
    match_bounds(s, m);
    match_is_on_one_line(s, m);
    assert(s[n] == '\n');
    if m.start < n {
        assert(m.tick_end < n);
        match_moves(s, line, m, 0);
        assert(shifted(m, 0) == m);
    } else {
        assert(m.start != n);
        match_moves(s, rest, m, -(n + 1));
    }
}

/// The captures of a text are those of its first line and those of the lines after it.
pub proof fn captures_of_first_line(line: Seq<char>, rest: Seq<char>)
    requires
        on_line(line, 0, line.len() as int),
    ensures
        all_captures(line + seq!['\n'] + rest) == all_captures(line) + all_captures(rest),
    decreases line.len(),
{
    let s = line + seq!['\n'] + rest;
    let n = line.len() as int;
    first_match_is_first(line);
    match first_match(line) {
        Some(m) => {
            match_bounds(line, m);
            match_moves(line, s, m, 0);
            assert(shifted(m, 0) == m);
            assert forall|other: Span| #[trigger] is_match(s, other) implies no_later(m, other) by {
                match_on_first_line_or_behind(line, rest, other);
            }
            assert(is_first(s, m));
            first_match_is(s, m);
            let end = m.tick_end + 1;
            let behind = line.skip(end);
            assert(s.skip(end) =~= behind + seq!['\n'] + rest);
            captures_of_first_line(behind, rest);
            assert(seq![parts(s, m)] + (all_captures(behind) + all_captures(rest)) =~= (seq![
                parts(line, m),
            ] + all_captures(behind)) + all_captures(rest));
        },
        None => {
            captures_behind_no_match(line, rest);
            assert(all_captures(line) + all_captures(rest) =~= all_captures(rest));
        },
    }
}

/// A line without a match, with the end of its line, changes nothing about the captures behind it.
proof fn captures_behind_no_match(line: Seq<char>, rest: Seq<char>)
    requires
        forall|m: Span| !is_match(line, m),
    ensures
        all_captures(line + seq!['\n'] + rest) == all_captures(rest),
{
    let s = line + seq!['\n'] + rest;
    let by = line.len() as int + 1;
    first_match_is_first(rest);
    first_match_is_first(s);
    assert forall|other: Span| #[trigger] is_match(s, other) implies is_match(
        rest,
        shifted(other, -by),
    ) by {
        match_on_first_line_or_behind(line, rest, other);
    }
    match first_match(rest) {
        Some(m) => {
            let there = shifted(m, by);
            match_bounds(rest, m);
            match_moves(rest, s, m, by);
            assert forall|other: Span| #[trigger] is_match(s, other) implies no_later(
                there,
                other,
            ) by {
                assert(is_match(rest, shifted(other, -by)));
            }
            assert(is_first(s, there));
            first_match_is(s, there);
            assert(s.skip(there.tick_end + 1) =~= rest.skip(m.tick_end + 1));
        },
        None => {
            if first_match(s) is Some {
                assert(is_match(rest, shifted(first_match(s)->0, -by)));
            }
        },
    }
}

/// Whether `s` ends no line.
pub open spec fn one_line(s: Seq<char>) -> bool {
    on_line(s, 0, s.len() as int)
}

/// Whether a line can say that `value` happened in the demo `demo_name`: neither ends the line, no
/// closing square bracket stands before a space in what happened, and no space, opening round
/// bracket and quote follow each other in the name of the demo.
pub open spec fn can_be_noted(value: Seq<char>, demo_name: Seq<char>) -> bool {
    &&& one_line(value)
    &&& one_line(demo_name)
    &&& forall|i: int| 0 <= i < value.len() - 1 ==> !(#[trigger] value[i] == ']' && value[i + 1] == ' ')
    &&& forall|i: int|
        0 <= i < demo_name.len() - 2 ==> !(#[trigger] demo_name[i] == ' ' && demo_name[i + 1] == '('
            && demo_name[i + 2] == '"')
}

/// Digits are ASCII digits.
proof fn digits_are_ascii(n: nat)
    ensures
        forall|i: int| 0 <= i < digits(n).len() ==> ascii_digit(#[trigger] digits(n)[i]),
    decreases n,
{
    if n >= 10 {
        digits_are_ascii(n / 10);
        digit_is_ascii((n % 10) as int);
        assert forall|i: int| 0 <= i < digits(n).len() implies ascii_digit(
            #[trigger] digits(n)[i],
        ) by {
            if i < digits(n / 10).len() {
                assert(digits(n)[i] == digits(n / 10)[i]);
            }
        }
    } else {
        digit_is_ascii(n as int);
    }
}

/// A digit is an ASCII digit.
proof fn digit_is_ascii(d: int)
    requires
        0 <= d < 10,
    ensures
        ascii_digit(digit(d)),
{
    let all = seq!['0', '1', '2', '3', '4', '5', '6', '7', '8', '9'];
    assert(ascii_digit(all[0]) && ascii_digit(all[1]) && ascii_digit(all[2]) && ascii_digit(all[3])
        && ascii_digit(all[4]) && ascii_digit(all[5]) && ascii_digit(all[6]) && ascii_digit(all[7])
        && ascii_digit(all[8]) && ascii_digit(all[9]));
}

/// Where the parts of a line stand in it.
spec fn line_span(
    stamp: Seq<char>,
    value: Seq<char>,
    demo_name: Seq<char>,
    tick: Seq<char>,
) -> Span {
    let stamp_end = 1 + stamp.len() as int;
    let value_end = stamp_end + 2 + value.len();
    let demo_end = value_end + 3 + demo_name.len();
    Span { start: 0, stamp_end, value_end, demo_end, tick_end: demo_end + 5 + tick.len() }
}

/// The parts of a line and what stands between them.
proof fn line_layout(stamp: Seq<char>, value: Seq<char>, demo_name: Seq<char>, tick: Seq<char>)
    ensures
        ({
            let s = event_line(stamp, value, demo_name, tick);
            let m = line_span(stamp, value, demo_name, tick);
            &&& s.len() == m.tick_end + 1
            &&& s.subrange(1, m.stamp_end) == stamp
            &&& s.subrange(m.stamp_end + 2, m.value_end) == value
            &&& s.subrange(m.value_end + 3, m.demo_end) == demo_name
            &&& s.subrange(m.demo_end + 5, m.tick_end) == tick
            &&& s.subrange(0, m.tick_end + 1) == s
            &&& s[0] == '['
            &&& s[m.stamp_end] == ']' && s[m.stamp_end + 1] == ' '
            &&& s[m.value_end] == ' ' && s[m.value_end + 1] == '(' && s[m.value_end + 2] == '"'
            &&& s[m.demo_end] == '"' && s[m.demo_end + 1] == ' ' && s[m.demo_end + 2] == 'a' && s[
                m.demo_end + 3] == 't' && s[m.demo_end + 4] == ' '
            &&& s[m.tick_end] == ')'
        }),
{
    let s = event_line(stamp, value, demo_name, tick);
    let m = line_span(stamp, value, demo_name, tick);
    reveal_strlit("[");
    reveal_strlit("] ");
    reveal_strlit(" (\"");
    reveal_strlit("\" at ");
    reveal_strlit(")");
    assert(s.subrange(1, m.stamp_end) =~= stamp);
    assert(s.subrange(m.stamp_end + 2, m.value_end) =~= value);
    assert(s.subrange(m.value_end + 3, m.demo_end) =~= demo_name);
    assert(s.subrange(m.demo_end + 5, m.tick_end) =~= tick);
    assert(s.subrange(0, m.tick_end + 1) =~= s);
}

/// The parts of a line that says what can be noted are the parts that it was made of.
pub proof fn line_reads_back(
    stamp: Seq<char>,
    value: Seq<char>,
    demo_name: Seq<char>,
    tick: int,
)
    requires
        one_line(stamp),
        can_be_noted(value, demo_name),
        tick >= 0,
    ensures
        all_captures(event_line(stamp, value, demo_name, decimal(tick))) == seq![
            CaptureView {
                whole: event_line(stamp, value, demo_name, decimal(tick)),
                stamp,
                value,
                demo_name,
                tick: decimal(tick),
            },
        ],
        first_capture(event_line(stamp, value, demo_name, decimal(tick))) == Some(
            CaptureView {
                whole: event_line(stamp, value, demo_name, decimal(tick)),
                stamp,
                value,
                demo_name,
                tick: decimal(tick),
            },
        ),
{
    let ticks = decimal(tick);
    let s = event_line(stamp, value, demo_name, ticks);
    let m = line_span(stamp, value, demo_name, ticks);
    line_layout(stamp, value, demo_name, ticks);
    digits_are_ascii(tick as nat);
    line_match(s, m);
    whole_line_captures(s, m);
}

/// A text that is one match as a whole has the parts of that match and no other capture.
proof fn whole_line_captures(s: Seq<char>, m: Span)
    requires
        is_first(s, m),
        s.len() == m.tick_end + 1,
    ensures
        first_capture(s) == Some(parts(s, m)),
        all_captures(s) == seq![parts(s, m)],
{
    first_match_is(s, m);
    match_bounds(s, m);
    let behind = s.skip(m.tick_end + 1);
    first_match_is_first(behind);
    if first_match(behind) is Some {
        match_bounds(behind, first_match(behind)->0);
    }
    assert(all_captures(behind) =~= seq![]);
    assert(all_captures(s) =~= seq![parts(s, m)]);
}

/// Whether the parts of a line stand in `s` at `m`, from its first character to its last.
spec fn is_laid_out(s: Seq<char>, m: Span) -> bool {
    &&& m.start == 0
    &&& m.stamp_end >= 1
    &&& m.value_end >= m.stamp_end + 2
    &&& m.demo_end >= m.value_end + 3
    &&& m.tick_end >= m.demo_end + 5
    &&& s.len() == m.tick_end + 1
    &&& one_line(s.subrange(1, m.stamp_end))
    &&& one_line(s.subrange(m.stamp_end + 2, m.value_end))
    &&& one_line(s.subrange(m.value_end + 3, m.demo_end))
    &&& forall|i: int|
        0 <= i < m.tick_end - m.demo_end - 5 ==> ascii_digit(
            #[trigger] s.subrange(m.demo_end + 5, m.tick_end)[i],
        )
    &&& s[0] == '['
    &&& s[m.stamp_end] == ']' && s[m.stamp_end + 1] == ' '
    &&& s[m.value_end] == ' ' && s[m.value_end + 1] == '(' && s[m.value_end + 2] == '"'
    &&& s[m.demo_end] == '"' && s[m.demo_end + 1] == ' ' && s[m.demo_end + 2] == 'a' && s[m.demo_end
        + 3] == 't' && s[m.demo_end + 4] == ' '
    &&& s[m.tick_end] == ')'
}

/// A line is a match of its parts.
proof fn line_is_match(s: Seq<char>, m: Span)
    requires
        is_laid_out(s, m),
    ensures
        is_match(s, m),
        forall|i: int| m.demo_end + 5 <= i < m.tick_end ==> ascii_digit(#[trigger] s[i]),
{
    let stamp = s.subrange(1, m.stamp_end);
    let value = s.subrange(m.stamp_end + 2, m.value_end);
    let demo_name = s.subrange(m.value_end + 3, m.demo_end);
    let ticks = s.subrange(m.demo_end + 5, m.tick_end);
    assert forall|i: int| 1 <= i < m.stamp_end implies s[i] != '\n' by {
        assert(stamp[i - 1] != '\n');
    }
    assert forall|i: int| m.stamp_end + 2 <= i < m.value_end implies s[i] != '\n' by {
        assert(value[i - m.stamp_end - 2] != '\n');
    }
    assert forall|i: int| m.value_end + 3 <= i < m.demo_end implies s[i] != '\n' by {
        assert(demo_name[i - m.value_end - 3] != '\n');
    }
    assert forall|i: int| m.demo_end + 5 <= i < m.tick_end implies ascii_digit(
        #[trigger] s[i],
    ) by {
        assert(ascii_digit(ticks[i - m.demo_end - 5]));
    }
    assert(is_match(s, m)) by {
        reveal(is_match);
    }
}

/// A line whose parts stand at `m` has its first match there, where what it says can be noted.
proof fn line_match(s: Seq<char>, m: Span)
    requires
        is_laid_out(s, m),
        can_be_noted(
            s.subrange(m.stamp_end + 2, m.value_end),
            s.subrange(m.value_end + 3, m.demo_end),
        ),
    ensures
        is_first(s, m),
{
    let value = s.subrange(m.stamp_end + 2, m.value_end);
    let demo_name = s.subrange(m.value_end + 3, m.demo_end);
    line_is_match(s, m);
    assert forall|other: Span| #[trigger] is_match(s, other) implies no_later(m, other) by {
        match_bounds(s, other);
        assert(s[other.demo_end] == '"') by {
            reveal(is_match);
        }
        assert(other.demo_end <= m.demo_end);
        assert(s[other.value_end] == ' ' && s[other.value_end + 1] == '(' && s[other.value_end + 2]
            == '"') by {
            reveal(is_match);
        }
        assert(other.value_end <= m.value_end) by {
            if other.value_end > m.value_end {
                let i = other.value_end - m.value_end - 3;
                assert(i >= 0);
                assert(demo_name[i] == s[other.value_end]);
                if i < demo_name.len() - 2 {
                    assert(demo_name[i + 1] == s[other.value_end + 1]);
                    assert(demo_name[i + 2] == s[other.value_end + 2]);
                }
            }
        }
        assert(s[other.stamp_end] == ']' && s[other.stamp_end + 1] == ' ') by {
            reveal(is_match);
        }
        assert(other.stamp_end <= m.stamp_end) by {
            if other.stamp_end > m.stamp_end {
                let i = other.stamp_end - m.stamp_end - 2;
                assert(i >= 0);
                assert(value[i] == s[other.stamp_end]);
                assert(value[i + 1] == s[other.stamp_end + 1]);
            }
        }
    }
}

/// Whether `line` is a line of an event and nothing else.
pub open spec fn is_event_line(line: Seq<char>) -> bool {
    all_captures(line).len() == 1 && all_captures(line)[0].whole == line
}

/// A line that ends nowhere before its end is read as one line, whatever it says.
pub proof fn line_is_read_as_a_whole(
    stamp: Seq<char>,
    value: Seq<char>,
    demo_name: Seq<char>,
    tick: int,
)
    requires
        one_line(stamp),
        one_line(value),
        one_line(demo_name),
        tick >= 0,
    ensures
        is_event_line(event_line(stamp, value, demo_name, decimal(tick))),
{
    let ticks = decimal(tick);
    let s = event_line(stamp, value, demo_name, ticks);
    let m = line_span(stamp, value, demo_name, ticks);
    line_layout(stamp, value, demo_name, ticks);
    digits_are_ascii(tick as nat);
    line_is_match(s, m);
    first_match_is_first(s);
    let first = first_match(s)->0;
    assert(no_later(first, m));
    match_bounds(s, first);
    assert(first.start == 0);
    let longer = Span { demo_end: m.demo_end, tick_end: m.tick_end, ..first };
    if first.demo_end < m.demo_end {
        longer_demo_name(s, m, first);
        assert(no_later(first, longer));
    }
    assert(s[first.demo_end] == '"' && s[first.tick_end] == ')') by {
        reveal(is_match);
    }
    whole_line_captures(s, first);
}

/// A match whose demo ends before that of the line can be made longer.
proof fn longer_demo_name(s: Seq<char>, m: Span, shorter: Span)
    requires
        is_match(s, m),
        is_match(s, shorter),
        shorter.start == m.start,
        shorter.demo_end < m.demo_end,
    ensures
        is_match(s, (Span { demo_end: m.demo_end, tick_end: m.tick_end, ..shorter })),
{
    match_is_on_one_line(s, m);
    match_bounds(s, shorter);
    reveal(is_match);
}

/// `lines`, each with the end of its line.
pub open spec fn joined(lines: Seq<Seq<char>>) -> Seq<char>
    decreases lines.len(),
{
    if lines.len() == 0 {
        seq![]
    } else {
        lines[0] + seq!['\n'] + joined(lines.skip(1))
    }
}

/// The captures of `lines`, one line after the other.
pub open spec fn captures_in(lines: Seq<Seq<char>>) -> Seq<CaptureView>
    decreases lines.len(),
{
    if lines.len() == 0 {
        seq![]
    } else {
        all_captures(lines[0]) + captures_in(lines.skip(1))
    }
}

/// The captures of a text are those of its lines.
pub proof fn captures_of_lines(lines: Seq<Seq<char>>)
    requires
        forall|i: int| 0 <= i < lines.len() ==> one_line(#[trigger] lines[i]),
    ensures
        all_captures(joined(lines)) == captures_in(lines),
    decreases lines.len(),
{
    if lines.len() == 0 {
        let none: Seq<char> = seq![];
        first_match_is_first(none);
        if first_match(none) is Some {
            match_bounds(none, first_match(none)->0);
        }
        assert(all_captures(joined(lines)) =~= captures_in(lines));
    } else {
        assert(one_line(lines[0]));
        assert forall|i: int| 0 <= i < lines.skip(1).len() implies one_line(
            #[trigger] lines.skip(1)[i],
        ) by {
            assert(one_line(lines[i + 1]));
        }
        captures_of_lines(lines.skip(1));
        captures_of_first_line(lines[0], joined(lines.skip(1)));
    }
}

/// The captures of two texts with the end of a line between them are those of the first text and
/// then those of the second one.
pub proof fn captures_of_two_texts(first: Seq<char>, second: Seq<char>)
    ensures
        all_captures(first + seq!['\n'] + second) == all_captures(first) + all_captures(second),
    decreases first.len(),
{
    if one_line(first) {
        captures_of_first_line(first, second);
    } else {
        let n = line_len(first);
        let line = first.take(n);
        let rest = first.skip(n + 1);
        assert(first =~= line + seq!['\n'] + rest);
        assert(first + seq!['\n'] + second =~= line + seq!['\n'] + (rest + seq!['\n'] + second));
        captures_of_first_line(line, rest);
        captures_of_first_line(line, rest + seq!['\n'] + second);
        captures_of_two_texts(rest, second);
        assert(all_captures(line) + (all_captures(rest) + all_captures(second)) =~= all_captures(
            line,
        ) + all_captures(rest) + all_captures(second));
    }
}

/// The length of the first line of `s`, which does not end with `s`.
proof fn line_len(s: Seq<char>) -> (n: int)
    requires
        !one_line(s),
    ensures
        0 <= n < s.len(),
        s[n] == '\n',
        one_line(s.take(n)),
    decreases s.len(),
{
    if s[0] == '\n' {
        0
    } else {
        let rest = s.skip(1);
        let at = choose|i: int| 0 <= i < s.len() && s[i] == '\n';
        assert(rest[at - 1] == '\n');
        let n = line_len(rest) + 1;
        assert forall|i: int| 0 <= i < n implies s.take(n)[i] != '\n' by {
            if i > 0 {
                assert(rest.take(n - 1)[i - 1] != '\n');
            }
        }
        n
    }
}

/// A line that is left out takes its captures along, and leaves those of the other lines.
pub proof fn captures_without_a_line(lines: Seq<Seq<char>>, i: int)
    requires
        0 <= i < lines.len(),
    ensures
        captures_in(lines) == captures_in(lines.take(i)) + all_captures(lines[i]) + captures_in(
            lines.skip(i + 1),
        ),
        captures_in(lines.remove(i)) == captures_in(lines.take(i)) + captures_in(lines.skip(i + 1)),
    decreases i,
{
    let rest = lines.skip(1);
    if i == 0 {
        assert(lines.take(0) =~= seq![]);
        assert(lines.remove(0) =~= rest);
        assert(captures_in(lines) =~= captures_in(lines.take(i)) + all_captures(lines[i])
            + captures_in(rest));
        assert(captures_in(rest) =~= captures_in(lines.take(i)) + captures_in(rest));
    } else {
        captures_without_a_line(rest, i - 1);
        assert(rest.skip(i) =~= lines.skip(i + 1));
        assert(lines.take(i).skip(1) =~= rest.take(i - 1));
        assert(lines.remove(i).skip(1) =~= rest.remove(i - 1));
        assert(lines.take(i)[0] == lines[0] && lines.remove(i)[0] == lines[0]);
        assert(captures_in(lines) =~= captures_in(lines.take(i)) + all_captures(lines[i])
            + captures_in(lines.skip(i + 1)));
        assert(captures_in(lines.remove(i)) =~= captures_in(lines.take(i)) + captures_in(
            lines.skip(i + 1),
        ));
    }
}

/// A further line stands behind the lines before it, and so do its captures.
pub proof fn further_line(lines: Seq<Seq<char>>, line: Seq<char>)
    ensures
        joined(lines.push(line)) == joined(lines) + line + seq!['\n'],
        captures_in(lines.push(line)) == captures_in(lines) + all_captures(line),
    decreases lines.len(),
{
    let more = lines.push(line);
    if lines.len() == 0 {
        assert(more.skip(1) =~= lines);
        assert(joined(more) =~= joined(lines) + line + seq!['\n']);
        assert(captures_in(more) =~= captures_in(lines) + all_captures(line));
    } else {
        further_line(lines.skip(1), line);
        assert(more.skip(1) =~= lines.skip(1).push(line));
        assert(joined(more) =~= joined(lines) + line + seq!['\n']);
        assert(captures_in(more) =~= captures_in(lines) + all_captures(line));
    }
}

/// The line that a capture was found in gives that capture back, and no other.
pub proof fn captured_line_reads_back(s: Seq<char>)
    requires
        first_capture(s) is Some,
    ensures
        all_captures(first_capture(s)->0.whole) == seq![first_capture(s)->0],
        one_line(first_capture(s)->0.whole),
{
    first_match_is_first(s);
    let m = first_match(s)->0;
    let whole = s.subrange(m.start, m.tick_end + 1);
    let there = shifted(m, -m.start);
    match_bounds(s, m);
    match_moves(s, whole, m, -m.start);
    assert forall|other: Span| #[trigger] is_match(whole, other) implies no_later(there, other) by {
        match_bounds(whole, other);
        match_moves(whole, s, other, m.start);
        assert(no_later(m, shifted(other, m.start)));
    }
    assert(is_first(whole, there));
    whole_line_captures(whole, there);
    match_is_on_one_line(s, m);
    assert forall|i: int| 0 <= i < whole.len() implies whole[i] != '\n' by {
        assert(s[m.start + i] != '\n');
    }
}

/// Every line that was captured in a text gives its capture back, and no other.
pub proof fn captured_lines_read_back(s: Seq<char>, i: int)
    requires
        0 <= i < all_captures(s).len(),
    ensures
        all_captures(all_captures(s)[i].whole) == seq![all_captures(s)[i]],
        one_line(all_captures(s)[i].whole),
    decreases s.len(),
{
    let m = first_match(s)->0;
    if i == 0 {
        captured_line_reads_back(s);
    } else {
        captured_lines_read_back(s.skip(m.tick_end + 1), i - 1);
    }
}

/// Lines of events give one capture each, which is the line.
pub proof fn captures_of_event_lines(lines: Seq<Seq<char>>)
    requires
        forall|i: int| 0 <= i < lines.len() ==> is_event_line(#[trigger] lines[i]),
    ensures
        captures_in(lines).len() == lines.len(),
        forall|i: int| 0 <= i < lines.len() ==> (#[trigger] captures_in(lines)[i]).whole == lines[i],
    decreases lines.len(),
{
    if lines.len() > 0 {
        let rest = lines.skip(1);
        assert(is_event_line(lines[0]));
        assert forall|i: int| 0 <= i < rest.len() implies is_event_line(#[trigger] rest[i]) by {
            assert(is_event_line(lines[i + 1]));
        }
        captures_of_event_lines(rest);
        assert forall|i: int| 0 <= i < lines.len() implies (#[trigger] captures_in(lines)[i]).whole
            == lines[i] by {
            if i > 0 {
                assert(captures_in(lines)[i] == captures_in(rest)[i - 1]);
            }
        }
    }
}

/// The first match of a text lies in it.
pub proof fn a_match_lies_in_its_text(s: Seq<char>)
    ensures
        first_match(s) matches Some(m) ==> 0 <= m.start < m.tick_end < s.len(),
{
    first_match_is_first(s);
    if first_match(s) is Some {
        match_bounds(s, first_match(s)->0);
    }
}

} // verus!
