//! Laws on texts.

use crate::text::{
    begins_with, decimal, digit, digits, finishes_with, replaced, trimmed, trimmed_end,
    trimmed_start, white_space,
};
use vstd::prelude::*;

verus! {

/// Whether `pattern` is found in `s` from index `at` on.
pub open spec fn found_at(s: Seq<char>, at: int, pattern: Seq<char>) -> bool {
    &&& 0 <= at <= s.len() - pattern.len()
    &&& s.subrange(at, at + pattern.len()) == pattern
}

/// Whether `pattern` is found nowhere in `s`.
pub open spec fn found_nowhere(s: Seq<char>, pattern: Seq<char>) -> bool {
    forall|at: int| !#[trigger] found_at(s, at, pattern)
}

/// A text begins with another one exactly if it is that text and something behind it.
pub proof fn a_beginning_is_followed_by_the_rest(s: Seq<char>, prefix: Seq<char>)
    ensures
        begins_with(s, prefix) <==> exists|rest: Seq<char>| s == #[trigger] (prefix + rest),
{
    if begins_with(s, prefix) {
        assert(s =~= prefix + s.skip(prefix.len() as int));
    }
    if exists|rest: Seq<char>| s == #[trigger] (prefix + rest) {
        let rest = choose|rest: Seq<char>| s == #[trigger] (prefix + rest);
        assert((prefix + rest).take(prefix.len() as int) =~= prefix);
    }
}

/// A text ends with another one exactly if it is that text and something before it.
pub proof fn an_end_follows_the_rest(s: Seq<char>, suffix: Seq<char>)
    ensures
        finishes_with(s, suffix) <==> exists|rest: Seq<char>| s == #[trigger] (rest + suffix),
{
    let n = s.len() - suffix.len();
    if finishes_with(s, suffix) {
        assert(s =~= s.take(n) + suffix);
    }
    if exists|rest: Seq<char>| s == #[trigger] (rest + suffix) {
        let rest = choose|rest: Seq<char>| s == #[trigger] (rest + suffix);
        assert((rest + suffix).skip(n) =~= suffix);
    }
}

/// What is found nowhere is not replaced.
pub proof fn nothing_found_nothing_replaced(s: Seq<char>, pattern: Seq<char>, by: Seq<char>)
    requires
        found_nowhere(s, pattern),
    ensures
        replaced(s, pattern, by) == s,
    decreases s.len(),
{
    if pattern.len() > 0 && s.len() >= pattern.len() {
        assert(s.take(pattern.len() as int) =~= s.subrange(0, pattern.len() as int));
        assert(!found_at(s, 0, pattern));
        let rest = s.skip(1);
        assert forall|at: int| !#[trigger] found_at(rest, at, pattern) by {
            assert(!found_at(s, at + 1, pattern));
            if 0 <= at <= rest.len() - pattern.len() {
                assert(rest.subrange(at, at + pattern.len()) =~= s.subrange(
                    at + 1,
                    at + 1 + pattern.len(),
                ));
            }
        }
        nothing_found_nothing_replaced(rest, pattern, by);
        assert(seq![s[0]] + rest =~= s);
    }
}

/// What is found first is replaced, what stands before it stays, and behind it the replacing goes
/// on.
pub proof fn the_first_found_is_replaced(
    before: Seq<char>,
    pattern: Seq<char>,
    behind: Seq<char>,
    by: Seq<char>,
)
    requires
        pattern.len() > 0,
        forall|at: int|
            0 <= at < before.len() ==> !#[trigger] found_at(before + pattern + behind, at, pattern),
    ensures
        replaced(before + pattern + behind, pattern, by) == before + by + replaced(
            behind,
            pattern,
            by,
        ),
    decreases before.len(),
{
    let s = before + pattern + behind;
    let n = pattern.len() as int;
    assert(s.take(n) =~= s.subrange(0, n));
    if before.len() == 0 {
        assert(s.take(n) =~= pattern);
        assert(s.skip(n) =~= behind);
        assert(before + by + replaced(behind, pattern, by) =~= by + replaced(behind, pattern, by));
    } else {
        assert(!found_at(s, 0, pattern));
        let rest = before.skip(1);
        assert(s.skip(1) =~= rest + pattern + behind);
        assert forall|at: int| 0 <= at < rest.len() implies !#[trigger] found_at(
            rest + pattern + behind,
            at,
            pattern,
        ) by {
            assert(!found_at(s, at + 1, pattern));
            assert((rest + pattern + behind).subrange(at, at + n) =~= s.subrange(at + 1, at + 1 + n));
        }
        the_first_found_is_replaced(rest, pattern, behind, by);
        assert(seq![s[0]] + (rest + by + replaced(behind, pattern, by)) =~= before + by + replaced(
            behind,
            pattern,
            by,
        ));
    }
}

/// A beginning in which the pattern is not found stays, and behind it the replacing goes on.
pub proof fn a_beginning_without_the_pattern_stays(
    before: Seq<char>,
    behind: Seq<char>,
    pattern: Seq<char>,
    by: Seq<char>,
)
    requires
        pattern.len() > 0,
        forall|at: int| 0 <= at < before.len() ==> !#[trigger] found_at(before + behind, at, pattern),
    ensures
        replaced(before + behind, pattern, by) == before + replaced(behind, pattern, by),
    decreases before.len(),
{
    let s = before + behind;
    let n = pattern.len() as int;
    if before.len() == 0 {
        assert(s =~= behind);
        assert(before + replaced(behind, pattern, by) =~= replaced(behind, pattern, by));
    } else if s.len() < n {
        assert(replaced(behind, pattern, by) == behind);
    } else {
        assert(s.take(n) =~= s.subrange(0, n));
        assert(!found_at(s, 0, pattern));
        let rest = before.skip(1);
        assert(s.skip(1) =~= rest + behind);
        assert forall|at: int| 0 <= at < rest.len() implies !#[trigger] found_at(
            rest + behind,
            at,
            pattern,
        ) by {
            assert(!found_at(s, at + 1, pattern));
            if at <= (rest + behind).len() - n {
                assert((rest + behind).subrange(at, at + n) =~= s.subrange(at + 1, at + 1 + n));
            }
        }
        a_beginning_without_the_pattern_stays(rest, behind, pattern, by);
        assert(seq![s[0]] + (rest + replaced(behind, pattern, by)) =~= before + replaced(
            behind,
            pattern,
            by,
        ));
    }
}

/// Whether all of `s` is white space.
pub open spec fn all_white(s: Seq<char>) -> bool {
    forall|i: int| 0 <= i < s.len() ==> white_space(#[trigger] s[i])
}

/// Trimming takes white space from both ends and nothing else, and leaves none there.
pub proof fn only_outer_white_space_is_trimmed(s: Seq<char>)
    ensures
        exists|before: Seq<char>, behind: Seq<char>|
            all_white(before) && all_white(behind) && s == #[trigger] (before + trimmed(s) + behind),
        trimmed(s).len() > 0 ==> !white_space(trimmed(s)[0]) && !white_space(trimmed(s).last()),
{
    let before = start_is_white(s);
    let t = trimmed_start(s);
    let behind = end_is_white(t);
    assert(s =~= before + trimmed(s) + behind);
    if trimmed(s).len() > 0 {
        assert(trimmed(s)[0] == t[0]);
    }
}

proof fn start_is_white(s: Seq<char>) -> (before: Seq<char>)
    ensures
        all_white(before),
        s == before + trimmed_start(s),
        trimmed_start(s).len() > 0 ==> !white_space(trimmed_start(s)[0]),
    decreases s.len(),
{
    if s.len() > 0 && white_space(s[0]) {
        let rest = start_is_white(s.skip(1));
        let before = seq![s[0]] + rest;
        assert forall|i: int| 0 <= i < before.len() implies white_space(#[trigger] before[i]) by {
            if i > 0 {
                assert(before[i] == rest[i - 1]);
            }
        }
        assert(s =~= before + trimmed_start(s)) by {
            assert(s =~= seq![s[0]] + s.skip(1));
        }
        before
    } else {
        assert(s =~= Seq::<char>::empty() + s);
        seq![]
    }
}

proof fn end_is_white(s: Seq<char>) -> (behind: Seq<char>)
    ensures
        all_white(behind),
        s == trimmed_end(s) + behind,
        trimmed_end(s).len() > 0 ==> !white_space(trimmed_end(s).last()),
    decreases s.len(),
{
    if s.len() > 0 && white_space(s.last()) {
        let rest = end_is_white(s.drop_last());
        let behind = rest.push(s.last());
        assert forall|i: int| 0 <= i < behind.len() implies white_space(#[trigger] behind[i]) by {
            if i < rest.len() {
                assert(behind[i] == rest[i]);
            }
        }
        assert(s =~= trimmed_end(s) + behind) by {
            assert(s =~= s.drop_last().push(s.last()));
        }
        behind
    } else {
        assert(s =~= s + Seq::<char>::empty());
        seq![]
    }
}

/// The number that decimal digits write.
pub open spec fn written_number(s: Seq<char>) -> int
    decreases s.len(),
{
    if s.len() == 0 {
        0
    } else {
        written_number(s.drop_last()) * 10 + (s.last() as int - '0' as int)
    }
}

/// The decimal text of a number is read as that number: a sign where it is negative, and then
/// digits, the first of which is no zero but for the number itself.
pub proof fn a_decimal_text_is_read_as_its_number(i: int)
    ensures
        i >= 0 ==> written_number(decimal(i)) == i,
        i < 0 ==> decimal(i)[0] == '-' && written_number(decimal(i).skip(1)) == -i,
        i >= 0 ==> decimal(i).len() > 0 && '0' as int <= decimal(i)[0] as int <= '9' as int,
        i != 0 ==> decimal(i)[0] != '0',
{
    if i < 0 {
        assert(decimal(i).skip(1) =~= digits((-i) as nat));
        digits_write_their_number((-i) as nat);
    } else {
        digits_write_their_number(i as nat);
    }
}

proof fn digits_write_their_number(n: nat)
    ensures
        written_number(digits(n)) == n,
        digits(n).len() > 0,
        '0' as int <= digits(n)[0] as int <= '9' as int,
        n > 0 ==> digits(n)[0] != '0',
    decreases n,
{
    if n < 10 {
        one_digit(n as int);
        assert(digits(n).drop_last() =~= seq![]);
        assert(written_number(digits(n).drop_last()) == 0);
    } else {
        digits_write_their_number(n / 10);
        one_digit((n % 10) as int);
        assert(digits(n).drop_last() =~= digits(n / 10));
        assert(digits(n)[0] == digits(n / 10)[0]);
    }
}

proof fn one_digit(d: int)
    requires
        0 <= d < 10,
    ensures
        digit(d) as int == '0' as int + d,
{
    let all = seq!['0', '1', '2', '3', '4', '5', '6', '7', '8', '9'];
    assert(all[0] as int == 48 && all[1] as int == 49 && all[2] as int == 50 && all[3] as int == 51
        && all[4] as int == 52 && all[5] as int == 53 && all[6] as int == 54 && all[7] as int == 55
        && all[8] as int == 56 && all[9] as int == 57);
}

/// Different numbers have different decimal texts.
pub proof fn different_numbers_have_different_texts(i: int, j: int)
    requires
        i != j,
    ensures
        decimal(i) != decimal(j),
{
    a_decimal_text_is_read_as_its_number(i);
    a_decimal_text_is_read_as_its_number(j);
}

/// A decimal text holds digits, and a sign at most at its start.
pub proof fn decimal_holds_digits(i: int)
    ensures
        decimal(i).len() > 0,
        forall|k: int|
            0 <= k < decimal(i).len() ==> ('0' as int <= #[trigger] decimal(i)[k] as int
                <= '9' as int || k == 0 && decimal(i)[k] == '-'),
{
    let n: nat = if i < 0 {
        (-i) as nat
    } else {
        i as nat
    };
    digits_hold_digits(n);
    if i < 0 {
        assert forall|k: int| 0 <= k < decimal(i).len() implies ('0' as int <= #[trigger] decimal(
            i,
        )[k] as int <= '9' as int || k == 0 && decimal(i)[k] == '-') by {
            if k > 0 {
                assert(decimal(i)[k] == digits(n)[k - 1]);
            }
        }
    }
}

proof fn digits_hold_digits(n: nat)
    ensures
        digits(n).len() > 0,
        forall|k: int|
            0 <= k < digits(n).len() ==> '0' as int <= #[trigger] digits(n)[k] as int <= '9' as int,
    decreases n,
{
    if n < 10 {
        one_digit(n as int);
    } else {
        digits_hold_digits(n / 10);
        one_digit((n % 10) as int);
        assert forall|k: int| 0 <= k < digits(n).len() implies '0' as int <= #[trigger] digits(
            n,
        )[k] as int <= '9' as int by {
            if k < digits(n / 10).len() {
                assert(digits(n)[k] == digits(n / 10)[k]);
            }
        }
    }
}

/// Among the ASCII characters, the tab, the ends of lines and pages, and the space are white space,
/// and no other one.
pub proof fn ascii_white_space(c: char)
    requires
        (c as int) < 128,
    ensures
        white_space(c) <==> c == '\t' || c == '\n' || c == '\u{b}' || c == '\u{c}' || c == '\r' || c
            == ' ',
{
}

} // verus!
