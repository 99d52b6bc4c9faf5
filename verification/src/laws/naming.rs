//! Laws on the names of videos.

use crate::clip::Clip;
use crate::json::Json;
use crate::laws::settings::entry;
use crate::laws::text::{
    a_beginning_without_the_pattern_stays, decimal_holds_digits, found_at, found_nowhere, nothing_found_nothing_replaced,
    the_first_found_is_replaced,
};
use crate::record::{clip_name, own_bookmarks, shown_bookmarks, shown_demo, suffix, template};
use crate::settings::on;
use crate::text::{decimal, replaced, trimmed};
use vstd::prelude::*;

verus! {

/// Whether `s` holds no opening brace.
pub open spec fn no_brace(s: Seq<char>) -> bool {
    forall|i: int| 0 <= i < s.len() ==> s[i] != '{'
}

/// What a placeholder in the template for names stands for.
pub open spec fn stands_for(
    placeholder: Seq<char>,
    name: Seq<char>,
    clip: Clip,
    settings: Json,
) -> Option<Seq<char>> {
    if placeholder == "{demo_name}"@ {
        Some(shown_demo(name, settings))
    } else if placeholder == "{start_tick}"@ {
        Some(decimal(clip.start_tick as int))
    } else if placeholder == "{end_tick}"@ {
        Some(decimal(clip.end_tick as int))
    } else if placeholder == "{suffix}"@ {
        Some(suffix(clip))
    } else if placeholder == "{recording_method}"@ {
        entry(settings, "output"@, "method"@).text()
    } else if placeholder == "{bookmarks}"@ {
        Some(shown_bookmarks(clip, settings))
    } else {
        None
    }
}

/// Whether `p` is a text in braces.
spec fn is_placeholder(p: Seq<char>) -> bool {
    &&& p.len() > 3
    &&& p[0] == '{'
    &&& forall|i: int| 0 < i < p.len() ==> p[i] != '{'
}

proof fn no_brace_nothing_replaced(s: Seq<char>, pattern: Seq<char>, by: Seq<char>)
    requires
        no_brace(s),
        is_placeholder(pattern),
    ensures
        replaced(s, pattern, by) == s,
{
    assert forall|at: int| !#[trigger] found_at(s, at, pattern) by {
        if found_at(s, at, pattern) {
            assert(s.subrange(at, at + pattern.len())[0] == s[at]);
        }
    }
    nothing_found_nothing_replaced(s, pattern, by);
}

/// A placeholder is replaced by no other one.
proof fn other_placeholder_stays(
    before: Seq<char>,
    own: Seq<char>,
    behind: Seq<char>,
    pattern: Seq<char>,
    by: Seq<char>,
)
    requires
        no_brace(before),
        no_brace(behind),
        is_placeholder(own),
        is_placeholder(pattern),
        own[1] != pattern[1] || own[2] != pattern[2],
    ensures
        replaced(before + own + behind, pattern, by) == before + own + behind,
{
    let s = before + own + behind;
    assert forall|at: int| !#[trigger] found_at(s, at, pattern) by {
        if found_at(s, at, pattern) {
            let there = s.subrange(at, at + pattern.len());
            assert(there[0] == s[at] && there[1] == s[at + 1] && there[2] == s[at + 2]);
            if at == before.len() {
                assert(s[at + 1] == own[1] && s[at + 2] == own[2]);
            } else if at < before.len() {
                assert(s[at] == before[at]);
            } else if at < before.len() + own.len() {
                assert(s[at] == own[at - before.len()]);
            } else {
                assert(s[at] == behind[at - before.len() - own.len()]);
            }
        }
    }
    nothing_found_nothing_replaced(s, pattern, by);
}

/// A placeholder is replaced by what it stands for.
proof fn own_placeholder_is_replaced(
    before: Seq<char>,
    own: Seq<char>,
    behind: Seq<char>,
    by: Seq<char>,
)
    requires
        no_brace(before),
        no_brace(behind),
        is_placeholder(own),
    ensures
        replaced(before + own + behind, own, by) == before + by + behind,
{
    let s = before + own + behind;
    assert forall|at: int| 0 <= at < before.len() implies !#[trigger] found_at(s, at, own) by {
        if found_at(s, at, own) {
            assert(s.subrange(at, at + own.len())[0] == before[at]);
        }
    }
    the_first_found_is_replaced(before, own, behind, by);
    no_brace_nothing_replaced(behind, own, by);
}

proof fn placeholders_differ()
    ensures
        is_placeholder("{demo_name}"@) && "{demo_name}"@[1] == 'd',
        is_placeholder("{start_tick}"@) && "{start_tick}"@[1] == 's' && "{start_tick}"@[2] == 't',
        is_placeholder("{end_tick}"@) && "{end_tick}"@[1] == 'e',
        is_placeholder("{suffix}"@) && "{suffix}"@[1] == 's' && "{suffix}"@[2] == 'u',
        is_placeholder("{recording_method}"@) && "{recording_method}"@[1] == 'r',
        is_placeholder("{bookmarks}"@) && "{bookmarks}"@[1] == 'b',
{
    reveal_strlit("{demo_name}");
    reveal_strlit("{start_tick}");
    reveal_strlit("{end_tick}");
    reveal_strlit("{suffix}");
    reveal_strlit("{recording_method}");
    reveal_strlit("{bookmarks}");
}

/// Replaces the placeholder `own` in a template, where it is the one in question.
proof fn step(
    before: Seq<char>,
    own: Seq<char>,
    behind: Seq<char>,
    pattern: Seq<char>,
    by: Seq<char>,
)
    requires
        no_brace(before),
        no_brace(behind),
        is_placeholder(own),
        is_placeholder(pattern),
        own == pattern || own[1] != pattern[1] || own[2] != pattern[2],
    ensures
        own == pattern ==> replaced(before + own + behind, pattern, by) == before + by + behind,
        own != pattern ==> replaced(before + own + behind, pattern, by) == before + own + behind,
{
    if own == pattern {
        own_placeholder_is_replaced(before, own, behind, by);
    } else {
        other_placeholder_stays(before, own, behind, pattern, by);
    }
}

/// `t` with the placeholders filled in, from that of the demo to that of the bookmarks.
spec fn filled(t: Seq<char>, name: Seq<char>, clip: Clip, settings: Json) -> Seq<char> {
    let method = entry(settings, "output"@, "method"@).text()->0;
    let t = replaced(t, "{demo_name}"@, shown_demo(name, settings));
    let t = replaced(t, "{start_tick}"@, decimal(clip.start_tick as int));
    let t = replaced(t, "{end_tick}"@, decimal(clip.end_tick as int));
    let t = replaced(t, "{suffix}"@, suffix(clip));
    let t = replaced(t, "{recording_method}"@, method);
    replaced(t, "{bookmarks}"@, shown_bookmarks(clip, settings))
}

/// Fills in the one placeholder of a template.
proof fn filled_in(
    before: Seq<char>,
    own: Seq<char>,
    behind: Seq<char>,
    name: Seq<char>,
    clip: Clip,
    settings: Json,
)
    requires
        entry(settings, "output"@, "method"@).text() is Some,
        stands_for(own, name, clip, settings) is Some,
        no_brace(before),
        no_brace(behind),
        own == "{bookmarks}"@ || no_brace(stands_for(own, name, clip, settings)->0),
    ensures
        filled(before + own + behind, name, clip, settings) == before + stands_for(
            own,
            name,
            clip,
            settings,
        )->0 + behind,
{
    placeholders_differ();
    let value = stands_for(own, name, clip, settings)->0;
    let done = before + value + behind;
    let demo = shown_demo(name, settings);
    let start = decimal(clip.start_tick as int);
    let end = decimal(clip.end_tick as int);
    let method = entry(settings, "output"@, "method"@).text()->0;
    let bookmarks = shown_bookmarks(clip, settings);
    step(before, own, behind, "{demo_name}"@, demo);
    step(before, own, behind, "{start_tick}"@, start);
    step(before, own, behind, "{end_tick}"@, end);
    step(before, own, behind, "{suffix}"@, suffix(clip));
    step(before, own, behind, "{recording_method}"@, method);
    step(before, own, behind, "{bookmarks}"@, bookmarks);
    if own != "{bookmarks}"@ {
        both_have_no_brace(before, value);
        both_have_no_brace(before + value, behind);
        no_brace_nothing_replaced(done, "{start_tick}"@, start);
        no_brace_nothing_replaced(done, "{end_tick}"@, end);
        no_brace_nothing_replaced(done, "{suffix}"@, suffix(clip));
        no_brace_nothing_replaced(done, "{recording_method}"@, method);
        no_brace_nothing_replaced(done, "{bookmarks}"@, bookmarks);
    }
}

/// A placeholder in the template gives way to what it stands for, wherever it stands, and what is
/// around it stays. Bookmarks come last and may hold braces of their own.
pub proof fn a_placeholder_gives_way(
    before: Seq<char>,
    placeholder: Seq<char>,
    behind: Seq<char>,
    name: Seq<char>,
    clip: Clip,
    settings: Json,
)
    requires
        entry(settings, "output"@, "clip_name_template"@).text() == Some(
            before + placeholder + behind,
        ),
        entry(settings, "output"@, "method"@).text() is Some,
        stands_for(placeholder, name, clip, settings) is Some,
        no_brace(before),
        no_brace(behind),
        placeholder == "{bookmarks}"@ || no_brace(stands_for(placeholder, name, clip, settings)->0),
    ensures
        clip_name(name, clip, settings) == before + stands_for(
            placeholder,
            name,
            clip,
            settings,
        )->0 + behind,
{
    filled_in(before, placeholder, behind, name, clip, settings);
}

/// A placeholder in the name of the demo gives way too, once the name stands in the template.
pub proof fn a_placeholder_in_the_demo_gives_way(
    before: Seq<char>,
    behind: Seq<char>,
    first: Seq<char>,
    placeholder: Seq<char>,
    second: Seq<char>,
    name: Seq<char>,
    clip: Clip,
    settings: Json,
)
    requires
        entry(settings, "output"@, "clip_name_template"@).text() == Some(
            before + "{demo_name}"@ + behind,
        ),
        entry(settings, "output"@, "method"@).text() is Some,
        shown_demo(name, settings) == first + placeholder + second,
        placeholder != "{demo_name}"@,
        stands_for(placeholder, name, clip, settings) is Some,
        no_brace(before),
        no_brace(behind),
        no_brace(first),
        no_brace(second),
        placeholder == "{bookmarks}"@ || no_brace(stands_for(placeholder, name, clip, settings)->0),
    ensures
        clip_name(name, clip, settings) == before + first + stands_for(
            placeholder,
            name,
            clip,
            settings,
        )->0 + second + behind,
{
    placeholders_differ();
    let demo = shown_demo(name, settings);
    let value = stands_for(placeholder, name, clip, settings)->0;
    step(before, "{demo_name}"@, behind, "{demo_name}"@, demo);
    both_have_no_brace(before, first);
    both_have_no_brace(second, behind);
    let t = before + first + placeholder + (second + behind);
    assert(before + demo + behind =~= t);
    step(before + first, placeholder, second + behind, "{demo_name}"@, demo);
    filled_in(before + first, placeholder, second + behind, name, clip, settings);
    assert(filled(before + "{demo_name}"@ + behind, name, clip, settings) == filled(
        t,
        name,
        clip,
        settings,
    ));
    assert(before + first + value + (second + behind) =~= before + first + value + second + behind);
}

/// A name without placeholders is the name of the video.
proof fn plain_name_stays(t: Seq<char>, name: Seq<char>, clip: Clip, settings: Json)
    requires
        no_brace(t),
        entry(settings, "output"@, "method"@).text() is Some,
        template(shown_demo(name, settings), clip, settings) == t,
    ensures
        clip_name(name, clip, settings) == t,
{
    placeholders_differ();
    let method = entry(settings, "output"@, "method"@).text()->0;
    no_brace_nothing_replaced(t, "{demo_name}"@, shown_demo(name, settings));
    no_brace_nothing_replaced(t, "{start_tick}"@, decimal(clip.start_tick as int));
    no_brace_nothing_replaced(t, "{end_tick}"@, decimal(clip.end_tick as int));
    no_brace_nothing_replaced(t, "{suffix}"@, suffix(clip));
    no_brace_nothing_replaced(t, "{recording_method}"@, method);
    no_brace_nothing_replaced(t, "{bookmarks}"@, shown_bookmarks(clip, settings));
}

/// A template without placeholders is the name of every video.
pub proof fn a_template_without_placeholders_is_the_name(
    t: Seq<char>,
    name: Seq<char>,
    clip: Clip,
    settings: Json,
)
    requires
        entry(settings, "output"@, "clip_name_template"@).text() == Some(t),
        entry(settings, "output"@, "method"@).text() is Some,
        no_brace(t),
    ensures
        clip_name(name, clip, settings) == t,
{
    plain_name_stays(t, name, clip, settings);
}

/// Without a template the name of a video is made of the demo, the two ticks and the suffix.
pub proof fn a_name_without_a_template(name: Seq<char>, clip: Clip, settings: Json)
    requires
        entry(settings, "output"@, "clip_name_template"@).text() is None,
        entry(settings, "output"@, "method"@).text() is Some,
        no_brace(shown_demo(name, settings)),
    ensures
        clip_name(name, clip, settings) == shown_demo(name, settings) + "_"@ + decimal(
            clip.start_tick as int,
        ) + "-"@ + decimal(clip.end_tick as int) + "_"@ + suffix(clip),
{
    let demo = shown_demo(name, settings);
    let start = decimal(clip.start_tick as int);
    let end = decimal(clip.end_tick as int);
    decimal_holds_digits(clip.start_tick as int);
    decimal_holds_digits(clip.end_tick as int);
    suffix_has_no_brace(clip);
    reveal_strlit("_");
    reveal_strlit("-");
    let t = demo + "_"@ + start + "-"@ + end + "_"@ + suffix(clip);
    both_have_no_brace(demo, "_"@);
    both_have_no_brace(demo + "_"@, start);
    both_have_no_brace(demo + "_"@ + start, "-"@);
    both_have_no_brace(demo + "_"@ + start + "-"@, end);
    both_have_no_brace(demo + "_"@ + start + "-"@ + end, "_"@);
    both_have_no_brace(demo + "_"@ + start + "-"@ + end + "_"@, suffix(clip));
    plain_name_stays(t, name, clip, settings);
}

proof fn both_have_no_brace(a: Seq<char>, b: Seq<char>)
    requires
        no_brace(a),
        no_brace(b),
    ensures
        no_brace(a + b),
{
    assert forall|i: int| 0 <= i < (a + b).len() implies (a + b)[i] != '{' by {
        if i < a.len() {
            assert((a + b)[i] == a[i]);
        } else {
            assert((a + b)[i] == b[i - a.len()]);
        }
    }
}

proof fn suffix_has_no_brace(clip: Clip)
    ensures
        no_brace(suffix(clip)),
{
    reveal_strlit("bm");
    reveal_strlit("ks");
    reveal_strlit("+");
    decimal_holds_digits(clip.ks_value as int);
    let kills = decimal(clip.ks_value as int);
    both_have_no_brace("bm"@, kills);
    both_have_no_brace("bm"@ + kills, "+"@);
    both_have_no_brace("ks"@, kills);
}

/// The suffix tells what a clip shows: bookmarks only, kills only with their number, or both.
pub proof fn the_suffix_tells_what_a_clip_shows(clip: Clip)
    ensures
        !clip.has_killstreak <==> suffix(clip) == "bm"@,
        clip.has_killstreak && !clip.has_bookmark ==> suffix(clip) == "ks"@ + decimal(
            clip.ks_value as int,
        ),
        clip.has_killstreak && clip.has_bookmark ==> suffix(clip) == "bm"@ + decimal(
            clip.ks_value as int,
        ) + "+"@,
{
    reveal_strlit("bm");
    reveal_strlit("ks");
    reveal_strlit("+");
    decimal_holds_digits(clip.ks_value as int);
    let kills = decimal(clip.ks_value as int);
    assert(clip.has_killstreak ==> suffix(clip).len() > 2);
}

/// Without absolute paths a demo is shown under its name. With them the folder of the demos is taken
/// out of it, wherever and however often it stands there.
pub proof fn the_folder_of_the_demos_is_not_shown(
    name: Seq<char>,
    before: Seq<char>,
    rest: Seq<char>,
    settings: Json,
)
    requires
        forall|at: int|
            0 <= at < before.len() ==> !#[trigger] found_at(
                before + "demos\\"@ + rest,
                at,
                "demos\\"@,
            ),
    ensures
        settings.member("absolute_file_paths"@).truth() != Some(true) ==> shown_demo(name, settings)
            == name,
        settings.member("absolute_file_paths"@).truth() == Some(true) ==> shown_demo(
            before + "demos\\"@ + rest,
            settings,
        ) == before + shown_demo(rest, settings),
        found_nowhere(name, "demos\\"@) ==> shown_demo(name, settings) == name,
{
    reveal_strlit("demos\\");
    reveal_strlit("");
    the_first_found_is_replaced(before, "demos\\"@, rest, ""@);
    assert(before + ""@ =~= before);
    if found_nowhere(name, "demos\\"@) {
        nothing_found_nothing_replaced(name, "demos\\"@, ""@);
    }
}

/// The bookmarks are shown only where the settings ask for it, and not where there are none or where
/// the bookmark is the general one.
pub proof fn bookmarks_are_shown_where_asked_for(clip: Clip, settings: Json)
    ensures
        !on(entry(settings, "recording"@, "auto_suffix"@)) ==> shown_bookmarks(clip, settings).len()
            == 0,
        own_bookmarks(clip).len() == 0 ==> shown_bookmarks(clip, settings).len() == 0,
        own_bookmarks(clip) == "General"@ ==> shown_bookmarks(clip, settings).len() == 0,
{
    reveal_strlit("");
    if own_bookmarks(clip).len() == 0 {
        assert(own_bookmarks(clip) =~= ""@);
    }
}

/// Shown bookmarks are those of the clip without the white space around them, with a dash for each
/// space.
pub proof fn shown_bookmarks_have_dashes_for_spaces(clip: Clip, settings: Json)
    requires
        on(entry(settings, "recording"@, "auto_suffix"@)),
        clip.bm_value@.len() > 0,
        clip.bm_value@ != "General"@,
        found_nowhere(clip.bm_value@, "clip_start"@),
        found_nowhere(clip.bm_value@, "clip_end"@),
        found_nowhere(clip.bm_value@, "-spec"@),
    ensures
        own_bookmarks(clip) == clip.bm_value@,
        shown_bookmarks(clip, settings).len() == trimmed(clip.bm_value@).len(),
        forall|i: int|
            0 <= i < trimmed(clip.bm_value@).len() ==> #[trigger] shown_bookmarks(clip, settings)[i]
                == if trimmed(clip.bm_value@)[i] == ' ' {
                '-'
            } else {
                trimmed(clip.bm_value@)[i]
            },
{
    let own = clip.bm_value@;
    reveal_strlit("");
    nothing_found_nothing_replaced(own, "clip_start"@, ""@);
    nothing_found_nothing_replaced(own, "clip_end"@, ""@);
    nothing_found_nothing_replaced(own, "-spec"@, ""@);
    dashes_for_spaces(trimmed(own));
}

proof fn dashes_for_spaces(s: Seq<char>)
    ensures
        replaced(s, " "@, "-"@).len() == s.len(),
        forall|i: int|
            0 <= i < s.len() ==> #[trigger] replaced(s, " "@, "-"@)[i] == if s[i] == ' ' {
                '-'
            } else {
                s[i]
            },
    decreases s.len(),
{
    reveal_strlit(" ");
    reveal_strlit("-");
    if s.len() > 0 {
        let rest = s.skip(1);
        dashes_for_spaces(rest);
        assert(s.take(1)[0] == s[0]);
        if s[0] == ' ' {
            assert(s.take(1) =~= " "@);
        }
        let all = replaced(s, " "@, "-"@);
        assert forall|i: int| 0 <= i < s.len() implies #[trigger] all[i] == if s[i] == ' ' {
            '-'
        } else {
            s[i]
        } by {
            if i > 0 {
                assert(all[i] == replaced(rest, " "@, "-"@)[i - 1]);
            }
        }
    }
}

/// A mark that bounds a clip is taken out of its bookmarks wherever it stands, and what is around it
/// stays.
pub proof fn marks_are_taken_out(clip: Clip, before: Seq<char>, behind: Seq<char>)
    requires
        ({
            let all = clip.bm_value@;
            ||| {
                &&& all == before + "clip_start"@ + behind
                &&& forall|at: int|
                    0 <= at < before.len() ==> !#[trigger] found_at(all, at, "clip_start"@)
                &&& found_nowhere(behind, "clip_start"@)
                &&& found_nowhere(before + behind, "clip_end"@)
            }
            ||| {
                &&& all == before + "clip_end"@ + behind
                &&& forall|at: int|
                    0 <= at < before.len() ==> !#[trigger] found_at(all, at, "clip_end"@)
                &&& found_nowhere(behind, "clip_end"@)
                &&& found_nowhere(all, "clip_start"@)
            }
        }),
    ensures
        own_bookmarks(clip) == before + behind,
{
    reveal_strlit("clip_start");
    reveal_strlit("clip_end");
    reveal_strlit("");
    let all = clip.bm_value@;
    assert(before + ""@ + behind =~= before + behind);
    if all == before + "clip_start"@ + behind && found_nowhere(behind, "clip_start"@)
        && found_nowhere(before + behind, "clip_end"@) && (forall|at: int|
        0 <= at < before.len() ==> !#[trigger] found_at(all, at, "clip_start"@)) {
        the_first_found_is_replaced(before, "clip_start"@, behind, ""@);
        nothing_found_nothing_replaced(behind, "clip_start"@, ""@);
        nothing_found_nothing_replaced(before + behind, "clip_end"@, ""@);
    } else {
        nothing_found_nothing_replaced(all, "clip_start"@, ""@);
        the_first_found_is_replaced(before, "clip_end"@, behind, ""@);
        nothing_found_nothing_replaced(behind, "clip_end"@, ""@);
    }
}

/// The pieces of a template, one after the other.
pub open spec fn together(pieces: Seq<Seq<char>>) -> Seq<char>
    decreases pieces.len(),
{
    if pieces.len() == 0 {
        seq![]
    } else {
        pieces[0] + together(pieces.skip(1))
    }
}

/// Whether `piece` is one of the placeholders.
pub open spec fn names_a_value(piece: Seq<char>) -> bool {
    ||| piece == "{demo_name}"@
    ||| piece == "{start_tick}"@
    ||| piece == "{end_tick}"@
    ||| piece == "{suffix}"@
    ||| piece == "{recording_method}"@
    ||| piece == "{bookmarks}"@
}

/// What a piece of a template becomes: a placeholder becomes what it stands for, and every other
/// piece stays.
pub open spec fn becomes(piece: Seq<char>, name: Seq<char>, clip: Clip, settings: Json) -> Seq<
    char,
> {
    if names_a_value(piece) {
        stands_for(piece, name, clip, settings)->0
    } else {
        piece
    }
}

/// `pieces` with `by` for every piece that is `pattern`.
spec fn exchanged(pieces: Seq<Seq<char>>, pattern: Seq<char>, by: Seq<char>) -> Seq<Seq<char>> {
    Seq::new(
        pieces.len(),
        |i: int|
            if pieces[i] == pattern {
                by
            } else {
                pieces[i]
            },
    )
}

spec fn are_pieces(pieces: Seq<Seq<char>>) -> bool {
    forall|i: int|
        0 <= i < pieces.len() ==> no_brace(#[trigger] pieces[i]) || names_a_value(pieces[i])
}

proof fn exchange(pieces: Seq<Seq<char>>, pattern: Seq<char>, by: Seq<char>)
    requires
        are_pieces(pieces),
        names_a_value(pattern),
    ensures
        replaced(together(pieces), pattern, by) == together(exchanged(pieces, pattern, by)),
        no_brace(by) ==> are_pieces(exchanged(pieces, pattern, by)),
    decreases pieces.len(),
{
    placeholders_differ();
    if no_brace(by) {
        let after = exchanged(pieces, pattern, by);
        assert forall|i: int| 0 <= i < after.len() implies no_brace(#[trigger] after[i])
            || names_a_value(after[i]) by {
            assert(no_brace(pieces[i]) || names_a_value(pieces[i]));
        }
    }
    if pieces.len() > 0 {
        let piece = pieces[0];
        let rest = pieces.skip(1);
        assert(no_brace(pieces[0]) || names_a_value(pieces[0]));
        assert forall|i: int| 0 <= i < rest.len() implies no_brace(#[trigger] rest[i])
            || names_a_value(rest[i]) by {
            assert(no_brace(pieces[i + 1]) || names_a_value(pieces[i + 1]));
        }
        exchange(rest, pattern, by);
        assert(exchanged(pieces, pattern, by).skip(1) =~= exchanged(rest, pattern, by));
        let behind = together(rest);
        let s = piece + behind;
        if piece == pattern {
            let none = Seq::<char>::empty();
            assert(none + pattern + behind =~= s);
            the_first_found_is_replaced(none, pattern, behind, by);
            assert(none + by + replaced(behind, pattern, by) =~= by + replaced(
                behind,
                pattern,
                by,
            ));
        } else {
            assert forall|at: int| 0 <= at < piece.len() implies !#[trigger] found_at(
                s,
                at,
                pattern,
            ) by {
                if found_at(s, at, pattern) {
                    let there = s.subrange(at, at + pattern.len());
                    assert(there[0] == s[at] && there[1] == s[at + 1] && there[2] == s[at + 2]);
                    assert(s[at] == piece[at]);
                    if !no_brace(piece) {
                        assert(is_placeholder(piece));
                        assert(at == 0);
                        assert(s[1] == piece[1] && s[2] == piece[2]);
                    }
                }
            }
            a_beginning_without_the_pattern_stays(piece, behind, pattern, by);
        }
    } else {
        assert(together(exchanged(pieces, pattern, by)) =~= seq![]);
    }
}

/// Every placeholder in a template gives way to what it stands for, however many there are and
/// wherever they stand, and what is between them stays.
pub proof fn every_placeholder_gives_way(
    pieces: Seq<Seq<char>>,
    name: Seq<char>,
    clip: Clip,
    settings: Json,
)
    requires
        entry(settings, "output"@, "clip_name_template"@).text() == Some(together(pieces)),
        entry(settings, "output"@, "method"@).text() is Some,
        forall|i: int|
            0 <= i < pieces.len() ==> no_brace(#[trigger] pieces[i]) || names_a_value(pieces[i]),
        no_brace(shown_demo(name, settings)),
        no_brace(entry(settings, "output"@, "method"@).text()->0),
    ensures
        clip_name(name, clip, settings) == together(
            pieces.map_values(|piece: Seq<char>| becomes(piece, name, clip, settings)),
        ),
{
    placeholders_differ();
    let demo = shown_demo(name, settings);
    let start = decimal(clip.start_tick as int);
    let end = decimal(clip.end_tick as int);
    let method = entry(settings, "output"@, "method"@).text()->0;
    let bookmarks = shown_bookmarks(clip, settings);
    decimal_holds_digits(clip.start_tick as int);
    decimal_holds_digits(clip.end_tick as int);
    suffix_has_no_brace(clip);
    assert(are_pieces(pieces));
    let p1 = exchanged(pieces, "{demo_name}"@, demo);
    let p2 = exchanged(p1, "{start_tick}"@, start);
    let p3 = exchanged(p2, "{end_tick}"@, end);
    let p4 = exchanged(p3, "{suffix}"@, suffix(clip));
    let p5 = exchanged(p4, "{recording_method}"@, method);
    let p6 = exchanged(p5, "{bookmarks}"@, bookmarks);
    exchange(pieces, "{demo_name}"@, demo);
    exchange(p1, "{start_tick}"@, start);
    exchange(p2, "{end_tick}"@, end);
    exchange(p3, "{suffix}"@, suffix(clip));
    exchange(p4, "{recording_method}"@, method);
    exchange(p5, "{bookmarks}"@, bookmarks);
    let done = pieces.map_values(|piece: Seq<char>| becomes(piece, name, clip, settings));
    assert forall|i: int| 0 <= i < pieces.len() implies #[trigger] p6[i] == done[i] by {
        values_are_no_placeholders(demo);
        values_are_no_placeholders(start);
        values_are_no_placeholders(end);
        values_are_no_placeholders(suffix(clip));
        values_are_no_placeholders(method);
    }
    assert(p6 =~= done);
}

/// A value without braces is no placeholder.
proof fn values_are_no_placeholders(value: Seq<char>)
    requires
        no_brace(value),
    ensures
        !names_a_value(value),
{
    placeholders_differ();
}

} // verus!
