//! Which events make up which clip.
//!
//! The events come in the order of the file. Each is skipped, has its whole demo recorded as a clip
//! of its own, joins the last clip, or starts a clip. Whether a clip can take an event is asked of
//! the clip.

use crate::clip::Clip;
use crate::event::{event_views, Event, EventStyle, EventView, StyleView};
use crate::grammar::{all_captures, CaptureView};
use crate::json::Json;
use crate::lines::{
    captures_in, captures_of_event_lines, captures_of_lines, is_event_line, joined, one_line,
};
use crate::scripts::scripts;
use crate::settings::setting;
use crate::text::{replace, replaced};
use vstd::prelude::*;

verus! {

/// What the marks in an event ask for.
#[derive(Debug, Clone, Copy, PartialEq, Eq, Structural)]
pub enum Mark {
    /// The event is an ordinary one.
    Plain,
    /// The event is not recorded.
    Skip,
    /// The whole demo is recorded.
    WholeDemo,
}

/// The mark that has an event skipped.
pub const SKIP_MARK: &'static str = "mls_skip";

/// The mark that has the whole demo of an event recorded.
pub const WHOLE_DEMO_MARK: &'static str = "mls_rec_demo";

/// What an event asks for that does or does not contain each of the marks.
pub fn mark_of(contains_skip: bool, contains_whole_demo: bool) -> (r: Mark)
    ensures
        r == (if contains_skip {
            Mark::Skip
        } else if contains_whole_demo {
            Mark::WholeDemo
        } else {
            Mark::Plain
        }),
{
    if contains_skip {
        Mark::Skip
    } else if contains_whole_demo {
        Mark::WholeDemo
    } else {
        Mark::Plain
    }
}

/// What becomes of an event.
#[derive(Debug)]
pub enum Fate {
    /// It is not recorded.
    Skipped,
    /// It is recorded.
    Placed(Event),
    /// The demo is recorded from the first event to the second one.
    Whole { start: Event, end: Event },
}

/// What becomes of an event.
pub enum FateView {
    Skipped,
    Placed(EventView),
    Whole { start: EventView, end: EventView },
}

impl View for Fate {
    type V = FateView;

    open spec fn view(&self) -> FateView {
        match self {
            Fate::Skipped => FateView::Skipped,
            Fate::Placed(event) => FateView::Placed(event@),
            Fate::Whole { start, end } => FateView::Whole { start: start@, end: end@ },
        }
    }
}

/// The event at which the recording of the whole demo starts: the bookmark with a start mark in
/// place of its own, at the delay of the settings.
pub open spec fn demo_start(event: EventView, settings: Json) -> EventView {
    EventView {
        tick: setting(settings, "recording"@, "start_delay"@).integer()->0 as int,
        value: StyleView::Bookmark(
            replaced(event.value->Bookmark_0, WHOLE_DEMO_MARK@, "clip_start"@),
        ),
        ..event
    }
}

/// The ticks of a demo.
pub open spec fn demo_ticks(demo: Json) -> Option<i64> {
    demo.member("header"@).member("ticks"@).integer()
}

/// The event at which the recording of the whole demo ends: an end mark, one and a half seconds
/// before the demo does.
pub open spec fn demo_end(event: EventView, demo: Json) -> EventView {
    EventView {
        tick: demo_ticks(demo)->0 - 99,
        value: StyleView::Bookmark("clip_end"@),
        ..event
    }
}

/// What becomes of `event`. Its mark decides, and where the whole demo is to be recorded, whether
/// the demo could be loaded. Only a bookmark has its whole demo recorded.
pub open spec fn fate(event: EventView, mark: Mark, demo: Json, settings: Json) -> FateView {
    match mark {
        Mark::Skip => FateView::Skipped,
        Mark::Plain => FateView::Placed(event),
        Mark::WholeDemo => if demo.member("loaded"@).truth() != Some(true) {
            FateView::Skipped
        } else if event.value is Bookmark {
            FateView::Whole { start: demo_start(event, settings), end: demo_end(event, demo) }
        } else {
            FateView::Placed(event)
        },
    }
}

/// Whether what decides about an event is at hand: for a demo that is to be recorded, whether it
/// could be loaded, and for a bookmark in it also the delay of the settings and the ticks of the
/// demo.
pub open spec fn can_decide(event: EventView, mark: Mark, demo: Json, settings: Json) -> bool {
    mark == Mark::WholeDemo ==> {
        &&& demo.member("loaded"@).truth() is Some
        &&& demo.member("loaded"@).truth() == Some(true) && event.value is Bookmark ==> {
            &&& setting(settings, "recording"@, "start_delay"@).integer() is Some
            &&& demo_ticks(demo) matches Some(ticks) && ticks - 99 >= i64::MIN
        }
    }
}

/// Whether what decides about an event is at hand.
pub fn is_decidable(event: &Event, mark: Mark, demo: &Json, settings: &Json) -> (r: bool)
    ensures
        r == can_decide(event@, mark, *demo, *settings),
{
    if mark != Mark::WholeDemo {
        return true;
    }
    match (demo.get("loaded").as_bool(), &event.value) {
        (Some(true), EventStyle::Bookmark(_)) => {},
        (loaded, _) => {
            return loaded.is_some();
        },
    }
    let ticks_fit = match demo.get("header").get("ticks").as_i64() {
        Some(ticks) => ticks >= i64::MIN + 99,
        None => false,
    };
    ticks_fit && settings.get("recording").get("start_delay").as_i64().is_some()
}

/// What becomes of `event`. `demo` matters only where the mark asks for the whole demo.
pub fn decide(event: Event, mark: Mark, demo: &Json, settings: &Json) -> (r: Fate)
    requires
        can_decide(event@, mark, *demo, *settings),
    ensures
        r@ == fate(event@, mark, *demo, *settings),
{
    match mark {
        Mark::Skip => Fate::Skipped,
        Mark::Plain => Fate::Placed(event),
        Mark::WholeDemo => {
            match demo.get("loaded").as_bool() {
                Some(true) => {},
                _ => {
                    return Fate::Skipped;
                },
            }
            if let EventStyle::Bookmark(text) = &event.value {
                proof {
                    reveal_strlit("mls_rec_demo");
                }
                let delay: i64 = match settings.get("recording").get("start_delay").as_i64() {
                    Some(delay) => delay,
                    None => 0,
                };
                let ticks: i64 = match demo.get("header").get("ticks").as_i64() {
                    Some(ticks) => ticks,
                    None => 0,
                };
                let start = Event {
                    event: event.event.clone(),
                    demo_name: event.demo_name.clone(),
                    tick: delay,
                    value: EventStyle::Bookmark(
                        replace(text.as_str(), WHOLE_DEMO_MARK, "clip_start"),
                    ),
                };
                let end = Event {
                    event: event.event.clone(),
                    demo_name: event.demo_name.clone(),
                    tick: ticks - 99,
                    value: EventStyle::Bookmark("clip_end".to_owned()),
                };
                return Fate::Whole { start, end };
            }
            Fate::Placed(event)
        },
    }
}

/// What is done with the clips.
#[derive(Debug, Clone, Copy, PartialEq, Eq, Structural)]
pub enum Placement {
    /// They stay as they are.
    Nowhere,
    /// A new clip is made of the event.
    NewClip,
    /// The event is added to the last clip.
    LastClip,
    /// A new clip is made of the start and the end of the demo.
    WholeDemo,
    /// A new clip is made of the start of the demo alone.
    StartOfDemo,
}

/// The clips so far, each as the events that it is made of, and the number of events so far.
#[derive(Debug)]
pub struct Grouping {
    pub clips: Vec<Vec<Event>>,
    pub event_count: u64,
}

/// The events of each of `clips`.
pub open spec fn group_views(clips: Seq<Vec<Event>>) -> Seq<Seq<EventView>> {
    Seq::new(clips.len(), |i: int| event_views(clips[i]@))
}

/// What is done for an event where there are `clips` clips so far. `fits` says whether the last clip, or the
/// clip that the start of the demo makes, can take the event or the end of the demo.
pub open spec fn placement(clips: nat, fate: FateView, fits: bool) -> Placement {
    match fate {
        FateView::Skipped => Placement::Nowhere,
        FateView::Whole { .. } => if fits {
            Placement::WholeDemo
        } else {
            Placement::StartOfDemo
        },
        FateView::Placed(_) => if clips > 0 && fits {
            Placement::LastClip
        } else {
            Placement::NewClip
        },
    }
}

/// The events that an event stands for in the clips.
pub open spec fn kept(fate: FateView, fits: bool) -> Seq<EventView> {
    match fate {
        FateView::Skipped => seq![],
        FateView::Placed(event) => seq![event],
        FateView::Whole { start, end } => if fits {
            seq![start, end]
        } else {
            seq![start]
        },
    }
}

/// The clips `clips` once an event is placed.
pub open spec fn placed(clips: Seq<Seq<EventView>>, fate: FateView, fits: bool) -> Seq<
    Seq<EventView>,
> {
    match placement(clips.len(), fate, fits) {
        Placement::Nowhere => clips,
        Placement::LastClip => clips.drop_last().push(clips.last() + kept(fate, fits)),
        _ => clips.push(kept(fate, fits)),
    }
}

impl Grouping {
    /// No clip and no event.
    pub fn new() -> (r: Grouping)
        ensures
            group_views(r.clips@) == Seq::<Seq<EventView>>::empty(),
            r.event_count == 0,
    {
        let r = Grouping { clips: Vec::new(), event_count: 0 };
        assert(group_views(r.clips@) =~= Seq::<Seq<EventView>>::empty());
        r
    }

    /// Places an event, and says what is to be done with the clips.
    pub fn place(&mut self, fate: Fate, fits: bool) -> (r: Placement)
        requires
            old(self).event_count < u64::MAX,
        ensures
            r == placement(old(self).clips@.len(), fate@, fits),
            group_views(final(self).clips@) == placed(group_views(old(self).clips@), fate@, fits),
            final(self).event_count == old(self).event_count + 1,
    {
        let ghost before = self.clips@;
        self.event_count = self.event_count + 1;
        match fate {
            Fate::Skipped => Placement::Nowhere,
            Fate::Whole { start, end } => {
                let mut clip: Vec<Event> = Vec::new();
                clip.push(start);
                if fits {
                    clip.push(end);
                }
                assert(event_views(clip@) =~= kept(fate@, fits));
                self.clips.push(clip);
                assert(group_views(self.clips@) =~= group_views(before).push(kept(fate@, fits)));
                if fits {
                    Placement::WholeDemo
                } else {
                    Placement::StartOfDemo
                }
            },
            Fate::Placed(event) => {
                if self.clips.len() > 0 && fits {
                    if let Some(clip) = self.clips.pop() {
                        let mut clip = clip;
                        let ghost earlier = clip@;
                        clip.push(event);
                        assert(event_views(clip@) =~= event_views(earlier) + kept(fate@, fits));
                        self.clips.push(clip);
                    }
                    assert(group_views(self.clips@) =~= group_views(before).drop_last().push(
                        group_views(before).last() + kept(fate@, fits),
                    ));
                    Placement::LastClip
                } else {
                    let mut clip: Vec<Event> = Vec::new();
                    clip.push(event);
                    assert(event_views(clip@) =~= kept(fate@, fits));
                    self.clips.push(clip);
                    assert(group_views(self.clips@) =~= group_views(before).push(
                        kept(fate@, fits),
                    ));
                    Placement::NewClip
                }
            },
        }
    }
}

/// The clips once the events with the fates `fates` are placed, one after the other.
pub open spec fn grouped(fates: Seq<FateView>, fits: Seq<bool>) -> Seq<Seq<EventView>>
    decreases fates.len(),
{
    if fates.len() == 0 {
        seq![]
    } else {
        let n = fates.len() - 1;
        placed(grouped(fates.drop_last(), fits), fates[n], fits[n])
    }
}

/// The events that the events with the fates `fates` stand for, one after the other.
pub open spec fn all_kept(fates: Seq<FateView>, fits: Seq<bool>) -> Seq<EventView>
    decreases fates.len(),
{
    if fates.len() == 0 {
        seq![]
    } else {
        let n = fates.len() - 1;
        all_kept(fates.drop_last(), fits) + kept(fates[n], fits[n])
    }
}

/// The events of `clips`, one clip after the other.
pub open spec fn flat(clips: Seq<Seq<EventView>>) -> Seq<EventView>
    decreases clips.len(),
{
    if clips.len() == 0 {
        seq![]
    } else {
        flat(clips.drop_last()) + clips.last()
    }
}

/// No event that is to be recorded is lost or moved: one after the other, the clips hold what the
/// events stand for, in their order, and no clip is empty.
pub proof fn clips_keep_the_events(fates: Seq<FateView>, fits: Seq<bool>)
    ensures
        flat(grouped(fates, fits)) == all_kept(fates, fits),
        forall|i: int|
            0 <= i < grouped(fates, fits).len() ==> (#[trigger] grouped(fates, fits)[i]).len() > 0,
    decreases fates.len(),
{
    if fates.len() > 0 {
        let n = fates.len() - 1;
        let before = grouped(fates.drop_last(), fits);
        let after = grouped(fates, fits);
        clips_keep_the_events(fates.drop_last(), fits);
        match placement(before.len(), fates[n], fits[n]) {
            Placement::Nowhere => {
                assert(flat(after) =~= all_kept(fates, fits));
            },
            Placement::LastClip => {
                assert(after.drop_last() =~= before.drop_last());
                assert(flat(after) =~= flat(before) + kept(fates[n], fits[n]));
                assert forall|i: int| 0 <= i < after.len() implies (#[trigger] after[i]).len()
                    > 0 by {
                    assert(before[i].len() > 0);
                }
            },
            _ => {
                assert(after.drop_last() =~= before);
                assert forall|i: int| 0 <= i < after.len() implies (#[trigger] after[i]).len()
                    > 0 by {
                    if i < before.len() {
                        assert(before[i].len() > 0);
                    }
                }
            },
        }
    }
}

/// `fates` without those of the events that are skipped.
pub open spec fn not_skipped(fates: Seq<FateView>) -> Seq<FateView>
    decreases fates.len(),
{
    if fates.len() == 0 {
        seq![]
    } else {
        let before = not_skipped(fates.drop_last());
        if fates.last() is Skipped {
            before
        } else {
            before.push(fates.last())
        }
    }
}

/// `fits` without the answers for the events that are skipped.
pub open spec fn fits_not_skipped(fates: Seq<FateView>, fits: Seq<bool>) -> Seq<bool>
    decreases fates.len(),
{
    if fates.len() == 0 {
        seq![]
    } else {
        let before = fits_not_skipped(fates.drop_last(), fits);
        if fates.last() is Skipped {
            before
        } else {
            before.push(fits[fates.len() - 1])
        }
    }
}

/// The number of events that are skipped.
pub open spec fn skipped(fates: Seq<FateView>) -> nat
    decreases fates.len(),
{
    if fates.len() == 0 {
        0
    } else if fates.last() is Skipped {
        skipped(fates.drop_last()) + 1
    } else {
        skipped(fates.drop_last())
    }
}

/// The clips are the same where the skipped events are left out; only the number of events is
/// smaller by as many.
pub proof fn skipped_events_leave_the_clips(fates: Seq<FateView>, fits: Seq<bool>)
    ensures
        grouped(not_skipped(fates), fits_not_skipped(fates, fits)) == grouped(fates, fits),
        fates.len() == not_skipped(fates).len() + skipped(fates),
        fits_not_skipped(fates, fits).len() == not_skipped(fates).len(),
    decreases fates.len(),
{
    if fates.len() > 0 {
        let before = fates.drop_last();
        skipped_events_leave_the_clips(before, fits);
        if !(fates.last() is Skipped) {
            let left = not_skipped(before);
            let answers = fits_not_skipped(before, fits);
            let answer = fits[fates.len() - 1];
            assert(left.push(fates.last()).drop_last() =~= left);
            later_answers_do_not_matter(left, answers, answer);
        }
    }
}

proof fn later_answers_do_not_matter(fates: Seq<FateView>, fits: Seq<bool>, later: bool)
    requires
        fits.len() >= fates.len(),
    ensures
        grouped(fates, fits.push(later)) == grouped(fates, fits),
    decreases fates.len(),
{
    if fates.len() > 0 {
        later_answers_do_not_matter(fates.drop_last(), fits, later);
    }
}

/// There are no more clips than events.
pub proof fn no_more_clips_than_events(fates: Seq<FateView>, fits: Seq<bool>)
    ensures
        grouped(fates, fits).len() <= fates.len(),
    decreases fates.len(),
{
    if fates.len() > 0 {
        no_more_clips_than_events(fates.drop_last(), fits);
    }
}

/// What becomes of the events of `text`, where `read` says it of the event of a line.
pub open spec fn fates_in(text: Seq<char>, read: spec_fn(CaptureView) -> FateView) -> Seq<FateView> {
    all_captures(text).map_values(read)
}

/// The clips `groups`, where `make` makes a clip of its events.
pub open spec fn clips_made(
    groups: Seq<Seq<EventView>>,
    make: spec_fn(Seq<EventView>) -> Clip,
) -> Seq<Clip> {
    groups.map_values(make)
}

/// Those of `lines` for which `picked` has the value `which`.
pub open spec fn chosen(lines: Seq<Seq<char>>, picked: Seq<bool>, which: bool) -> Seq<Seq<char>>
    decreases lines.len(),
{
    if lines.len() == 0 {
        seq![]
    } else if picked[0] == which {
        seq![lines[0]] + chosen(lines.skip(1), picked.skip(1), which)
    } else {
        chosen(lines.skip(1), picked.skip(1), which)
    }
}

/// Whether every event of `line` is skipped.
pub open spec fn only_skipped(line: Seq<char>, read: spec_fn(CaptureView) -> FateView) -> bool {
    forall|i: int|
        0 <= i < all_captures(line).len() ==> read(#[trigger] all_captures(line)[i]) is Skipped
}

/// A text from which lines are taken out whose events are all skipped, `gone`, makes the same clips
/// and the same scripts. Only the number of events is smaller, by that of the events in those lines:
/// by one for each line of an event. The clips give the same answers for the events that are not
/// skipped.
pub proof fn skipped_lines_leave_the_scripts(
    lines: Seq<Seq<char>>,
    gone: Seq<bool>,
    read: spec_fn(CaptureView) -> FateView,
    fits: Seq<bool>,
    fits_left: Seq<bool>,
    make: spec_fn(Seq<EventView>) -> Clip,
    settings: Json,
    loaded: Seq<Json>,
)
    requires
        gone.len() == lines.len(),
        forall|i: int| 0 <= i < lines.len() ==> one_line(#[trigger] lines[i]),
        forall|i: int| 0 <= i < lines.len() && gone[i] ==> only_skipped(#[trigger] lines[i], read),
        fits_not_skipped(fates_in(joined(lines), read), fits) == fits_not_skipped(
            fates_in(joined(chosen(lines, gone, false)), read),
            fits_left,
        ),
    ensures
        ({
            let before = fates_in(joined(lines), read);
            let after = fates_in(joined(chosen(lines, gone, false)), read);
            let taken = chosen(lines, gone, true);
            &&& grouped(after, fits_left) == grouped(before, fits)
            &&& scripts(clips_made(grouped(after, fits_left), make), settings, loaded) == scripts(
                clips_made(grouped(before, fits), make),
                settings,
                loaded,
            )
            &&& before.len() == after.len() + captures_in(taken).len()
            &&& (forall|i: int| 0 <= i < taken.len() ==> is_event_line(#[trigger] taken[i]))
                ==> before.len() == after.len() + taken.len()
        }),
{
    let before = fates_in(joined(lines), read);
    let left = chosen(lines, gone, false);
    let taken = chosen(lines, gone, true);
    let after = fates_in(joined(left), read);
    chosen_lines_are_lines(lines, gone, false);
    captures_of_lines(lines);
    captures_of_lines(left);
    fates_without_skipped_lines(lines, gone, read);
    skipped_events_leave_the_clips(before, fits);
    skipped_events_leave_the_clips(after, fits_left);
    if forall|i: int| 0 <= i < taken.len() ==> is_event_line(#[trigger] taken[i]) {
        captures_of_event_lines(taken);
    }
}

proof fn chosen_lines_are_lines(lines: Seq<Seq<char>>, picked: Seq<bool>, which: bool)
    requires
        forall|i: int| 0 <= i < lines.len() ==> one_line(#[trigger] lines[i]),
    ensures
        forall|i: int|
            0 <= i < chosen(lines, picked, which).len() ==> one_line(
                #[trigger] chosen(lines, picked, which)[i],
            ),
    decreases lines.len(),
{
    if lines.len() > 0 {
        let rest = chosen(lines.skip(1), picked.skip(1), which);
        assert forall|i: int| 0 <= i < lines.skip(1).len() implies one_line(
            #[trigger] lines.skip(1)[i],
        ) by {
            assert(one_line(lines[i + 1]));
        }
        chosen_lines_are_lines(lines.skip(1), picked.skip(1), which);
        let all = chosen(lines, picked, which);
        assert forall|i: int| 0 <= i < all.len() implies one_line(#[trigger] all[i]) by {
            assert(one_line(lines[0]));
            if picked[0] == which && i > 0 {
                assert(all[i] == rest[i - 1]);
            }
        }
    }
}

/// The lines that are taken out hold skipped events only, so the others stay.
proof fn fates_without_skipped_lines(
    lines: Seq<Seq<char>>,
    gone: Seq<bool>,
    read: spec_fn(CaptureView) -> FateView,
)
    requires
        gone.len() == lines.len(),
        forall|i: int| 0 <= i < lines.len() && gone[i] ==> only_skipped(#[trigger] lines[i], read),
    ensures
        not_skipped(captures_in(lines).map_values(read)) == not_skipped(
            captures_in(chosen(lines, gone, false)).map_values(read),
        ),
        captures_in(lines).len() == captures_in(chosen(lines, gone, false)).len() + captures_in(
            chosen(lines, gone, true),
        ).len(),
    decreases lines.len(),
{
    if lines.len() > 0 {
        let rest = lines.skip(1);
        let rest_gone = gone.skip(1);
        assert forall|i: int| 0 <= i < rest.len() && rest_gone[i] implies only_skipped(
            #[trigger] rest[i],
            read,
        ) by {
            assert(only_skipped(lines[i + 1], read));
        }
        fates_without_skipped_lines(rest, rest_gone, read);
        let first = all_captures(lines[0]).map_values(read);
        let others = captures_in(rest).map_values(read);
        assert(captures_in(lines).map_values(read) =~= first + others);
        not_skipped_of_both(first, others);
        let left = chosen(rest, rest_gone, false);
        if gone[0] {
            assert(only_skipped(lines[0], read));
            assert forall|i: int| 0 <= i < first.len() implies first[i] is Skipped by {
                assert(read(all_captures(lines[0])[i]) is Skipped);
            }
            nothing_but_skipped(first);
            let taken = chosen(lines, gone, true);
            assert(taken.skip(1) =~= chosen(rest, rest_gone, true));
            assert(not_skipped(first) + not_skipped(others) =~= not_skipped(others));
        } else {
            let kept_lines = chosen(lines, gone, false);
            assert(kept_lines.skip(1) =~= left);
            let later = captures_in(left).map_values(read);
            assert(captures_in(kept_lines).map_values(read) =~= first + later);
            not_skipped_of_both(first, later);
        }
    }
}

proof fn not_skipped_of_both(first: Seq<FateView>, second: Seq<FateView>)
    ensures
        not_skipped(first + second) == not_skipped(first) + not_skipped(second),
    decreases second.len(),
{
    if second.len() == 0 {
        assert(first + second =~= first);
        assert(not_skipped(first) + not_skipped(second) =~= not_skipped(first));
    } else {
        assert((first + second).drop_last() =~= first + second.drop_last());
        not_skipped_of_both(first, second.drop_last());
        assert(not_skipped(first + second) =~= not_skipped(first) + not_skipped(second));
    }
}

proof fn nothing_but_skipped(fates: Seq<FateView>)
    requires
        forall|i: int| 0 <= i < fates.len() ==> fates[i] is Skipped,
    ensures
        not_skipped(fates) == Seq::<FateView>::empty(),
    decreases fates.len(),
{
    if fates.len() > 0 {
        nothing_but_skipped(fates.drop_last());
    }
}

} // verus!
