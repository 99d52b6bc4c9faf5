//! Laws on which events make up which clip.

use crate::event::{EventView, StyleView};
use crate::grouping::{
    can_decide, demo_end, demo_start, fate, grouped, placement, FateView, Mark, Placement,
};
use crate::json::Json;
use crate::laws::settings::entry;
use crate::laws::text::{
    found_at, found_nowhere, nothing_found_nothing_replaced, the_first_found_is_replaced,
};
use vstd::prelude::*;

verus! {

/// An event that is recorded adds no clip exactly if there is a clip and the last one can take it,
/// however many there are: it then comes last in that clip. Otherwise it makes a clip of its own.
/// Every other clip stays.
pub proof fn an_event_that_fits_joins_the_last_clip(
    fates: Seq<FateView>,
    fits: Seq<bool>,
    event: EventView,
)
    requires
        fates.len() > 0,
        fates.last() == FateView::Placed(event),
    ensures
        ({
            let before = grouped(fates.drop_last(), fits);
            let after = grouped(fates, fits);
            let joins = before.len() > 0 && fits[fates.len() - 1];
            &&& joins <==> after.len() == before.len()
            &&& !joins <==> after.len() == before.len() + 1
            &&& after.len() > 0
            &&& after.last().last() == event
            &&& joins ==> {
                &&& after.last().drop_last() == before.last()
                &&& after.drop_last() == before.drop_last()
            }
            &&& !joins ==> {
                &&& after.last().len() == 1
                &&& after.drop_last() == before
            }
        }),
{
    let n = fates.len() - 1;
    let before = grouped(fates.drop_last(), fits);
    let after = grouped(fates, fits);
    if before.len() > 0 && fits[n] {
        assert(after.last().drop_last() =~= before.last());
        assert(after.drop_last() =~= before.drop_last());
    } else {
        assert(after.drop_last() =~= before);
    }
}

/// A skipped event leaves the clips as they are.
pub proof fn a_skipped_event_changes_nothing(fates: Seq<FateView>, fits: Seq<bool>)
    requires
        fates.len() > 0,
        fates.last() is Skipped,
    ensures
        grouped(fates, fits) == grouped(fates.drop_last(), fits),
{
}

/// A whole demo is always a clip of its own: its start, and its end where that fits.
pub proof fn a_whole_demo_is_a_clip_of_its_own(
    fates: Seq<FateView>,
    fits: Seq<bool>,
    start: EventView,
    end: EventView,
)
    requires
        fates.len() > 0,
        fates.last() == (FateView::Whole { start, end }),
    ensures
        ({
            let before = grouped(fates.drop_last(), fits);
            let after = grouped(fates, fits);
            &&& after.len() == before.len() + 1
            &&& after.drop_last() == before
            &&& after.last()[0] == start
            &&& after.last().len() == (if fits[fates.len() - 1] {
                2int
            } else {
                1int
            })
            &&& fits[fates.len() - 1] ==> after.last()[1] == end
        }),
{
    assert(grouped(fates, fits).drop_last() =~= grouped(fates.drop_last(), fits));
}

/// What is said to be done with the clips is what happens to them.
pub proof fn a_placement_says_what_happens(fates: Seq<FateView>, fits: Seq<bool>)
    requires
        fates.len() > 0,
    ensures
        ({
            let before = grouped(fates.drop_last(), fits);
            let after = grouped(fates, fits);
            let said = placement(before.len(), fates.last(), fits[fates.len() - 1]);
            &&& said == Placement::Nowhere <==> fates.last() is Skipped
            &&& said == Placement::LastClip <==> fates.last() is Placed && after.len()
                == before.len()
            &&& said == Placement::NewClip <==> fates.last() is Placed && after.len()
                == before.len() + 1
            &&& said == Placement::WholeDemo <==> fates.last() is Whole && after.last().len() == 2
            &&& said == Placement::StartOfDemo <==> fates.last() is Whole && after.last().len() == 1
        }),
{
}

/// An event is skipped exactly if its mark says so or its demo cannot be loaded, and an event without
/// a mark is always recorded as it is.
pub proof fn only_marked_events_are_not_recorded_as_they_are(
    event: EventView,
    mark: Mark,
    demo: Json,
    settings: Json,
)
    ensures
        ({
            let r = fate(event, mark, demo, settings);
            let loaded = demo.member("loaded"@).truth() == Some(true);
            &&& r is Skipped <==> mark == Mark::Skip || mark == Mark::WholeDemo && !loaded
            &&& r is Whole <==> mark == Mark::WholeDemo && loaded && event.value is Bookmark
            &&& r is Placed ==> r->Placed_0 == event
            &&& mark == Mark::Plain ==> r == FateView::Placed(event)
        }),
{
}

/// A whole demo is recorded from the delay of the settings until 99 ticks before its end, between a
/// start mark and an end mark of the same demo and line.
pub proof fn a_whole_demo_lasts_from_the_delay_to_its_end(
    event: EventView,
    demo: Json,
    settings: Json,
    delay: i64,
    ticks: i64,
)
    requires
        demo.member("loaded"@).truth() == Some(true),
        event.value is Bookmark,
        entry(settings, "recording"@, "start_delay"@).integer() == Some(delay),
        entry(demo, "header"@, "ticks"@).integer() == Some(ticks),
    ensures
        ({
            let start = demo_start(event, settings);
            let end = demo_end(event, demo);
            &&& fate(event, Mark::WholeDemo, demo, settings) == (FateView::Whole { start, end })
            &&& start.tick == delay
            &&& end.tick + 99 == ticks
            &&& start.demo_name == event.demo_name && end.demo_name == event.demo_name
            &&& start.event == event.event && end.event == event.event
            &&& end.value == StyleView::Bookmark("clip_end"@)
            &&& start.value is Bookmark
        }),
{
}

/// The mark for the whole demo becomes a start mark, wherever it stands, and what is around it in the
/// bookmark stays.
pub proof fn the_mark_becomes_a_start_mark(
    event: EventView,
    before: Seq<char>,
    rest: Seq<char>,
    settings: Json,
)
    requires
        event.value == StyleView::Bookmark(before + "mls_rec_demo"@ + rest),
        forall|at: int|
            0 <= at < before.len() ==> !#[trigger] found_at(
                before + "mls_rec_demo"@ + rest,
                at,
                "mls_rec_demo"@,
            ),
        found_nowhere(rest, "mls_rec_demo"@),
    ensures
        demo_start(event, settings).value == StyleView::Bookmark(before + "clip_start"@ + rest),
{
    reveal_strlit("mls_rec_demo");
    the_first_found_is_replaced(before, "mls_rec_demo"@, rest, "clip_start"@);
    nothing_found_nothing_replaced(rest, "mls_rec_demo"@, "clip_start"@);
}

/// An event without the mark for the whole demo can always be decided, and one with it can where the
/// delay and the ticks are given.
pub proof fn an_ordinary_event_can_be_decided(
    event: EventView,
    mark: Mark,
    demo: Json,
    settings: Json,
)
    ensures
        mark != Mark::WholeDemo ==> can_decide(event, mark, demo, settings),
        demo.member("loaded"@).truth() == Some(false) ==> can_decide(event, mark, demo, settings),
        demo.member("loaded"@).truth() is Some && entry(
            settings,
            "recording"@,
            "start_delay"@,
        ).integer() is Some && (entry(demo, "header"@, "ticks"@).integer() matches Some(ticks)
            && ticks >= 0) ==> can_decide(event, mark, demo, settings),
{
}

} // verus!
