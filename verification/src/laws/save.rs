//! Laws on events and how they are saved.

use crate::event::{built_event, is_event, noted_value, EventView, StyleView};
use crate::grammar::first_capture;
use crate::json::Json;
use crate::laws::text::{
    different_numbers_have_different_texts, found_nowhere, nothing_found_nothing_replaced,
};
use crate::lines::joined;
use crate::save::{
    line_parts, readable, saved_event, saved_events, saved_text, steps, unchanged, EntryView,
    ItemView,
};
use crate::text::decimal;
use vstd::prelude::*;

verus! {

/// Whether the line of an event of the user interface can be read.
pub open spec fn can_be_read(json: Json) -> bool {
    json.member("event"@).text() matches Some(line) && first_capture(line) is Some
}

/// No readable event of a demo is lost, moved or made up: each counts by itself, in its order.
pub proof fn every_readable_event_counts(a: Seq<Json>, b: Seq<Json>, event: Json)
    ensures
        readable(a + b) == readable(a) + readable(b),
        can_be_read(event) ==> readable(seq![event]) == seq![
            EntryView::Event {
                json: event,
                line: first_capture(event.member("event"@).text()->0)->0,
            },
        ],
        !can_be_read(event) ==> readable(seq![event]) == Seq::<EntryView>::empty(),
    decreases b.len(),
{
    assert(seq![event].drop_last() =~= seq![]);
    assert(readable(seq![event].drop_last()) == Seq::<EntryView>::empty());
    assert(can_be_read(event) <==> line_parts(event) is Some);
    if b.len() == 0 {
        assert(a + b =~= a);
        assert(readable(a) + readable(b) =~= readable(a));
    } else {
        every_readable_event_counts(a, b.drop_last(), event);
        assert((a + b).drop_last() =~= a + b.drop_last());
        assert(readable(a + b) =~= readable(a) + readable(b));
    }
}

/// The number of events that can be read.
pub open spec fn number_readable(events: Seq<Json>) -> nat
    decreases events.len(),
{
    if events.len() == 0 {
        0
    } else {
        number_readable(events.skip(1)) + (if can_be_read(events[0]) {
            1nat
        } else {
            0nat
        })
    }
}

/// There are as many steps as readable events, and the event `i`, if it can be read, is the step
/// behind those of the readable events before it.
pub proof fn every_readable_event_has_its_step(events: Seq<Json>, i: int)
    requires
        0 <= i < events.len(),
    ensures
        readable(events).len() == number_readable(events),
        can_be_read(events[i]) ==> {
            &&& number_readable(events.take(i)) < readable(events).len()
            &&& readable(events)[number_readable(events.take(i)) as int] is Event
            &&& readable(events)[number_readable(events.take(i)) as int]->json == events[i]
        },
{
    number_of_readable_events(events);
    number_of_readable_events(events.take(i));
    let before = events.take(i);
    let behind = events.skip(i + 1);
    assert(events =~= before + (seq![events[i]] + behind));
    every_readable_event_counts(before, seq![events[i]] + behind, events[i]);
    every_readable_event_counts(seq![events[i]], behind, events[i]);
}

proof fn number_of_readable_events(events: Seq<Json>)
    ensures
        readable(events).len() == number_readable(events),
    decreases events.len(),
{
    if events.len() > 0 {
        let rest = events.skip(1);
        number_of_readable_events(rest);
        assert(events =~= seq![events[0]] + rest);
        every_readable_event_counts(seq![events[0]], rest, events[0]);
    }
}

/// The demos are gone through one after the other: each begins, and its readable events follow.
pub proof fn every_demo_begins_before_its_events(a: Seq<Json>, b: Seq<Json>, events: Vec<Json>)
    ensures
        steps(a + b) == steps(a) + steps(b),
        steps(seq![Json::List(events)]) == seq![EntryView::Demo] + readable(events@),
    decreases b.len(),
{
    let one = seq![Json::List(events)];
    assert(one.drop_last() =~= seq![]);
    assert(steps(one.drop_last()) =~= seq![]);
    assert(steps(one) =~= seq![EntryView::Demo] + readable(events@));
    if b.len() == 0 {
        assert(a + b =~= a);
        assert(steps(a) + steps(b) =~= steps(a));
    } else {
        every_demo_begins_before_its_events(a, b.drop_last(), events);
        assert((a + b).drop_last() =~= a + b.drop_last());
        assert(steps(a + b) =~= steps(a) + steps(b));
    }
}

/// What the user has of an event decides whether it is unchanged, and everything of it does: two
/// events that both count as unchanged have the same demo, tick and value, and an event with the demo,
/// the tick and the value that the user has counts as unchanged.
pub proof fn an_unchanged_event_is_what_the_user_has(json: Json, a: EventView, b: EventView)
    requires
        unchanged(json, a),
    ensures
        unchanged(json, b) <==> a.demo_name == b.demo_name && a.tick == b.tick && a.value == b.value,
{
}

/// What is saved of an event is what the user has, changed or not.
pub proof fn what_is_saved_is_what_the_user_has(json: Json, noted: EventView, time: Seq<char>)
    requires
        is_event(json),
    ensures
        ({
            let saved = saved_event(json, noted, time);
            &&& json.member("demo_name"@).text() == Some(saved.demo_name)
            &&& json.member("tick"@).integer() is Some && json.member("tick"@).integer()->0
                == saved.tick
            &&& json.member("isKillstreak"@).truth() == Some(saved.value is Killstreak)
            &&& saved.value matches StyleView::Killstreak(kills) ==> (json.member("value"@).member(
                "Killstreak"@,
            ).integer() matches Some(k) && k == kills)
            &&& saved.value matches StyleView::Bookmark(text) ==> json.member("value"@).member(
                "Bookmark"@,
            ).text() == Some(text)
        }),
{
}

/// An event keeps its line exactly as long as it is what the user has: one that differs in its demo,
/// its tick or its value gets a new line.
pub proof fn a_changed_event_gets_a_new_line(json: Json, noted: EventView, time: Seq<char>)
    requires
        is_event(json),
    ensures
        ({
            let fresh = built_event(json, time);
            let same = noted.demo_name == fresh.demo_name && noted.tick == fresh.tick && noted.value
                == fresh.value;
            &&& same ==> saved_event(json, noted, time) == noted
            &&& !same ==> saved_event(json, noted, time) == fresh
        }),
{
}

/// Whether `json` holds an event, told by its members one by one.
pub proof fn an_event_needs_its_members(json: Json)
    ensures
        is_event(json) ==> json.member("demo_name"@).text() is Some && json.member(
            "tick"@,
        ).integer() is Some && json.member("isKillstreak"@).truth() is Some,
        json.member("demo_name"@).text() is Some && json.member("tick"@).integer() is Some
            && json.member("isKillstreak"@).truth() is Some && json.member("value"@).member(
            "Killstreak"@,
        ).integer() is Some && json.member("value"@).member("Bookmark"@).text() is Some
            ==> is_event(json),
        json.member("isKillstreak"@).truth() == Some(true) && json.member("value"@).member(
            "Killstreak"@,
        ).integer() is None ==> !is_event(json),
        json.member("isKillstreak"@).truth() == Some(false) && json.member("value"@).member(
            "Bookmark"@,
        ).text() is None ==> !is_event(json),
{
}

/// A line tells kills by their number and a bookmark by its text, and only the general bookmark is
/// introduced by a word.
pub proof fn a_line_tells_what_happened(kills: int, other: int, text: Seq<char>)
    ensures
        noted_value(StyleView::Killstreak(kills)) == "Killstreak "@ + decimal(kills),
        kills != other ==> noted_value(StyleView::Killstreak(kills)) != noted_value(
            StyleView::Killstreak(other),
        ),
        text != "General"@ ==> noted_value(StyleView::Bookmark(text)) == text,
        noted_value(StyleView::Bookmark("General"@)) == "Bookmark General"@,
{
    reveal_strlit("Bookmark ");
    reveal_strlit("General");
    reveal_strlit("Bookmark General");
    assert("Bookmark "@ + "General"@ =~= "Bookmark General"@);
    if kills != other {
        different_numbers_have_different_texts(kills, other);
        let a = noted_value(StyleView::Killstreak(kills));
        let b = noted_value(StyleView::Killstreak(other));
        let n = "Killstreak "@.len() as int;
        assert(a.skip(n) =~= decimal(kills));
        assert(b.skip(n) =~= decimal(other));
    }
}

/// The line of a built event is made of the time, what happened, the demo and the tick, whatever they
/// are. Only in the line of a killstreak the time loses its quotes, if it has any.
pub proof fn a_built_line_is_made_of_its_parts(json: Json, time: Seq<char>)
    requires
        is_event(json),
        json.member("isKillstreak"@).truth() == Some(false) || found_nowhere(time, "\""@),
    ensures
        ({
            let built = built_event(json, time);
            &&& built.event == "["@ + time + "] "@ + noted_value(built.value) + " (\""@
                + built.demo_name + "\" at "@ + decimal(built.tick) + ")"@
            &&& json.member("demo_name"@).text() == Some(built.demo_name)
            &&& json.member("tick"@).integer() is Some && json.member("tick"@).integer()->0
                == built.tick
        }),
{
    if found_nowhere(time, "\""@) {
        nothing_found_nothing_replaced(time, "\""@, ""@);
    }
}

/// The line that a step gives to the saved text.
pub open spec fn saved_line(item: ItemView, time: Seq<char>) -> Seq<char> {
    match item {
        ItemView::Demo => ">"@,
        ItemView::Event { json, noted } => saved_event(json, noted, time).event,
    }
}

/// Every step gives one line to the saved text, in its order, and nothing else stands there.
pub proof fn every_step_gives_its_line(items: Seq<ItemView>, times: Seq<Seq<char>>)
    ensures
        saved_text(items, times) == joined(
            Seq::new(items.len(), |i: int| saved_line(items[i], times[i])),
        ),
    decreases items.len(),
{
    reveal_strlit(">");
    reveal_strlit(">\n");
    reveal_strlit("\n");
    let lines = Seq::new(items.len(), |i: int| saved_line(items[i], times[i]));
    if items.len() == 0 {
        assert(saved_text(items, times) =~= joined(lines));
    } else {
        let n = items.len() - 1;
        let before = items.drop_last();
        every_step_gives_its_line(before, times);
        let earlier = Seq::new(before.len(), |i: int| saved_line(before[i], times[i]));
        assert(lines =~= earlier.push(saved_line(items[n], times[n])));
        crate::lines::further_line(earlier, saved_line(items[n], times[n]));
        assert(">\n"@ =~= ">"@ + seq!['\n']);
        assert("\n"@ =~= seq!['\n']);
        assert(saved_text(items, times) =~= joined(earlier) + saved_line(items[n], times[n])
            + seq!['\n']);
    }
}

/// The number of events among the steps.
pub open spec fn number_of_events(items: Seq<ItemView>) -> nat
    decreases items.len(),
{
    if items.len() == 0 {
        0
    } else {
        number_of_events(items.skip(1)) + (if items[0] is Event {
            1nat
        } else {
            0nat
        })
    }
}

/// Every event among the steps is saved, in its order, and nothing else is: the event of the step `i`
/// comes behind those of the steps before it.
pub proof fn every_event_is_saved(items: Seq<ItemView>, times: Seq<Seq<char>>, i: int)
    requires
        0 <= i < items.len(),
    ensures
        saved_events(items, times).len() == number_of_events(items),
        items[i] matches ItemView::Event { json, noted } ==> {
            &&& number_of_events(items.take(i)) < saved_events(items, times).len()
            &&& saved_events(items, times)[number_of_events(items.take(i)) as int] == saved_event(
                json,
                noted,
                times[i],
            )
        },
    decreases items.len(),
{
    number_of_saved_events(items, times);
    number_of_saved_events(items.take(i), times);
    let n = items.len() - 1;
    let before = items.drop_last();
    if i == n {
        assert(items.take(i) =~= before);
    } else {
        every_event_is_saved(before, times, i);
        assert(before.take(i) =~= items.take(i));
        number_of_saved_events(before, times);
    }
}

proof fn number_of_saved_events(items: Seq<ItemView>, times: Seq<Seq<char>>)
    ensures
        saved_events(items, times).len() == number_of_events(items),
    decreases items.len(),
{
    if items.len() > 0 {
        number_of_saved_events(items.drop_last(), times);
        number_of_events_at_the_end(items);
    }
}

proof fn number_of_events_at_the_end(items: Seq<ItemView>)
    requires
        items.len() > 0,
    ensures
        number_of_events(items) == number_of_events(items.drop_last()) + (if items.last() is Event {
            1nat
        } else {
            0nat
        }),
    decreases items.len(),
{
    let rest = items.skip(1);
    if items.len() == 1 {
        assert(rest =~= seq![]);
        assert(items.drop_last() =~= seq![]);
        assert(number_of_events(rest) == 0);
    } else {
        number_of_events_at_the_end(rest);
        assert(items.drop_last().skip(1) =~= rest.drop_last());
    }
}

} // verus!
