//! Laws on what the models of the library keep: everything.

use crate::event::{event_views, Event, EventStyle, StyleView};
use crate::grammar::{capture_views, EventCapture};
use crate::grouping::{group_views, Fate, FateView};
use crate::save::{entry_views, item_views, Entry, EntryView, Item, ItemView};
use crate::script::{ActionKind, ActionProps};
use crate::scripts::scripts_in;
use crate::text::texts;
use vstd::prelude::*;

verus! {

/// A list is modelled item by item, in its order, and no item is left out.
pub proof fn lists_are_modelled_item_by_item<'a>(
    words: Seq<String>,
    events: Seq<Event>,
    captures: Seq<EventCapture>,
    entries: Seq<Entry<'a>>,
    items: Seq<Item<'a>>,
    groups: Seq<Vec<Event>>,
    files: Seq<vdm::VDM>,
    i: int,
)
    ensures
        texts(words).len() == words.len(),
        0 <= i < words.len() ==> texts(words)[i] == words[i]@,
        event_views(events).len() == events.len(),
        0 <= i < events.len() ==> event_views(events)[i] == events[i]@,
        capture_views(captures).len() == captures.len(),
        0 <= i < captures.len() ==> capture_views(captures)[i] == captures[i]@,
        entry_views(entries).len() == entries.len(),
        0 <= i < entries.len() ==> entry_views(entries)[i] == entries[i]@,
        item_views(items).len() == items.len(),
        0 <= i < items.len() ==> item_views(items)[i] == items[i]@,
        group_views(groups).len() == groups.len(),
        0 <= i < groups.len() ==> group_views(groups)[i] == event_views(groups[i]@),
        scripts_in(files).len() == files.len(),
        0 <= i < files.len() ==> scripts_in(files)[i].name == crate::script::script_name(files[i])
            && scripts_in(files)[i].actions == crate::script::actions(files[i]),
{
}

/// An event is modelled with all that it holds.
pub proof fn an_event_is_modelled_completely(event: Event)
    ensures
        event@.event == event.event@,
        event@.demo_name == event.demo_name@,
        event@.tick == event.tick,
        event.value matches EventStyle::Bookmark(text) ==> event@.value == StyleView::Bookmark(
            text@,
        ),
        event.value matches EventStyle::Killstreak(kills) ==> event@.value == StyleView::Killstreak(
            kills as int,
        ),
{
}

/// The parts of a line are modelled with all that they hold.
pub proof fn a_capture_is_modelled_completely(line: EventCapture)
    ensures
        line@.whole == line.whole@,
        line@.stamp == line.stamp@,
        line@.value == line.value@,
        line@.demo_name == line.demo_name@,
        line@.tick == line.tick@,
{
}

/// What becomes of an event is modelled with all that it holds.
pub proof fn a_fate_is_modelled_completely(event: Event, other: Event)
    ensures
        Fate::Skipped@ == FateView::Skipped,
        Fate::Placed(event)@ == FateView::Placed(event@),
        (Fate::Whole { start: event, end: other })@ == (FateView::Whole {
            start: event@,
            end: other@,
        }),
{
}

/// The steps through the events are modelled with all that they hold.
pub proof fn a_step_is_modelled_completely<'a>(entry: Entry<'a>, item: Item<'a>)
    ensures
        entry matches Entry::Event { json, line } ==> entry@ == (EntryView::Event {
            json: *json,
            line: line@,
        }),
        entry is Demo <==> entry@ is Demo,
        item matches Item::Event { json, noted } ==> item@ == (ItemView::Event {
            json: *json,
            noted: noted@,
        }),
        item is Demo <==> item@ is Demo,
{
}

/// An action is modelled with all that a recording sets of it.
pub proof fn an_action_is_modelled_completely(props: ActionProps, kind: ActionKind)
    ensures
        props.of_kind(kind).kind == Some(kind),
        props.of_kind(kind).name == props.name@,
        props.of_kind(kind).start_tick == props.start_tick,
        props.of_kind(kind).skip_to_tick == props.skip_to_tick,
        props.of_kind(kind).commands == props.commands@,
{
}

} // verus!
