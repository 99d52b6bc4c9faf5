//! How the events are saved once the user has changed them.

use crate::clock::{event_time_has_no_quote, is_event_time};
use crate::event::{
    build_event_from_json, built_event, event_views, is_event, noted_value, style, Event, EventStyle,
    EventView,
};
use crate::grammar::{
    all_captures, ascii_digit, capture, first_capture, is_match, CaptureView, EventCapture, Span,
};
use crate::json::Json;
use crate::lines::{
    can_be_noted, captured_lines_read_back, captures_in, captures_of_event_lines,
    captures_of_lines, further_line, is_event_line, joined, line_is_read_as_a_whole, line_reads_back, one_line,
};
use crate::text::{decimal, same};
use vstd::prelude::*;

verus! {

/// A step through the events of the user interface, which come demo by demo.
#[derive(Debug)]
pub enum Entry<'a> {
    /// A demo begins.
    Demo,
    /// An event whose line could be read, as the user left it and with the parts of its line.
    Event { json: &'a Json, line: EventCapture },
}

/// A step through the events of the user interface.
pub enum EntryView {
    Demo,
    Event { json: Json, line: CaptureView },
}

impl<'a> View for Entry<'a> {
    type V = EntryView;

    open spec fn view(&self) -> EntryView {
        match self {
            Entry::Demo => EntryView::Demo,
            Entry::Event { json, line } => EntryView::Event { json: **json, line: line@ },
        }
    }
}

/// The steps of `entries`.
pub open spec fn entry_views<'a>(entries: Seq<Entry<'a>>) -> Seq<EntryView> {
    Seq::new(entries.len(), |i: int| entries[i]@)
}

/// The parts of the line that an event of the user interface came from.
pub open spec fn line_parts(json: Json) -> Option<CaptureView> {
    match json.member("event"@).text() {
        Some(text) => first_capture(text),
        None => None,
    }
}

/// The events of a demo whose lines can be read.
pub open spec fn readable(events: Seq<Json>) -> Seq<EntryView>
    decreases events.len(),
{
    if events.len() == 0 {
        seq![]
    } else {
        let before = readable(events.drop_last());
        match line_parts(events.last()) {
            Some(line) => before.push(EntryView::Event { json: events.last(), line }),
            None => before,
        }
    }
}

/// The steps through `demos`: each begins, and its readable events follow.
pub open spec fn steps(demos: Seq<Json>) -> Seq<EntryView>
    decreases demos.len(),
{
    if demos.len() == 0 {
        seq![]
    } else {
        steps(demos.drop_last()).push(EntryView::Demo) + readable(demos.last()->List_0@)
    }
}

/// Whether `new_events` is a list of demos, each of which is a list.
pub open spec fn is_list_of_lists(new_events: Json) -> bool {
    &&& new_events is List
    &&& forall|i: int|
        0 <= i < new_events->List_0@.len() ==> #[trigger] new_events->List_0@[i] is List
}

/// Whether `new_events` is a list of demos, each of which is a list.
pub fn holds_lists(new_events: &Json) -> (r: bool)
    ensures
        r == is_list_of_lists(*new_events),
{
    let demos = match new_events {
        Json::List(demos) => demos,
        _ => {
            return false;
        },
    };
    let mut i: usize = 0;
    while i < demos.len()
        invariant
            i <= demos@.len(),
            *new_events == Json::List(*demos),
            forall|j: int| 0 <= j < i ==> #[trigger] demos@[j] is List,
        decreases demos@.len() - i,
    {
        match &demos[i] {
            Json::List(_) => {},
            _ => {
                assert(!(demos@[i as int] is List));
                return false;
            },
        }
        i += 1;
    }
    true
}

/// The steps through the events of the user interface. An event whose line is missing or cannot be
/// read is left out.
pub fn entries(new_events: &Json) -> (r: Vec<Entry<'_>>)
    requires
        is_list_of_lists(*new_events),
    ensures
        entry_views(r@) == steps(new_events->List_0@),
{
    let mut r: Vec<Entry<'_>> = Vec::new();
    if let Json::List(demos) = new_events {
        let mut i: usize = 0;
        assert(entry_views(r@) =~= steps(demos@.take(0)));
        while i < demos.len()
            invariant
                i <= demos@.len(),
                forall|j: int| 0 <= j < demos@.len() ==> #[trigger] demos@[j] is List,
                entry_views(r@) == steps(demos@.take(i as int)),
            decreases demos@.len() - i,
        {
            let ghost before = r@;
            assert(demos@.take(i + 1).drop_last() =~= demos@.take(i as int));
            assert(demos@[i as int] is List);
            r.push(Entry::Demo);
            assert(entry_views(r@) =~= entry_views(before).push(EntryView::Demo));
            if let Json::List(events) = &demos[i] {
                let ghost begun = entry_views(r@);
                let mut j: usize = 0;
                assert(entry_views(r@) =~= begun + readable(events@.take(0)));
                while j < events.len()
                    invariant
                        j <= events@.len(),
                        entry_views(r@) == begun + readable(events@.take(j as int)),
                    decreases events@.len() - j,
                {
                    let ghost before = r@;
                    assert(events@.take(j + 1).drop_last() =~= events@.take(j as int));
                    let event = &events[j];
                    if let Some(text) = event.get("event").as_str() {
                        if let Some(line) = capture(text) {
                            r.push(Entry::Event { json: event, line });
                            assert(entry_views(r@) =~= entry_views(before).push(
                                EntryView::Event { json: *event, line: line@ },
                            ));
                            assert(entry_views(r@) =~= begun + readable(events@.take(j + 1)));
                        }
                    }
                    j += 1;
                }
                assert(events@.take(j as int) =~= events@);
            }
            i += 1;
        }
        assert(demos@.take(i as int) =~= demos@);
    }
    r
}

/// A step through the events of the user interface, with the event that the line of each notes.
#[derive(Debug)]
pub enum Item<'a> {
    /// A demo begins.
    Demo,
    /// An event as the user left it, and as its line has it.
    Event { json: &'a Json, noted: Event },
}

/// A step through the events of the user interface.
pub enum ItemView {
    Demo,
    Event { json: Json, noted: EventView },
}

impl<'a> View for Item<'a> {
    type V = ItemView;

    open spec fn view(&self) -> ItemView {
        match self {
            Item::Demo => ItemView::Demo,
            Item::Event { json, noted } => ItemView::Event { json: **json, noted: noted@ },
        }
    }
}

/// The steps of `items`.
pub open spec fn item_views<'a>(items: Seq<Item<'a>>) -> Seq<ItemView> {
    Seq::new(items.len(), |i: int| items[i]@)
}

/// Whether the user left an event as its line has it.
pub open spec fn unchanged(json: Json, noted: EventView) -> bool {
    &&& json.member("demo_name"@).text() == Some(noted.demo_name)
    &&& json.member("tick"@).integer() matches Some(tick) && tick == noted.tick
    &&& style(json) == noted.value
}

/// The event that is saved: the noted one where it is unchanged, and otherwise a new one of the
/// time `time`.
pub open spec fn saved_event(json: Json, noted: EventView, time: Seq<char>) -> EventView {
    if unchanged(json, noted) {
        noted
    } else {
        built_event(json, time)
    }
}

/// The events that are saved, where the event of the step `i`, if it is changed, gets the time
/// `times[i]`.
pub open spec fn saved_events(items: Seq<ItemView>, times: Seq<Seq<char>>) -> Seq<EventView>
    decreases items.len(),
{
    if items.len() == 0 {
        seq![]
    } else {
        let before = saved_events(items.drop_last(), times);
        match items.last() {
            ItemView::Demo => before,
            ItemView::Event { json, noted } => before.push(
                saved_event(json, noted, times[items.len() - 1]),
            ),
        }
    }
}

/// The text that is saved: a line with `>` where a demo begins, and the lines of its events.
pub open spec fn saved_text(items: Seq<ItemView>, times: Seq<Seq<char>>) -> Seq<char>
    decreases items.len(),
{
    if items.len() == 0 {
        seq![]
    } else {
        let before = saved_text(items.drop_last(), times);
        match items.last() {
            ItemView::Demo => before + ">\n"@,
            ItemView::Event { json, noted } => before + saved_event(
                json,
                noted,
                times[items.len() - 1],
            ).event + "\n"@,
        }
    }
}

/// Whether `times` are times of events.
pub open spec fn are_event_times(times: Seq<Seq<char>>) -> bool {
    forall|i: int| 0 <= i < times.len() ==> is_event_time(#[trigger] times[i])
}

/// What is saved.
#[derive(Debug)]
pub struct SavedEvents {
    /// The new contents of the file.
    pub text: String,
    /// The events in it.
    pub events: Vec<Event>,
}

/// Whether the user left an event as its line has it.
pub fn is_unchanged(json: &Json, noted: &Event) -> (r: bool)
    requires
        is_event(*json),
    ensures
        r == unchanged(*json, noted@),
{
    if let Some(demo_name) = json.get("demo_name").as_str() {
        if !same(demo_name, noted.demo_name.as_str()) {
            return false;
        }
    }
    if let Some(tick) = json.get("tick").as_i64() {
        if tick != noted.tick {
            return false;
        }
    }
    let killstreak = match json.get("isKillstreak").as_bool() {
        Some(b) => b,
        None => false,
    };
    let value = json.get("value");
    match &noted.value {
        EventStyle::Bookmark(text) => {
            if killstreak {
                return false;
            }
            match value.get("Bookmark").as_str() {
                Some(new) => same(text.as_str(), new),
                None => false,
            }
        },
        EventStyle::Killstreak(kills) => {
            if !killstreak {
                return false;
            }
            match value.get("Killstreak").as_i64() {
                Some(new) => *kills == new,
                None => false,
            }
        },
    }
}

/// The events to save and their text. An unchanged event keeps its line, and a changed one gets a
/// line of the present time.
pub fn save_events<'a>(items: &Vec<Item<'a>>) -> (r: SavedEvents)
    requires
        forall|i: int|
            0 <= i < items@.len() ==> ((#[trigger] items@[i])@ matches ItemView::Event { json, .. }
                ==> is_event(json)),
    ensures
        exists|times: Seq<Seq<char>>|
            #![trigger saved_text(item_views(items@), times)]
            times.len() == items@.len() && are_event_times(times) && r.text@ == saved_text(
                item_views(items@),
                times,
            ) && event_views(r.events@) == saved_events(item_views(items@), times),
{
    let ghost all = item_views(items@);
    let ghost mut times: Seq<Seq<char>> = seq![];
    let mut text = String::new();
    let mut events: Vec<Event> = Vec::new();
    let mut i: usize = 0;
    assert(event_views(events@) =~= saved_events(all.take(0), times));
    while i < items.len()
        invariant
            i <= items@.len(),
            all == item_views(items@),
            forall|j: int|
                0 <= j < items@.len() ==> ((#[trigger] items@[j])@ matches ItemView::Event {
                    json,
                    ..
                } ==> is_event(json)),
            times.len() == i,
            are_event_times(times),
            text@ == saved_text(all.take(i as int), times),
            event_views(events@) == saved_events(all.take(i as int), times),
        decreases items@.len() - i,
    {
        let ghost upto = all.take(i + 1);
        let ghost earlier = times;
        let ghost before = events@;
        assert(upto.drop_last() =~= all.take(i as int));
        assert(upto.last() == items@[i as int]@);
        match &items[i] {
            Item::Demo => {
                text.append(">\n");
                proof {
                    an_event_time_exists();
                    let any = choose|time: Seq<char>| is_event_time(time);
                    times = times.push(any);
                }
            },
            Item::Event { json, noted } => {
                let event = if is_unchanged(json, noted) {
                    proof {
                        an_event_time_exists();
                        let any = choose|time: Seq<char>| is_event_time(time);
                        times = times.push(any);
                    }
                    noted.clone()
                } else {
                    let event = build_event_from_json(json);
                    proof {
                        let time = choose|time: Seq<char>|
                            is_event_time(time) && event@ == #[trigger] built_event(**json, time);
                        times = times.push(time);
                    }
                    event
                };
                text.append(event.event.as_str());
                text.append("\n");
                events.push(event);
                assert(event_views(events@) =~= event_views(before).push(event@));
            },
        }
        proof {
            earlier_times_decide(all.take(i as int), earlier, times);
        }
        i += 1;
    }
    assert(all.take(i as int) =~= all);
    SavedEvents { text, events }
}

/// What is saved for the first steps depends on their times alone.
proof fn earlier_times_decide(
    items: Seq<ItemView>,
    times: Seq<Seq<char>>,
    more: Seq<Seq<char>>,
)
    requires
        items.len() <= times.len() <= more.len(),
        forall|i: int| 0 <= i < times.len() ==> times[i] == more[i],
    ensures
        saved_text(items, times) == saved_text(items, more),
        saved_events(items, times) == saved_events(items, more),
    decreases items.len(),
{
    if items.len() > 0 {
        earlier_times_decide(items.drop_last(), times, more);
    }
}

/// There is a time of an event.
proof fn an_event_time_exists()
    ensures
        exists|time: Seq<char>| is_event_time(time),
{
    let time = seq![
        '2', '0', '2', '4', '/', '0', '1', '/', '3', '1', ' ', '2', '0', ':', '1', '5',
    ];
    assert(is_event_time(time));
}

/// An event that was changed and saved counts as unchanged from then on: saved again, it keeps its
/// line.
pub proof fn saved_event_is_kept(json: Json, time: Seq<char>, later: Seq<char>)
    requires
        is_event(json),
    ensures
        unchanged(json, built_event(json, time)),
        saved_event(json, built_event(json, time), later) == built_event(json, time),
{
}

proof fn event_time_is_one_line(time: Seq<char>)
    requires
        is_event_time(time),
    ensures
        one_line(time),
{
    let n = time.len() - 12;
    assert forall|i: int| 0 <= i < time.len() implies time[i] != '\n' by {
        if 1 <= i < n {
            assert(ascii_digit(time[i]));
        }
    }
}

/// The line of a changed event gives back the time, what happened, the demo and the tick, where the
/// line can say them and the tick is not negative.
pub proof fn built_event_reads_back(json: Json, time: Seq<char>)
    requires
        is_event(json),
        is_event_time(time),
        can_be_noted(noted_value(style(json)), json.member("demo_name"@).text()->0),
        json.member("tick"@).integer()->0 >= 0,
    ensures
        all_captures(built_event(json, time).event) == seq![
            CaptureView {
                whole: built_event(json, time).event,
                stamp: time,
                value: noted_value(style(json)),
                demo_name: json.member("demo_name"@).text()->0,
                tick: decimal(json.member("tick"@).integer()->0 as int),
            },
        ],
{
    event_time_has_no_quote(time);
    event_time_is_one_line(time);
    line_reads_back(
        time,
        noted_value(style(json)),
        json.member("demo_name"@).text()->0,
        json.member("tick"@).integer()->0 as int,
    );
}

/// The lines of the saved text.
spec fn saved_lines(items: Seq<ItemView>, times: Seq<Seq<char>>) -> Seq<Seq<char>>
    decreases items.len(),
{
    if items.len() == 0 {
        seq![]
    } else {
        let before = saved_lines(items.drop_last(), times);
        match items.last() {
            ItemView::Demo => before.push(">"@),
            ItemView::Event { json, noted } => before.push(
                saved_event(json, noted, times[items.len() - 1]).event,
            ),
        }
    }
}

/// The lines of `events`.
pub open spec fn event_lines(events: Seq<EventView>) -> Seq<Seq<char>> {
    Seq::new(events.len(), |i: int| events[i].event)
}

/// The saved text is made of its lines, and their captures are those of the events.
proof fn saved_text_is_its_lines(items: Seq<ItemView>, times: Seq<Seq<char>>)
    requires
        forall|i: int|
            0 <= i < saved_events(items, times).len() ==> one_line(
                (#[trigger] saved_events(items, times)[i]).event,
            ),
    ensures
        saved_text(items, times) == joined(saved_lines(items, times)),
        captures_in(saved_lines(items, times)) == captures_in(
            event_lines(saved_events(items, times)),
        ),
        forall|i: int|
            0 <= i < saved_lines(items, times).len() ==> one_line(
                #[trigger] saved_lines(items, times)[i],
            ),
    decreases items.len(),
{
    reveal_strlit(">");
    reveal_strlit(">\n");
    reveal_strlit("\n");
    if items.len() == 0 {
        assert(saved_text(items, times) =~= joined(saved_lines(items, times)));
        assert(event_lines(saved_events(items, times)) =~= saved_lines(items, times));
    } else {
        let before = items.drop_last();
        let events = saved_events(items, times);
        assert forall|i: int| 0 <= i < saved_events(before, times).len() implies one_line(
            (#[trigger] saved_events(before, times)[i]).event,
        ) by {
            assert(events[i] == saved_events(before, times)[i]);
        }
        saved_text_is_its_lines(before, times);
        let lines = saved_lines(before, times);
        match items.last() {
            ItemView::Demo => {
                further_line(lines, ">"@);
                marker_has_no_capture();
                assert(">\n"@ =~= ">"@ + seq!['\n']);
                assert(saved_text(items, times) =~= joined(lines) + ">"@ + seq!['\n']);
                assert(captures_in(lines) + all_captures(">"@) =~= captures_in(lines));
            },
            ItemView::Event { json, noted } => {
                let event = saved_event(json, noted, times[items.len() - 1]);
                assert(events.last() == event);
                assert(one_line(events[events.len() - 1].event));
                further_line(lines, event.event);
                further_line(event_lines(saved_events(before, times)), event.event);
                assert(event_lines(events) =~= event_lines(saved_events(before, times)).push(
                    event.event,
                ));
                assert("\n"@ =~= seq!['\n']);
            },
        }
    }
}

/// The line with which a demo begins notes no event.
proof fn marker_has_no_capture()
    ensures
        all_captures(">"@) == Seq::<CaptureView>::empty(),
{
    reveal_strlit(">");
    assert forall|m: Span| !is_match(">"@, m) by {
        reveal(is_match);
    }
}

/// What is read of a saved text is what the lines of the saved events give, in order.
pub proof fn saved_text_reads_back(items: Seq<ItemView>, times: Seq<Seq<char>>)
    requires
        forall|i: int|
            0 <= i < saved_events(items, times).len() ==> one_line(
                (#[trigger] saved_events(items, times)[i]).event,
            ),
    ensures
        all_captures(saved_text(items, times)) == captures_in(
            event_lines(saved_events(items, times)),
        ),
{
    saved_text_is_its_lines(items, times);
    captures_of_lines(saved_lines(items, times));
}

/// Whether what is saved of a step can be read again: an unchanged event keeps a line of an event,
/// and a changed event has a tick that is not negative and no text that ends the line.
pub open spec fn can_be_saved(item: ItemView) -> bool {
    match item {
        ItemView::Demo => true,
        ItemView::Event { json, noted } => if unchanged(json, noted) {
            is_event_line(noted.event)
        } else {
            &&& is_event(json)
            &&& one_line(noted_value(style(json)))
            &&& one_line(json.member("demo_name"@).text()->0)
            &&& json.member("tick"@).integer()->0 >= 0
        },
    }
}

/// Every saved event is read again, with the line that was saved, in the order in which the events
/// were saved.
pub proof fn saved_events_are_read_again(items: Seq<ItemView>, times: Seq<Seq<char>>)
    requires
        times.len() == items.len(),
        are_event_times(times),
        forall|i: int| 0 <= i < items.len() ==> can_be_saved(#[trigger] items[i]),
    ensures
        all_captures(saved_text(items, times)).len() == saved_events(items, times).len(),
        forall|i: int|
            0 <= i < saved_events(items, times).len() ==> (#[trigger] all_captures(
                saved_text(items, times),
            )[i]).whole == saved_events(items, times)[i].event,
{
    let events = saved_events(items, times);
    saved_lines_are_event_lines(items, times);
    assert forall|i: int| 0 <= i < events.len() implies one_line((#[trigger] events[i]).event) by {
        captured_lines_read_back(events[i].event, 0);
    }
    saved_text_reads_back(items, times);
    assert forall|i: int| 0 <= i < event_lines(events).len() implies is_event_line(
        #[trigger] event_lines(events)[i],
    ) by {
        assert(is_event_line(events[i].event));
    }
    captures_of_event_lines(event_lines(events));
    assert forall|i: int| 0 <= i < events.len() implies (#[trigger] all_captures(
        saved_text(items, times),
    )[i]).whole == events[i].event by {
        assert(event_lines(events)[i] == events[i].event);
    }
}

proof fn saved_lines_are_event_lines(items: Seq<ItemView>, times: Seq<Seq<char>>)
    requires
        times.len() >= items.len(),
        are_event_times(times),
        forall|i: int| 0 <= i < items.len() ==> can_be_saved(#[trigger] items[i]),
    ensures
        forall|i: int|
            0 <= i < saved_events(items, times).len() ==> is_event_line(
                (#[trigger] saved_events(items, times)[i]).event,
            ),
    decreases items.len(),
{
    if items.len() > 0 {
        let n = items.len() - 1;
        let before = items.drop_last();
        assert forall|i: int| 0 <= i < before.len() implies can_be_saved(#[trigger] before[i]) by {
            assert(can_be_saved(items[i]));
        }
        saved_lines_are_event_lines(before, times);
        assert(can_be_saved(items[n]));
        if let ItemView::Event { json, noted } = items[n] {
            if !unchanged(json, noted) {
                assert(is_event_time(times[n]));
                event_time_has_no_quote(times[n]);
                event_time_is_one_line(times[n]);
                line_is_read_as_a_whole(
                    times[n],
                    noted_value(style(json)),
                    json.member("demo_name"@).text()->0,
                    json.member("tick"@).integer()->0 as int,
                );
            }
        }
        let events = saved_events(items, times);
        assert forall|i: int| 0 <= i < events.len() implies is_event_line(
            (#[trigger] events[i]).event,
        ) by {
            if i < saved_events(before, times).len() {
                assert(events[i] == saved_events(before, times)[i]);
            }
        }
    }
}

} // verus!
