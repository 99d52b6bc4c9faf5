//! Events.

use crate::clock::{event_time, is_event_time};
use crate::grammar::event_line;
use crate::json::Json;
use crate::text::{decimal, decimal_of, replace, replaced, same};
use vstd::prelude::*;

verus! {

/// What happened.
#[derive(Debug)]
pub enum EventStyle {
    /// The player set a bookmark.
    Bookmark(String),
    /// The player made so many kills in a row.
    Killstreak(i64),
}

/// An event of a demo.
#[derive(Debug)]
pub struct Event {
    /// The line that notes the event.
    pub event: String,
    pub demo_name: String,
    pub tick: i64,
    pub value: EventStyle,
}

/// What happened.
pub enum StyleView {
    Bookmark(Seq<char>),
    Killstreak(int),
}

/// An event of a demo.
pub struct EventView {
    pub event: Seq<char>,
    pub demo_name: Seq<char>,
    pub tick: int,
    pub value: StyleView,
}

impl View for EventStyle {
    type V = StyleView;

    open spec fn view(&self) -> StyleView {
        match self {
            EventStyle::Bookmark(text) => StyleView::Bookmark(text@),
            EventStyle::Killstreak(kills) => StyleView::Killstreak(*kills as int),
        }
    }
}

impl View for Event {
    type V = EventView;

    open spec fn view(&self) -> EventView {
        EventView {
            event: self.event@,
            demo_name: self.demo_name@,
            tick: self.tick as int,
            value: self.value@,
        }
    }
}

impl Clone for EventStyle {
    fn clone(&self) -> (r: EventStyle)
        ensures
            r@ == self@,
    {
        match self {
            EventStyle::Bookmark(text) => EventStyle::Bookmark(text.clone()),
            EventStyle::Killstreak(kills) => EventStyle::Killstreak(*kills),
        }
    }
}

impl Clone for Event {
    fn clone(&self) -> (r: Event)
        ensures
            r@ == self@,
    {
        Event {
            event: self.event.clone(),
            demo_name: self.demo_name.clone(),
            tick: self.tick,
            value: self.value.clone(),
        }
    }
}

/// The events of `events`.
pub open spec fn event_views(events: Seq<Event>) -> Seq<EventView> {
    Seq::new(events.len(), |i: int| events[i]@)
}

/// Whether the user interface says that an event is a killstreak.
pub open spec fn is_killstreak(json: Json) -> bool {
    json.member("isKillstreak"@).truth() == Some(true)
}

/// The kills of an event.
pub open spec fn kills(json: Json) -> Json {
    json.member("value"@).member("Killstreak"@)
}

/// The bookmark of an event.
pub open spec fn bookmark(json: Json) -> Json {
    json.member("value"@).member("Bookmark"@)
}

/// Whether `json` holds an event: its demo, its tick, which of the two styles it has, and the kills
/// or the text of that style.
pub open spec fn is_event(json: Json) -> bool {
    &&& json.member("demo_name"@).text() is Some
    &&& json.member("tick"@).integer() is Some
    &&& json.member("isKillstreak"@).truth() is Some
    &&& if is_killstreak(json) {
        kills(json).integer() is Some
    } else {
        bookmark(json).text() is Some
    }
}

/// Whether `json` holds an event.
pub fn holds_event(json: &Json) -> (r: bool)
    ensures
        r == is_event(*json),
{
    if json.get("demo_name").as_str().is_none() || json.get("tick").as_i64().is_none() {
        return false;
    }
    let value = json.get("value");
    match json.get("isKillstreak").as_bool() {
        Some(true) => value.get("Killstreak").as_i64().is_some(),
        Some(false) => value.get("Bookmark").as_str().is_some(),
        None => false,
    }
}

/// What the line of an event says that happened.
pub open spec fn noted_value(value: StyleView) -> Seq<char> {
    match value {
        StyleView::Killstreak(kills) => "Killstreak "@ + decimal(kills),
        StyleView::Bookmark(text) => if text == "General"@ {
            "Bookmark "@ + text
        } else {
            text
        },
    }
}

/// What happened in the event `json`.
pub open spec fn style(json: Json) -> StyleView {
    if is_killstreak(json) {
        StyleView::Killstreak(kills(json).integer()->0 as int)
    } else {
        StyleView::Bookmark(bookmark(json).text()->0)
    }
}

/// The event that `json` holds, with a line of the time `time`. In the line of a killstreak the
/// time has no quotes.
pub open spec fn built_event(json: Json, time: Seq<char>) -> EventView {
    let demo_name = json.member("demo_name"@).text()->0;
    let tick = json.member("tick"@).integer()->0 as int;
    let stamp = if is_killstreak(json) {
        replaced(time, "\""@, ""@)
    } else {
        time
    };
    EventView {
        event: event_line(stamp, noted_value(style(json)), demo_name, decimal(tick)),
        demo_name,
        tick,
        value: style(json),
    }
}

/// The line with these parts.
fn line_of(stamp: &str, value: &str, demo_name: &str, tick: i64) -> (s: String)
    ensures
        s@ == event_line(stamp@, value@, demo_name@, decimal(tick as int)),
{
    "[".to_owned().concat(stamp).concat("] ").concat(value).concat(" (\"").concat(demo_name).concat(
        "\" at ",
    ).concat(decimal_of(tick).as_str()).concat(")")
}

/// The event that `json` holds, with a line of the time `time`.
pub fn build_event(json: &Json, time: &str) -> (r: Event)
    requires
        is_event(*json),
    ensures
        r@ == built_event(*json, time@),
{
    proof {
        reveal_strlit("\"");
    }
    let demo_name = match json.get("demo_name").as_str() {
        Some(name) => name,
        None => "",
    };
    let tick: i64 = match json.get("tick").as_i64() {
        Some(tick) => tick,
        None => 0,
    };
    let value = json.get("value");
    match json.get("isKillstreak").as_bool() {
        Some(true) => {
            let kills: i64 = match value.get("Killstreak").as_i64() {
                Some(kills) => kills,
                None => 0,
            };
            let stamp = replace(time, "\"", "");
            let noted = "Killstreak ".to_owned().concat(
                value.get("Killstreak").display().as_str(),
            );
            Event {
                event: line_of(stamp.as_str(), noted.as_str(), demo_name, tick),
                demo_name: demo_name.to_owned(),
                tick,
                value: EventStyle::Killstreak(kills),
            }
        },
        _ => {
            let text = match value.get("Bookmark").as_str() {
                Some(text) => text,
                None => "",
            };
            let noted = if same(text, "General") {
                "Bookmark ".to_owned().concat(text)
            } else {
                text.to_owned()
            };
            Event {
                event: line_of(time, noted.as_str(), demo_name, tick),
                demo_name: demo_name.to_owned(),
                tick,
                value: EventStyle::Bookmark(text.to_owned()),
            }
        },
    }
}

/// The event that `json` holds, with a line of the present time.
pub fn build_event_from_json(json: &Json) -> (r: Event)
    requires
        is_event(*json),
    ensures
        exists|time: Seq<char>| is_event_time(time) && r@ == #[trigger] built_event(*json, time),
{
    let time = event_time();
    let r = build_event(json, time.as_str());
    assert(is_event_time(time@) && r@ == built_event(*json, time@));
    r
}

} // verus!
