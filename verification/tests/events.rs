use melies::clock::{backup_name, event_time};
use melies::event::{build_event, build_event_from_json, holds_event, Event, EventStyle};
use melies::grammar::{capture, captures, EventCapture};
use melies::json::Json;
use melies::save::{entries, holds_lists, is_unchanged, save_events, Entry, Item};

fn text(s: &str) -> Json {
    Json::Text(s.to_string())
}

fn object(members: Vec<(&str, Json)>) -> Json {
    Json::Object(members.into_iter().map(|(k, v)| (k.to_string(), v)).collect())
}

fn killstreak(line: &str, demo: &str, tick: i64, kills: i64) -> Json {
    object(vec![
        ("event", text(line)),
        ("demo_name", text(demo)),
        ("tick", Json::Int(tick)),
        ("isKillstreak", Json::Bool(true)),
        ("value", object(vec![("Killstreak", Json::Int(kills))])),
    ])
}

fn bookmark(line: &str, demo: &str, tick: i64, what: &str) -> Json {
    object(vec![
        ("event", text(line)),
        ("demo_name", text(demo)),
        ("tick", Json::Int(tick)),
        ("isKillstreak", Json::Bool(false)),
        ("value", object(vec![("Bookmark", text(what))])),
    ])
}

fn parts(c: &EventCapture) -> (&str, &str, &str, &str) {
    (&c.stamp, &c.value, &c.demo_name, &c.tick)
}

fn noted(c: &EventCapture) -> Event {
    let value = match c.value.strip_prefix("Killstreak ") {
        Some(kills) => EventStyle::Killstreak(kills.parse().unwrap()),
        None => EventStyle::Bookmark(c.value.clone()),
    };
    Event {
        event: c.whole.clone(),
        demo_name: c.demo_name.clone(),
        tick: c.tick.parse().unwrap(),
        value,
    }
}

fn is_time(s: &str, shape: &str) -> bool {
    s.len() == shape.len()
        && s.chars().zip(shape.chars()).all(|(c, d)| if d == '0' { c.is_ascii_digit() } else { c == d })
}

const LINE: &str = "[2024/01/31 20:15] Killstreak 5 (\"match\" at 1200)";

#[test]
fn the_parts_of_a_line() {
    let c = capture(LINE).unwrap();
    assert_eq!(parts(&c), ("2024/01/31 20:15", "Killstreak 5", "match", "1200"));
    assert_eq!(c.whole, LINE);
}

#[test]
fn a_line_inside_other_text() {
    let c = capture(&format!("> {} rest", LINE)).unwrap();
    assert_eq!(c.whole, LINE);
}

#[test]
fn no_line() {
    assert!(capture("").is_none());
    assert!(capture("[a] b (\"c\" at 12").is_none());
    assert!(capture("[a] b (\"c\" at -1)").is_none());
    assert!(capture("[a] b\n (\"c\" at 1)").is_none());
    assert!(captures("> \n>\n").is_empty());
}

#[test]
fn empty_parts() {
    let c = capture("[]  (\"\" at )").unwrap();
    assert_eq!(parts(&c), ("", "", "", ""));
}

#[test]
fn earlier_parts_are_as_long_as_they_can_be() {
    let c = capture("[a] b] c (\"d (\"e\" at 1) f\" at 2)").unwrap();
    assert_eq!(parts(&c), ("a] b", "c (\"d", "e\" at 1) f", "2"));
}

#[test]
fn digits_of_any_script() {
    let c = capture("[a] b (\"c\" at \u{661}2)").unwrap();
    assert_eq!(c.tick, "\u{661}2");
    assert!(capture("[a] b (\"c\" at \u{b2})").is_none());
}

#[test]
fn all_lines_of_a_text() {
    let found = captures(">\n[a] b (\"c\" at 1)\nnothing\r\n[d] e (\"f\" at 2)\r\n");
    assert_eq!(found.len(), 2);
    assert_eq!(parts(&found[0]), ("a", "b", "c", "1"));
    assert_eq!(parts(&found[1]), ("d", "e", "f", "2"));
}

#[test]
fn the_captures_of_a_text_are_those_of_its_lines() {
    let lines = ["[a] b (\"c\" at 1)", ">", "[d] e (\"f\" at 2) [g] h (\"i\" at 3)"];
    let mut one_by_one = vec![];
    for line in lines {
        one_by_one.extend(captures(line).into_iter().map(|c| c.whole));
    }
    let together: Vec<String> =
        captures(&(lines.join("\n") + "\n")).into_iter().map(|c| c.whole).collect();
    assert_eq!(together, one_by_one);
}

#[test]
fn a_captured_line_reads_back() {
    let c = capture("x [a] b (\"c\" at 1) y").unwrap();
    let again = captures(&c.whole);
    assert_eq!(again.len(), 1);
    assert_eq!(parts(&again[0]), parts(&c));
    assert_eq!(again[0].whole, c.whole);
}

#[test]
fn a_built_killstreak() {
    let event = build_event(&killstreak("", "match", 1200, 5), "20\"24");
    assert_eq!(event.event, "[2024] Killstreak 5 (\"match\" at 1200)");
    assert_eq!(event.demo_name, "match");
    assert_eq!(event.tick, 1200);
    assert!(matches!(event.value, EventStyle::Killstreak(5)));
}

#[test]
fn a_built_bookmark() {
    let event = build_event(&bookmark("", "match", -3, "nice shot"), "20\"24");
    assert_eq!(event.event, "[20\"24] nice shot (\"match\" at -3)");
    assert!(matches!(event.value, EventStyle::Bookmark(what) if what == "nice shot"));
}

#[test]
fn a_built_general_bookmark() {
    let event = build_event(&bookmark("", "match", 7, "General"), "2024/01/31 20:15");
    assert_eq!(event.event, "[2024/01/31 20:15] Bookmark General (\"match\" at 7)");
    assert!(matches!(event.value, EventStyle::Bookmark(what) if what == "General"));
}

#[test]
fn an_event_of_the_present_time() {
    let event = build_event_from_json(&killstreak("", "match", 1200, 5));
    let c = capture(&event.event).unwrap();
    assert!(is_time(&c.stamp, "0000/00/00 00:00"));
    assert_eq!((c.value.as_str(), c.demo_name.as_str(), c.tick.as_str()), ("Killstreak 5", "match", "1200"));
}

#[test]
fn a_built_event_reads_back() {
    let event = build_event(&bookmark("", "a] b", 12, "x (\"y"), "2024/01/31 20:15");
    let found = captures(&event.event);
    assert_eq!(found.len(), 1);
    assert_eq!(parts(&found[0]), ("2024/01/31 20:15", "x (\"y", "a] b", "12"));
}

#[test]
fn what_a_line_cannot_say() {
    let event = build_event(&bookmark("", "d", 12, "a] b"), "t");
    assert_eq!(parts(&capture(&event.event).unwrap()), ("t] a", "b", "d", "12"));
    let event = build_event(&bookmark("", "d (\"e", 12, "a"), "t");
    assert_eq!(parts(&capture(&event.event).unwrap()), ("t", "a (\"d", "e", "12"));
    let event = build_event(&bookmark("", "d", -1, "a"), "t");
    assert!(capture(&event.event).is_none());
}

#[test]
fn times() {
    assert!(is_time(&event_time(), "0000/00/00 00:00"));
    assert!(is_time(&backup_name(), "0000-00-00_00-00-00"));
}

#[test]
fn entries_leave_out_unreadable_events() {
    let new_events = Json::List(vec![
        Json::List(vec![
            killstreak(LINE, "match", 1200, 5),
            object(vec![("event", Json::Int(3))]),
            object(vec![("event", text("no line"))]),
        ]),
        Json::List(vec![]),
    ]);
    let steps = entries(&new_events);
    assert_eq!(steps.len(), 3);
    assert!(matches!(&steps[0], Entry::Demo));
    assert!(matches!(&steps[1], Entry::Event { line, .. } if line.whole == LINE));
    assert!(matches!(&steps[2], Entry::Demo));
}

#[test]
fn what_counts_as_unchanged() {
    let event = noted(&capture(LINE).unwrap());
    assert!(is_unchanged(&killstreak(LINE, "match", 1200, 5), &event));
    assert!(!is_unchanged(&killstreak(LINE, "other", 1200, 5), &event));
    assert!(!is_unchanged(&killstreak(LINE, "match", 1201, 5), &event));
    assert!(!is_unchanged(&killstreak(LINE, "match", 1200, 6), &event));
    assert!(!is_unchanged(&bookmark(LINE, "match", 1200, "Killstreak 5"), &event));
    let event = noted(&capture("[a] b (\"c\" at 1)").unwrap());
    assert!(is_unchanged(&bookmark("", "c", 1, "b"), &event));
    assert!(!is_unchanged(&bookmark("", "c", 1, "x"), &event));
    assert!(!is_unchanged(&killstreak("", "c", 1, 2), &event));
}

#[test]
fn unchanged_events_keep_their_lines() {
    let new_events = Json::List(vec![
        Json::List(vec![killstreak(LINE, "match", 1200, 5)]),
        Json::List(vec![bookmark("[a] b (\"c\" at 1)", "c", 1, "b")]),
    ]);
    let items: Vec<Item> = entries(&new_events)
        .into_iter()
        .map(|entry| match entry {
            Entry::Demo => Item::Demo,
            Entry::Event { json, line } => Item::Event { json, noted: noted(&line) },
        })
        .collect();
    let saved = save_events(&items);
    assert_eq!(saved.text, format!(">\n{}\n>\n[a] b (\"c\" at 1)\n", LINE));
    assert_eq!(saved.events.len(), 2);
    assert_eq!(saved.events[0].event, LINE);
}

#[test]
fn changed_events_get_new_lines() {
    let json = killstreak(LINE, "match", 1300, 5);
    let items = vec![Item::Demo, Item::Event { json: &json, noted: noted(&capture(LINE).unwrap()) }];
    let saved = save_events(&items);
    assert_eq!(saved.events.len(), 1);
    assert_eq!(saved.events[0].tick, 1300);
    assert_eq!(saved.text, format!(">\n{}\n", saved.events[0].event));
    assert!(saved.events[0].event.ends_with("] Killstreak 5 (\"match\" at 1300)"));
}

#[test]
fn saved_events_are_read_again() {
    let first = killstreak(LINE, "match", 1200, 5);
    let second = bookmark("[a] b (\"c\" at 1)", "c", 2, "b] d");
    let items = vec![
        Item::Demo,
        Item::Event { json: &first, noted: noted(&capture(LINE).unwrap()) },
        Item::Demo,
        Item::Event { json: &second, noted: noted(&capture("[a] b (\"c\" at 1)").unwrap()) },
    ];
    let saved = save_events(&items);
    let lines: Vec<String> = captures(&saved.text).into_iter().map(|c| c.whole).collect();
    let events: Vec<String> = saved.events.iter().map(|e| e.event.clone()).collect();
    assert_eq!(lines, events);
    assert_eq!(lines.len(), 2);
}

#[test]
fn a_saved_event_is_kept_when_it_is_saved_again() {
    let json = bookmark("[a] b (\"c\" at 1)", "c", 2, "d");
    let built = build_event(&json, "2024/01/31 20:15");
    let line = built.event.clone();
    let saved = save_events(&vec![Item::Event { json: &json, noted: built }]);
    assert_eq!(saved.text, format!("{}\n", line));
}

#[test]
fn what_is_an_event() {
    assert!(holds_event(&killstreak("", "d", 1, 2)));
    assert!(holds_event(&bookmark("", "d", 1, "b")));
    assert!(!holds_event(&Json::Null));
    let mut wrong = killstreak("", "d", 1, 2);
    if let Json::Object(members) = &mut wrong {
        members[3].1 = Json::Bool(false);
    }
    assert!(!holds_event(&wrong));
}

#[test]
fn what_is_a_list_of_demos() {
    assert!(holds_lists(&Json::List(vec![])));
    assert!(holds_lists(&Json::List(vec![Json::List(vec![Json::Null])])));
    assert!(!holds_lists(&Json::List(vec![Json::List(vec![]), Json::Null])));
    assert!(!holds_lists(&Json::Null));
}

#[test]
fn the_captures_of_two_texts() {
    let wholes =
        |text: &str| -> Vec<String> { captures(text).into_iter().map(|c| c.whole).collect() };
    let first = ">\n[a] b (\"c\" at 1)\nx";
    let second = "[d] e (\"f\" at 2)\n";
    let mut both = wholes(first);
    both.extend(wholes(second));
    assert_eq!(wholes(&format!("{}\n{}", first, second)), both);
}

#[test]
fn a_line_that_is_left_out_takes_its_captures_along() {
    let with = captures("[a] b (\"c\" at 1)\n[x] mls_skip (\"y\" at 3)\n[d] e (\"f\" at 2)\n");
    let without = captures("[a] b (\"c\" at 1)\n[d] e (\"f\" at 2)\n");
    assert_eq!(with.len(), 3);
    assert_eq!(without.len(), 2);
    assert_eq!(with[0].whole, without[0].whole);
    assert_eq!(with[2].whole, without[1].whole);
}

#[test]
fn times_are_in_their_ranges() {
    let number = |s: &str, at: usize| s[at..at + 2].parse::<u32>().unwrap();
    let time = event_time();
    assert!((1..=12).contains(&number(&time, 5)));
    assert!((1..=31).contains(&number(&time, 8)));
    assert!(number(&time, 11) <= 23);
    assert!(number(&time, 14) <= 59);
    let name = backup_name();
    assert!((1..=12).contains(&number(&name, 5)));
    assert!(number(&name, 17) <= 60);
}
