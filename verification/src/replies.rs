//! What the user interface is told.

use crate::clip::Clip;
use crate::grammar::{all_captures, capture_views, captures, CaptureView, EventCapture};
use crate::json::{first_of_its_name, lookup, names, put, Json};
use crate::script::{name_of, script_name};
use vstd::prelude::*;

verus! {

/// What is said where the file of events cannot be read.
pub const UNREADABLE_EVENTS: &'static str =
    "Failed to read _events.txt or KillStreaks.txt\nPlease check your settings to ensure the tf folder is correctly linked.";

/// What is said where the file of events holds no event, before the file.
pub const NO_EVENTS: &'static str =
    "_events.txt or KillStreaks.txt was found but had no valid events. Please add events before running again.\n\nFile Location: ";

/// What is said where the folder of the demos cannot be found.
pub const FIX_TF_FOLDER: &'static str =
    "Can't find 'tf' folder. Please fix the \"'tf' Folder\" setting in settings.";

/// What is said where there is no folder of backups.
pub const NO_BACKUPS: &'static str = "Can't find backups folder. You may not have backups yet.";

/// Whether `json` tells of an error: its code and its text.
pub open spec fn is_error(json: Json, code: int, why: Seq<char>) -> bool {
    &&& json.keys() == seq!["code"@, "err_text"@]
    &&& json.member("code"@) matches Json::Int(c) && c == code
    &&& json.member("err_text"@).text() == Some(why)
}

/// Tells of an error.
pub fn error_reply(code: i64, why: &str) -> (r: Json)
    ensures
        is_error(r, code as int, why@),
{
    let mut members: Vec<(String, Json)> = Vec::new();
    members.push(("code".to_owned(), Json::Int(code)));
    members.push(("err_text".to_owned(), Json::Text(why.to_owned())));
    proof {
        reveal_strlit("code");
        reveal_strlit("err_text");
        assert("code"@.len() != "err_text"@.len());
        first_of_its_name(members@, 0);
        first_of_its_name(members@, 1);
        assert(names(members@) =~= seq!["code"@, "err_text"@]);
    }
    Json::Object(members)
}

/// Which events are recorded, or which error is told: `found` is where the file of events is or why
/// there is none, and `text` is what it holds, where it could be read.
pub open spec fn recorded_events(
    found: Result<String, String>,
    text: Option<Seq<char>>,
) -> Result<Seq<CaptureView>, (int, Seq<char>)> {
    match found {
        Err(why) => Err((404int, why@)),
        Ok(location) => match text {
            None => Err((404int, UNREADABLE_EVENTS@)),
            Some(text) => if all_captures(text).len() == 0 {
                Err((410int, NO_EVENTS@ + location@))
            } else {
                Ok(all_captures(text))
            },
        },
    }
}

/// Which events are shown, or which error is told: `found` is where the file of events is or why
/// there is none, and `text` is what it holds, or why it could not be read.
pub open spec fn shown_events(
    found: Result<String, String>,
    text: Result<String, String>,
) -> Result<Seq<CaptureView>, (int, Seq<char>)> {
    match found {
        Err(why) => Err((404int, why@)),
        Ok(_) => match text {
            Err(why) => Err((400int, why@)),
            Ok(text) => Ok(all_captures(text@)),
        },
    }
}

/// Whether `r` gives the events or tells the error of `outcome`.
pub open spec fn gives(
    r: Result<Vec<EventCapture>, Json>,
    outcome: Result<Seq<CaptureView>, (int, Seq<char>)>,
) -> bool {
    match outcome {
        Ok(lines) => r matches Ok(events) && capture_views(events@) == lines,
        Err(error) => r matches Err(reply) && is_error(reply, error.0, error.1),
    }
}

/// The lines of the events to record, or what is wrong. `found` is where the file of events is, and
/// `text` is what it holds, where it could be read.
pub fn events_to_record(found: &Result<String, String>, text: Option<&str>) -> (r: Result<
    Vec<EventCapture>,
    Json,
>)
    ensures
        match (found, text) {
            (Err(why), _) => r matches Err(reply) && is_error(reply, 404, why@),
            (Ok(_), None) => r matches Err(reply) && is_error(reply, 404, UNREADABLE_EVENTS@),
            (Ok(location), Some(text)) => if all_captures(text@).len() == 0 {
                r matches Err(reply) && is_error(reply, 410, NO_EVENTS@ + location@)
            } else {
                r matches Ok(events) && capture_views(events@) == all_captures(text@)
            },
        },
        gives(
            r,
            recorded_events(
                *found,
                match text {
                    Some(text) => Some(text@),
                    None => None,
                },
            ),
        ),
{
    let location = match found {
        Ok(location) => location,
        Err(why) => {
            return Err(error_reply(404, why.as_str()));
        },
    };
    let text = match text {
        Some(text) => text,
        None => {
            return Err(error_reply(404, UNREADABLE_EVENTS));
        },
    };
    let events = captures(text);
    assert(capture_views(events@).len() == events@.len());
    if events.len() == 0 {
        return Err(
            error_reply(410, NO_EVENTS.to_owned().concat(location.as_str()).as_str()),
        );
    }
    Ok(events)
}

/// The lines of the events to show, or what is wrong. `found` is where the file of events is, and
/// `text` is what it holds, or why it could not be read.
pub fn events_to_show(found: &Result<String, String>, text: &Result<String, String>) -> (r: Result<
    Vec<EventCapture>,
    Json,
>)
    ensures
        match (found, text) {
            (Err(why), _) => r matches Err(reply) && is_error(reply, 404, why@),
            (Ok(_), Err(why)) => r matches Err(reply) && is_error(reply, 400, why@),
            (Ok(_), Ok(text)) => r matches Ok(events) && capture_views(events@) == all_captures(
                text@,
            ),
        },
        gives(r, shown_events(*found, *text)),
{
    match found {
        Ok(_) => {},
        Err(why) => {
            return Err(error_reply(404, why.as_str()));
        },
    }
    match text {
        Ok(text) => Ok(captures(text.as_str())),
        Err(why) => Err(error_reply(400, why.as_str())),
    }
}

/// Whether `json` tells of events: the code of success, and the events as `events` has them.
pub open spec fn is_events_reply(json: Json, events: Seq<Json>) -> bool {
    &&& json.keys() == seq!["code"@, "events"@]
    &&& json.member("code"@) == Json::Int(200)
    &&& json.member("events"@) matches Json::List(list) && list@ == events
}

/// Tells of events.
pub fn events_reply(events: Vec<Json>) -> (r: Json)
    ensures
        is_events_reply(r, events@),
{
    let mut members: Vec<(String, Json)> = Vec::new();
    members.push(("code".to_owned(), Json::Int(200)));
    members.push(("events".to_owned(), Json::List(events)));
    proof {
        reveal_strlit("code");
        reveal_strlit("events");
        assert("code"@.len() != "events"@.len());
        first_of_its_name(members@, 0);
        first_of_its_name(members@, 1);
        assert(names(members@) =~= seq!["code"@, "events"@]);
    }
    Json::Object(members)
}

/// What is told once `events` are saved to the file of events, found at `found`.
pub fn saved_reply(found: &Result<String, String>, events: Vec<Json>) -> (r: Json)
    ensures
        match found {
            Ok(_) => is_events_reply(r, events@),
            Err(why) => is_error(r, 404, why@),
        },
{
    match found {
        Ok(_) => events_reply(events),
        Err(why) => error_reply(404, why.as_str()),
    }
}

/// What is told where the configuration could not be written, and why.
pub fn configuration_reply(written: &Result<(), String>) -> (r: Option<Json>)
    ensures
        match written {
            Ok(_) => r is None,
            Err(why) => r matches Some(reply) && is_error(reply, 500, why@),
        },
{
    match written {
        Ok(_) => None,
        Err(why) => Some(error_reply(500, why.as_str())),
    }
}

/// What is told once the file of events, found at `found`, is emptied.
pub fn clear_events(found: &Result<String, String>) -> (r: Json)
    ensures
        match found {
            Ok(_) => is_events_reply(r, seq![]),
            Err(why) => is_error(r, 404, why@),
        },
{
    match found {
        Ok(_) => {
            let events: Vec<Json> = Vec::new();
            assert(events@ =~= seq![]);
            events_reply(events)
        },
        Err(why) => error_reply(404, why.as_str()),
    }
}

/// What is told once the file of events, found at `found`, is copied to `output_path`.
pub fn save_backup(found: &Result<String, String>, output_path: &str) -> (r: Json)
    ensures
        match found {
            Ok(_) => {
                &&& r.keys() == seq!["code"@, "output_path"@]
                &&& r.member("code"@) == Json::Int(200)
                &&& r.member("output_path"@).text() == Some(output_path@)
            },
            Err(why) => is_error(r, 404, why@),
        },
{
    match found {
        Ok(_) => {
            let mut members: Vec<(String, Json)> = Vec::new();
            members.push(("code".to_owned(), Json::Int(200)));
            members.push(("output_path".to_owned(), Json::Text(output_path.to_owned())));
            proof {
                reveal_strlit("code");
                reveal_strlit("output_path");
                assert("code"@.len() != "output_path"@.len());
                first_of_its_name(members@, 0);
                first_of_its_name(members@, 1);
                assert(names(members@) =~= seq!["code"@, "output_path"@]);
            }
            Json::Object(members)
        },
        Err(why) => error_reply(404, why.as_str()),
    }
}

/// What was recorded.
#[derive(Debug)]
pub struct Recorded {
    pub clips: i64,
    pub events: i64,
    pub vdms: i64,
    pub backup_location: String,
    pub first_demo: String,
}

/// Tells what was recorded.
pub fn recorded_reply(recorded: &Recorded) -> (r: Json)
    ensures
        r.keys() == seq![
            "backup_location"@,
            "clips"@,
            "code"@,
            "events"@,
            "first_demo"@,
            "vdms"@,
        ],
        r.member("backup_location"@).text() == Some(recorded.backup_location@),
        r.member("clips"@) == Json::Int(recorded.clips),
        r.member("code"@) == Json::Int(200),
        r.member("events"@) == Json::Int(recorded.events),
        r.member("first_demo"@).text() == Some(recorded.first_demo@),
        r.member("vdms"@) == Json::Int(recorded.vdms),
{
    let mut members: Vec<(String, Json)> = Vec::new();
    members.push(("backup_location".to_owned(), Json::Text(recorded.backup_location.clone())));
    members.push(("clips".to_owned(), Json::Int(recorded.clips)));
    members.push(("code".to_owned(), Json::Int(200)));
    members.push(("events".to_owned(), Json::Int(recorded.events)));
    members.push(("first_demo".to_owned(), Json::Text(recorded.first_demo.clone())));
    members.push(("vdms".to_owned(), Json::Int(recorded.vdms)));
    proof {
        reveal_strlit("backup_location");
        reveal_strlit("clips");
        reveal_strlit("code");
        reveal_strlit("events");
        reveal_strlit("first_demo");
        reveal_strlit("vdms");
        assert("backup_location"@.len() == 15 && "clips"@.len() == 5 && "code"@.len() == 4);
        assert("events"@.len() == 6 && "first_demo"@.len() == 10 && "vdms"@.len() == 4);
        assert("code"@[0] != "vdms"@[0]);
        first_of_its_name(members@, 0);
        first_of_its_name(members@, 1);
        first_of_its_name(members@, 2);
        first_of_its_name(members@, 3);
        first_of_its_name(members@, 4);
        first_of_its_name(members@, 5);
        assert(names(members@) =~= seq![
            "backup_location"@,
            "clips"@,
            "code"@,
            "events"@,
            "first_demo"@,
            "vdms"@,
        ]);
    }
    Json::Object(members)
}

/// Tells what was recorded: the number of clips, of events and of scripts, where the backup is, and
/// the demo of the first script.
pub fn recorded(
    clips: &Vec<Clip>,
    event_count: u64,
    scripts: &Vec<vdm::VDM>,
    backup_location: &str,
) -> (r: Json)
    requires
        scripts@.len() > 0,
        clips@.len() <= i64::MAX,
        event_count <= i64::MAX,
        scripts@.len() <= i64::MAX,
    ensures
        r.keys() == seq![
            "backup_location"@,
            "clips"@,
            "code"@,
            "events"@,
            "first_demo"@,
            "vdms"@,
        ],
        r.member("backup_location"@).text() == Some(backup_location@),
        r.member("clips"@) == Json::Int(clips@.len() as i64),
        r.member("code"@) == Json::Int(200),
        r.member("events"@) == Json::Int(event_count as i64),
        r.member("first_demo"@).text() == Some(script_name(scripts@[0])),
        r.member("vdms"@) == Json::Int(scripts@.len() as i64),
{
    recorded_reply(
        &Recorded {
            clips: clips.len() as i64,
            events: event_count as i64,
            vdms: scripts.len() as i64,
            backup_location: backup_location.to_owned(),
            first_demo: name_of(&scripts[0]),
        },
    )
}

/// What is told of a backup that is loaded again: whether the file of events was found, the backup
/// exists, and copying it over the file of events went well.
pub fn reload_backup(found: bool, is_there: bool, copied: bool) -> (r: Result<String, String>)
    ensures
        if found && is_there && copied {
            r matches Ok(what) && what@ == "Successfully loaded backup."@
        } else if found && !is_there {
            r matches Err(why) && why@ == "Failed to find backup file."@
        } else {
            r matches Err(why) && why@ == "Failed to reload backup."@
        },
{
    if !found {
        return Err("Failed to reload backup.".to_owned());
    }
    if is_there {
        if copied {
            return Ok("Successfully loaded backup.".to_owned());
        }
        return Err("Failed to reload backup.".to_owned());
    }
    Err("Failed to find backup file.".to_owned())
}

/// The theme of the user, with the member `has_theme`: on where there is a theme, and off
/// where there is none. Every other member stays, and there is no further one.
pub fn load_theme(theme: Option<Json>) -> (r: Json)
    requires
        theme matches Some(json) ==> json is Object || json is Null,
    ensures
        r is Object,
        r.member("has_theme"@) == Json::Bool(theme is Some),
        r.keys() == (match theme {
            None => seq!["has_theme"@],
            Some(json) => if json.keys().contains("has_theme"@) {
                json.keys()
            } else {
                json.keys().push("has_theme"@)
            },
        }),
        forall|key: Seq<char>|
            key != "has_theme"@ ==> #[trigger] r.member(key) == (match theme {
                Some(json) => json.member(key),
                None => Json::Null,
            }),
{
    let (mut members, known) = match theme {
        Some(Json::Object(members)) => (members, true),
        Some(_) => (Vec::new(), true),
        None => (Vec::new(), false),
    };
    let ghost before = members@;
    put(&mut members, "has_theme".to_owned(), Json::Bool(known));
    let r = Json::Object(members);
    proof {
        if before.len() == 0 {
            assert(names(before) =~= seq![]);
            assert(names(members@) =~= seq!["has_theme"@]);
        }
    }
    assert forall|key: Seq<char>| key != "has_theme"@ implies #[trigger] r.member(key) == (
    match theme {
        Some(json) => json.member(key),
        None => Json::Null,
    }) by {
        assert(lookup(members@, key) == lookup(before, key));
    }
    r
}

} // verus!
