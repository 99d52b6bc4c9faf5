//! Laws on files and replies.

use crate::file_name::{extension, last_dot, renamed, stem, with_old_extension};
use crate::files::{
    are_layers, events_file, events_file_in, first_events_file, folders_of_events, is_backup_file,
    is_events_file, is_video, is_video_file, layer_name, layers, script_beside, tf_path,
    video_folders, LayerFile, Listing, VideoFolder, NO_EVENTS_FILE,
};
use crate::grammar::{all_captures, first_capture, CaptureView};
use crate::json::Json;
use crate::laws::text::{
    an_end_follows_the_rest, found_at, found_nowhere, nothing_found_nothing_replaced,
    the_first_found_is_replaced,
};
use crate::lines::{a_match_lies_in_its_text, captures_of_two_texts};
use crate::replies::{
    is_error, is_events_reply, recorded_events, shown_events, NO_EVENTS, UNREADABLE_EVENTS,
};
use crate::text::replaced;
use vstd::prelude::*;

verus! {

/// A file of events is one whose path ends with one of the two names, in a folder.
pub proof fn a_file_of_events_has_one_of_two_names(path: Seq<char>)
    ensures
        is_events_file(path) <==> (exists|folder: Seq<char>|
            path == #[trigger] (folder + "\\_events.txt"@)) || (exists|folder: Seq<char>|
            path == #[trigger] (folder + "\\KillStreaks.txt"@)),
{
    an_end_follows_the_rest(path, "\\_events.txt"@);
    an_end_follows_the_rest(path, "\\KillStreaks.txt"@);
}

/// Whether an entry is a file that is no file of events.
pub open spec fn is_other_file(entry: Result<String, String>) -> bool {
    entry matches Ok(path) && !is_events_file(path@)
}

/// The file of events is the first one, and an unreadable entry before it hides it.
pub proof fn the_first_file_of_events_is_found(entries: Seq<Result<String, String>>, i: int)
    ensures
        0 <= i < entries.len() && (forall|j: int|
            0 <= j < i ==> is_other_file(#[trigger] entries[j])) ==> {
            &&& entries[i] is Ok && is_events_file(entries[i]->Ok_0@) ==> first_events_file(entries)
                == Result::<Seq<char>, Seq<char>>::Ok(entries[i]->Ok_0@)
            &&& entries[i] is Err ==> first_events_file(entries) == Result::<
                Seq<char>,
                Seq<char>,
            >::Err(entries[i]->Err_0@)
        },
        (forall|j: int| 0 <= j < entries.len() ==> is_other_file(#[trigger] entries[j]))
            ==> first_events_file(entries) == Result::<Seq<char>, Seq<char>>::Err(
            "File Not Found"@,
        ),
    decreases entries.len(),
{
    if entries.len() > 0 {
        let rest = entries.skip(1);
        the_first_file_of_events_is_found(rest, i - 1);
        if forall|j: int| 0 <= j < entries.len() ==> is_other_file(#[trigger] entries[j]) {
            assert(is_other_file(entries[0]));
            assert forall|j: int| 0 <= j < rest.len() implies is_other_file(#[trigger] rest[j]) by {
                assert(is_other_file(entries[j + 1]));
            }
        }
        if 0 < i < entries.len() && (forall|j: int|
            0 <= j < i ==> is_other_file(#[trigger] entries[j])) {
            assert(is_other_file(entries[0]));
            assert(rest[i - 1] == entries[i]);
            assert forall|j: int| 0 <= j < i - 1 implies is_other_file(#[trigger] rest[j]) by {
                assert(is_other_file(entries[j + 1]));
            }
        }
    }
}

/// The folder of the demos comes before the `tf` folder, and where neither holds a file of events,
/// the answer names the folder of the settings.
pub proof fn the_folder_of_the_demos_comes_first(settings: Json, demos: Listing, tf: Listing)
    ensures
        ({
            let r = events_file(settings, demos, tf);
            let folder = settings.member("tf_folder"@).text();
            &&& folder is Some && events_file_in(demos) is Ok ==> r == events_file_in(demos)
            &&& folder is Some && events_file_in(demos) is Err && events_file_in(tf) is Ok ==> r
                == events_file_in(tf)
            &&& folder is Some && events_file_in(demos) is Err && events_file_in(tf) is Err ==> (r
                matches Err(why) && why == NO_EVENTS_FILE@ + folder->0 + ")"@)
            &&& folder is None ==> r == Result::<Seq<char>, Seq<char>>::Err(
                "tf_folder setting not set"@,
            )
            &&& events_file_in(Listing::Unreadable) is Err
        }),
{
}

/// Whether a file is a layer called `name`.
pub open spec fn is_layer(file: LayerFile, name: Seq<char>) -> bool {
    !file.is_dir && is_video_file(file.name@) && layer_name(file.name@) == name
}

/// A layer is there exactly if a file is that layer, and its path is that of the last such file.
pub proof fn a_layer_is_the_last_file_for_it(files: Seq<LayerFile>, name: Seq<char>, i: int)
    ensures
        layers(files).dom().contains(name) <==> exists|j: int|
            0 <= j < files.len() && #[trigger] is_layer(files[j], name),
        0 <= i < files.len() && is_layer(files[i], name) && (forall|j: int|
            i < j < files.len() ==> !#[trigger] is_layer(files[j], name)) ==> layers(files)[name]
            == files[i].path@,
    decreases files.len(),
{
    if files.len() > 0 {
        let before = files.drop_last();
        let n = files.len() - 1;
        a_layer_is_the_last_file_for_it(before, name, i);
        if exists|j: int| 0 <= j < before.len() && #[trigger] is_layer(before[j], name) {
            let j = choose|j: int| 0 <= j < before.len() && #[trigger] is_layer(before[j], name);
            assert(is_layer(files[j], name));
        }
        if exists|j: int| 0 <= j < files.len() && #[trigger] is_layer(files[j], name) {
            let j = choose|j: int| 0 <= j < files.len() && #[trigger] is_layer(files[j], name);
            if j < n {
                assert(is_layer(before[j], name));
            }
        }
        assert(is_layer(files[n], name) ==> layers(files).dom().contains(name));
        if layers(files).dom().contains(name) && !layers(before).dom().contains(name) {
            assert(is_layer(files[n], name));
        }
        if layers(before).dom().contains(name) {
            assert(layers(files).dom().contains(name));
        }
        if 0 <= i < n && is_layer(files[i], name) && (forall|j: int|
            i < j < files.len() ==> !#[trigger] is_layer(files[j], name)) {
            assert(!is_layer(files[n], name));
            assert forall|j: int| i < j < before.len() implies !#[trigger] is_layer(
                before[j],
                name,
            ) by {
                assert(!is_layer(files[j], name));
            }
        }
    }
}

/// Whether `s` holds no dot.
pub open spec fn no_dot(s: Seq<char>) -> bool {
    forall|i: int| 0 <= i < s.len() ==> s[i] != '.'
}

/// A file is a video exactly if one of the three endings follows its last dot.
pub proof fn the_ending_tells_a_video(base: Seq<char>, ending: Seq<char>)
    requires
        no_dot(ending),
    ensures
        is_video_file(base + "."@ + ending) <==> ending == "mp4"@ || ending == "avi"@ || ending
            == "mkv"@,
{
    reveal_strlit(".");
    reveal_strlit("mp4");
    reveal_strlit("avi");
    reveal_strlit("mkv");
    reveal_strlit(".mp4");
    reveal_strlit(".avi");
    reveal_strlit(".mkv");
    let name = base + "."@ + ending;
    dotted_end(base, ending, "mp4"@, ".mp4"@);
    dotted_end(base, ending, "avi"@, ".avi"@);
    dotted_end(base, ending, "mkv"@, ".mkv"@);
    assert(name[base.len() as int] == '.');
    assert(name != "mp4"@) by {
        assert("mp4"@.len() == 3 && "mp4"@[0] != '.' && "mp4"@[1] != '.' && "mp4"@[2] != '.');
    }
    assert(name != "avi"@) by {
        assert("avi"@.len() == 3 && "avi"@[0] != '.' && "avi"@[1] != '.' && "avi"@[2] != '.');
    }
    assert(name != "mkv"@) by {
        assert("mkv"@.len() == 3 && "mkv"@[0] != '.' && "mkv"@[1] != '.' && "mkv"@[2] != '.');
    }
}

proof fn dotted_end(base: Seq<char>, ending: Seq<char>, wanted: Seq<char>, dotted: Seq<char>)
    requires
        no_dot(ending),
        no_dot(wanted),
        dotted =~= "."@ + wanted,
        "."@ =~= seq!['.'],
    ensures
        crate::text::finishes_with(base + "."@ + ending, dotted) <==> ending == wanted,
{
    let name = base + "."@ + ending;
    an_end_follows_the_rest(name, dotted);
    if ending == wanted {
        assert(name =~= base + dotted);
    }
    if exists|rest: Seq<char>| name == #[trigger] (rest + dotted) {
        let rest = choose|rest: Seq<char>| name == #[trigger] (rest + dotted);
        let at = rest.len() as int;
        assert(name[at] == '.');
        let n = base.len() as int;
        if at > n {
            assert(name[at] == ending[at - n - 1]);
        }
        if at < n {
            assert(name[n] == '.');
            assert((rest + dotted)[n] == wanted[n - at - 1]);
        }
        assert(at == n);
        assert(name.skip(n + 1) =~= ending);
        assert((rest + dotted).skip(n + 1) =~= wanted);
    }
}

/// A layer is called like its file without the ending.
pub proof fn a_layer_has_no_ending(base: Seq<char>)
    requires
        no_dot(base),
    ensures
        layer_name(base + ".mp4"@) == base,
        layer_name(base + ".avi"@) == base,
        layer_name(base + ".mkv"@) == base,
        layer_name(base) == base,
{
    reveal_strlit(".mp4");
    reveal_strlit(".avi");
    reveal_strlit(".mkv");
    reveal_strlit("");
    no_dot_stays(base, ".mp4"@);
    no_dot_stays(base, ".avi"@);
    no_dot_stays(base, ".mkv"@);
    ending_goes(base, ".mp4"@);
    ending_goes(base, ".avi"@);
    ending_goes(base, ".mkv"@);
    other_ending_stays(base, ".avi"@, ".mp4"@);
    other_ending_stays(base, ".mkv"@, ".mp4"@);
    other_ending_stays(base, ".mkv"@, ".avi"@);
}

proof fn no_dot_stays(base: Seq<char>, ending: Seq<char>)
    requires
        no_dot(base),
        ending.len() == 4,
        ending[0] == '.',
    ensures
        replaced(base, ending, ""@) == base,
{
    assert forall|at: int| !#[trigger] found_at(base, at, ending) by {
        if found_at(base, at, ending) {
            assert(base.subrange(at, at + 4)[0] == base[at]);
        }
    }
    nothing_found_nothing_replaced(base, ending, ""@);
}

proof fn ending_goes(base: Seq<char>, ending: Seq<char>)
    requires
        no_dot(base),
        ending.len() == 4,
        ending[0] == '.',
        ""@.len() == 0,
    ensures
        replaced(base + ending, ending, ""@) == base,
{
    let none = Seq::<char>::empty();
    let s = base + ending + none;
    assert(s =~= base + ending);
    assert forall|at: int| 0 <= at < base.len() implies !#[trigger] found_at(s, at, ending) by {
        if found_at(s, at, ending) {
            assert(s.subrange(at, at + 4)[0] == base[at]);
        }
    }
    the_first_found_is_replaced(base, ending, none, ""@);
    assert(replaced(none, ending, ""@) =~= none);
    assert(base + ""@ + none =~= base);
}

proof fn other_ending_stays(base: Seq<char>, ending: Seq<char>, other: Seq<char>)
    requires
        no_dot(base),
        ending.len() == 4,
        other.len() == 4,
        other[0] == '.',
        ending[1] != '.' && ending[2] != '.' && ending[3] != '.',
        ending[1] != other[1] || ending[2] != other[2] || ending[3] != other[3],
    ensures
        replaced(base + ending, other, ""@) == base + ending,
{
    let s = base + ending;
    assert forall|at: int| !#[trigger] found_at(s, at, other) by {
        if found_at(s, at, other) {
            let there = s.subrange(at, at + 4);
            assert(there[0] == s[at] && there[1] == s[at + 1] && there[2] == s[at + 2] && there[3]
                == s[at + 3]);
            if at < base.len() {
                assert(s[at] == base[at]);
            }
        }
    }
    nothing_found_nothing_replaced(s, other, ""@);
}

/// Each folder with a take counts, by itself and in its order, and no other does.
pub proof fn every_folder_with_a_take_counts(
    a: Seq<VideoFolder>,
    b: Seq<VideoFolder>,
    folder: VideoFolder,
)
    ensures
        video_folders(a + b) == video_folders(a) + video_folders(b),
        folder.is_dir && folder.take is Some ==> video_folders(seq![folder]) == seq![folder],
        !folder.is_dir || folder.take is None ==> video_folders(seq![folder]).len() == 0,
    decreases b.len(),
{
    assert(seq![folder].drop_last() =~= seq![]);
    assert(video_folders(seq![folder].drop_last()) =~= seq![]);
    assert(Seq::<VideoFolder>::empty().push(folder) =~= seq![folder]);
    if b.len() == 0 {
        assert(a + b =~= a);
        assert(video_folders(a) + video_folders(b) =~= video_folders(a));
    } else {
        every_folder_with_a_take_counts(a, b.drop_last(), folder);
        assert((a + b).drop_last() =~= a + b.drop_last());
        assert(video_folders(a + b) =~= video_folders(a) + video_folders(b));
    }
}

/// A reply tells one error or one list of events, and never both.
pub proof fn a_reply_tells_one_thing(
    reply: Json,
    code: int,
    why: Seq<char>,
    other_code: int,
    other_why: Seq<char>,
    events: Seq<Json>,
    other_events: Seq<Json>,
)
    ensures
        is_error(reply, code, why) && is_error(reply, other_code, other_why) ==> code == other_code
            && why == other_why,
        is_events_reply(reply, events) && is_events_reply(reply, other_events) ==> events
            == other_events,
        is_error(reply, code, why) ==> !is_events_reply(reply, events),
{
    reveal_strlit("err_text");
    reveal_strlit("events");
    assert("err_text"@.len() != "events"@.len());
    if is_error(reply, code, why) && is_events_reply(reply, events) {
        assert(reply.keys()[1] == "err_text"@);
        assert(reply.keys()[1] == "events"@);
    }
}

/// Events are looked for below the folder of the settings, whichever that is.
pub proof fn events_are_looked_for_in_the_folder_of_the_settings(settings: Json, tf: Seq<char>)
    ensures
        settings.member("tf_folder"@).text() is None <==> folders_of_events(settings) is None,
        settings.member("tf_folder"@).text() == Some(tf) ==> folders_of_events(settings) == Some(
            (tf + "\\demos"@, tf),
        ),
{
}

/// A file of the game stands below the folder of the settings, with its whole name.
pub proof fn a_path_is_the_folder_and_the_name(
    settings: Json,
    tf: Seq<char>,
    name: Seq<char>,
    more: Seq<char>,
)
    requires
        settings.member("tf_folder"@).text() == Some(tf),
    ensures
        tf_path(settings, name) == tf + name,
        tf_path(settings, name + more) == tf_path(settings, name) + more,
{
    assert(tf_path(settings, name + more) =~= tf_path(settings, name) + more);
}

/// The script beside a demo has its name, with another ending, and a name without the ending of a
/// demo stays.
pub proof fn a_script_stands_beside_its_demo(base: Seq<char>, rest: Seq<char>)
    requires
        found_nowhere(base, ".dem"@),
        forall|at: int|
            0 <= at < base.len() ==> !#[trigger] found_at(base + ".dem"@ + rest, at, ".dem"@),
    ensures
        script_beside(base + ".dem"@ + rest) == base + ".vdm"@ + script_beside(rest),
        script_beside(base) == base,
{
    reveal_strlit(".dem");
    the_first_found_is_replaced(base, ".dem"@, rest, ".vdm"@);
    nothing_found_nothing_replaced(base, ".dem"@, ".vdm"@);
}

/// A backup is a file whose name ends as a text does, and nothing else is one.
pub proof fn a_backup_is_a_text_file(name: Seq<char>)
    ensures
        is_backup_file(name, true) <==> exists|base: Seq<char>| name == #[trigger] (base + ".txt"@),
        !is_backup_file(name, false),
{
    an_end_follows_the_rest(name, ".txt"@);
}

/// An object tells its layers completely, and a video tells its name, its path and its layers.
pub proof fn a_video_is_told_completely(
    members: Seq<(String, Json)>,
    a: Map<Seq<char>, Seq<char>>,
    b: Map<Seq<char>, Seq<char>>,
    json: Json,
    folder: VideoFolder,
    other: VideoFolder,
)
    ensures
        are_layers(members, a) && are_layers(members, b) ==> a == b,
        is_video(json, folder) && is_video(json, other) ==> folder.name@ == other.name@
            && folder.path@ == other.path@ && layers(folder.take->0@) == layers(other.take->0@),
{
    if are_layers(members, a) && are_layers(members, b) {
        layers_are_told(members, a, b);
    }
    if is_video(json, folder) && is_video(json, other) {
        let told = json.member("layers"@)->Object_0@;
        layers_are_told(told, layers(folder.take->0@), layers(other.take->0@));
    }
}

proof fn layers_are_told(
    members: Seq<(String, Json)>,
    a: Map<Seq<char>, Seq<char>>,
    b: Map<Seq<char>, Seq<char>>,
)
    requires
        are_layers(members, a),
        are_layers(members, b),
    ensures
        a == b,
{
    assert forall|name: Seq<char>| a.dom().contains(name) == b.dom().contains(name) by {
        assert(crate::json::names(members).contains(name) <==> a.dom().contains(name));
        assert(crate::json::names(members).contains(name) <==> b.dom().contains(name));
    }
    assert forall|name: Seq<char>| #[trigger] a.dom().contains(name) implies a[name] == b[name] by {
        assert(b.dom().contains(name));
        assert(crate::json::lookup(members, name).text() == Some(a[name]));
        assert(crate::json::lookup(members, name).text() == Some(b[name]));
    }
    assert(a =~= b);
}

/// A name is its stem and its extension, with a dot between them; the extension holds no dot and the
/// stem is not empty.
pub proof fn a_name_is_its_stem_and_extension(name: Seq<char>)
    ensures
        extension(name) matches Some(old) ==> name == stem(name) + seq!['.'] + old && no_dot(old)
            && stem(name).len() > 0,
        extension(name) is None ==> stem(name) == name && forall|i: int|
            0 < i < name.len() ==> name[i] != '.',
{
    dots(name);
    let at = last_dot(name);
    if at > 0 {
        assert(name =~= stem(name) + seq!['.'] + name.skip(at + 1));
    }
}

proof fn dots(name: Seq<char>)
    ensures
        0 <= last_dot(name),
        last_dot(name) > 0 ==> last_dot(name) < name.len() && name[last_dot(name)] == '.',
        forall|i: int| last_dot(name) < i < name.len() ==> name[i] != '.',
    decreases name.len(),
{
    if name.len() > 1 && name.last() != '.' {
        let before = name.drop_last();
        dots(before);
        assert forall|i: int| last_dot(name) < i < name.len() implies name[i] != '.' by {
            if i < before.len() {
                assert(before[i] == name[i]);
            }
        }
    }
}

/// A renamed file stays in its folder and is called by the stem of its cleaned name and by its old
/// extension.
pub proof fn a_renamed_file_stays_in_its_folder(
    folder: Seq<char>,
    cleaned: Seq<char>,
    name: Seq<char>,
)
    ensures
        cleaned.len() == 0 <==> renamed(folder, cleaned, name) is None,
        cleaned.len() > 0 ==> renamed(folder, cleaned, name) == Some(
            folder + with_old_extension(cleaned, name),
        ),
        extension(name) is None ==> with_old_extension(cleaned, name) == cleaned,
        extension(name) matches Some(old) ==> old.len() > 0 ==> with_old_extension(cleaned, name)
            == stem(cleaned) + seq!['.'] + old,
        extension(name) matches Some(old) ==> old.len() == 0 ==> with_old_extension(cleaned, name)
            == stem(cleaned),
{
    reveal_strlit(".");
    assert("."@ =~= seq!['.']);
}

/// Every event of a file counts: the events of two texts with the end of a line between them are
/// those of the one and then those of the other. A file has events exactly if a line of one is found
/// in it.
pub proof fn every_event_of_a_file_counts(
    found: Result<String, String>,
    first: Seq<char>,
    second: Seq<char>,
)
    requires
        found is Ok,
    ensures
        recorded_events(found, Some(first)) is Ok <==> first_capture(first) is Some,
        recorded_events(found, Some(first)) is Ok && recorded_events(found, Some(second)) is Ok
            ==> recorded_events(found, Some(first + seq!['\n'] + second)) == Result::<
            Seq<CaptureView>,
            (int, Seq<char>),
        >::Ok(
            recorded_events(found, Some(first))->Ok_0 + recorded_events(found, Some(second))->Ok_0,
        ),
        recorded_events(found, Some(first)) is Ok && recorded_events(found, Some(second)) is Err
            ==> recorded_events(found, Some(first + seq!['\n'] + second)) == recorded_events(
            found,
            Some(first),
        ),
{
    captures_of_two_texts(first, second);
    first_capture_counts(first);
    if recorded_events(found, Some(first)) is Ok && recorded_events(found, Some(second)) is Err {
        assert(all_captures(first) + all_captures(second)
            =~= all_captures(first));
    }
}

proof fn first_capture_counts(s: Seq<char>)
    ensures
        all_captures(s).len() > 0 <==> first_capture(s) is Some,
{
    if first_capture(s) is Some {
        a_match_lies_in_its_text(s);
    }
}

/// Without a file its reason is told, without its text that it cannot be read, and without an event
/// where the file is.
pub proof fn what_is_missing_is_told(
    found: Result<String, String>,
    text: Option<Seq<char>>,
    read: Result<String, String>,
)
    ensures
        found matches Err(why) ==> recorded_events(found, text) == Result::<
            Seq<CaptureView>,
            (int, Seq<char>),
        >::Err((404int, why@)) && shown_events(found, read) == Result::<
            Seq<CaptureView>,
            (int, Seq<char>),
        >::Err((404int, why@)),
        found is Ok && text is None ==> recorded_events(found, text) == Result::<
            Seq<CaptureView>,
            (int, Seq<char>),
        >::Err((404int, UNREADABLE_EVENTS@)),
        (found matches Ok(location) && (text matches Some(t) && first_capture(t) is None))
            ==> recorded_events(found, text) == Result::<
            Seq<CaptureView>,
            (int, Seq<char>),
        >::Err((410int, NO_EVENTS@ + found->Ok_0@)),
        found is Ok && read is Err ==> shown_events(found, read) == Result::<
            Seq<CaptureView>,
            (int, Seq<char>),
        >::Err((400int, read->Err_0@)),
{
    if text is Some {
        first_capture_counts(text->0);
    }
}

/// The events that are recorded are those that are shown, where there are any, and a file without
/// events shows none.
pub proof fn recorded_events_are_the_shown_ones(found: Result<String, String>, text: String)
    requires
        found is Ok,
    ensures
        shown_events(found, Ok(text)) is Ok,
        recorded_events(found, Some(text@)) is Ok ==> recorded_events(found, Some(text@))
            == shown_events(found, Ok(text)),
        recorded_events(found, Some(text@)) is Err <==> shown_events(found, Ok(text))->Ok_0.len()
            == 0,
{
}

} // verus!
