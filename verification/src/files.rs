//! Which files are read and written.

use crate::json::{lookup, names, put, Json};
use crate::text::{ends_with, finishes_with, replace, replaced, same};
use vstd::prelude::*;

verus! {

/// What reading a folder gave.
#[derive(Debug)]
pub enum Listing {
    /// The folder could not be read.
    Unreadable,
    /// The paths of its entries, or for an entry that could not be read, why.
    Entries(Vec<Result<String, String>>),
}

/// What is said where no folder could be read.
pub const NO_FOLDER: &'static str =
    "Could not find the _events.txt or KillStreaks.txt files.\nPlease check your settings to ensure the 'tf' folder is correctly linked.\nIf you do not have either file, please make one in the 'tf' or 'tf/demos' folder.";

/// What is said where no folder holds a file of events, before the folder of the settings.
pub const NO_EVENTS_FILE: &'static str =
    "Could not find the _events.txt or KillStreaks.txt files.\nPlease check your settings to ensure the tf folder is correctly linked.\nIf you do not have either file, please make one in the 'tf' or 'tf/demos' folder. \n\ntf_folder setting: (";

/// Whether the game notes its events in the file `path`.
pub open spec fn is_events_file(path: Seq<char>) -> bool {
    finishes_with(path, "\\_events.txt"@) || finishes_with(path, "\\KillStreaks.txt"@)
}

/// The outcomes `a` and `b` with the same text.
pub open spec fn same_outcome(
    a: Result<String, String>,
    b: Result<Seq<char>, Seq<char>>,
) -> bool {
    match a {
        Ok(text) => b == Result::<Seq<char>, Seq<char>>::Ok(text@),
        Err(text) => b == Result::<Seq<char>, Seq<char>>::Err(text@),
    }
}

/// The first file of events among `entries`, unless an entry that could not be read comes before
/// it.
pub open spec fn first_events_file(entries: Seq<Result<String, String>>) -> Result<
    Seq<char>,
    Seq<char>,
>
    decreases entries.len(),
{
    if entries.len() == 0 {
        Err("File Not Found"@)
    } else {
        match entries[0] {
            Err(why) => Err(why@),
            Ok(path) => if is_events_file(path@) {
                Ok(path@)
            } else {
                first_events_file(entries.skip(1))
            },
        }
    }
}

/// The file of events in a folder.
pub open spec fn events_file_in(listing: Listing) -> Result<Seq<char>, Seq<char>> {
    match listing {
        Listing::Unreadable => Err(NO_FOLDER@),
        Listing::Entries(entries) => first_events_file(entries@),
    }
}

/// The file of events in a folder.
pub fn check_dir(listing: &Listing) -> (r: Result<String, String>)
    ensures
        same_outcome(r, events_file_in(*listing)),
{
    let entries = match listing {
        Listing::Unreadable => {
            return Err(NO_FOLDER.to_owned());
        },
        Listing::Entries(entries) => entries,
    };
    let mut i: usize = 0;
    assert(entries@.skip(0) =~= entries@);
    while i < entries.len()
        invariant
            i <= entries@.len(),
            *listing == Listing::Entries(*entries),
            first_events_file(entries@) == first_events_file(entries@.skip(i as int)),
        decreases entries@.len() - i,
    {
        match &entries[i] {
            Err(why) => {
                return Err(why.clone());
            },
            Ok(path) => {
                if ends_with(path.as_str(), "\\_events.txt") {
                    return Ok(path.clone());
                }
                if ends_with(path.as_str(), "\\KillStreaks.txt") {
                    return Ok(path.clone());
                }
            },
        }
        assert(entries@.skip(i as int).skip(1) =~= entries@.skip(i + 1));
        i += 1;
    }
    Err("File Not Found".to_owned())
}

/// The folders in which the file of events is looked for, where the settings give the `tf` folder:
/// that of the demos, and then the `tf` folder itself.
pub open spec fn folders_of_events(settings: Json) -> Option<(Seq<char>, Seq<char>)> {
    match settings.member("tf_folder"@).text() {
        Some(folder) => Some((folder + "\\demos"@, folder)),
        None => None,
    }
}

/// The folders in which the file of events is looked for.
pub fn events_folders(settings: &Json) -> (r: Option<(String, String)>)
    ensures
        match folders_of_events(*settings) {
            Some(folders) => r matches Some(both) && both.0@ == folders.0 && both.1@ == folders.1,
            None => r is None,
        },
{
    match settings.get("tf_folder").as_str() {
        Some(folder) => Some((folder.to_owned().concat("\\demos"), folder.to_owned())),
        None => None,
    }
}

/// The file of events for `settings`, with the contents of the folder of the demos and of the `tf`
/// folder.
pub open spec fn events_file(settings: Json, demos: Listing, tf: Listing) -> Result<
    Seq<char>,
    Seq<char>,
> {
    match settings.member("tf_folder"@).text() {
        None => Err("tf_folder setting not set"@),
        Some(folder) => if events_file_in(demos) is Ok {
            events_file_in(demos)
        } else if events_file_in(tf) is Ok {
            events_file_in(tf)
        } else {
            Err(NO_EVENTS_FILE@ + folder + ")"@)
        },
    }
}

/// The file of events for `settings`. `demos` and `tf` are what reading the folders of
/// `events_folders` gave; without such folders they are not looked at.
pub fn find_dir(settings: &Json, demos: &Listing, tf: &Listing) -> (r: Result<String, String>)
    ensures
        same_outcome(r, events_file(*settings, *demos, *tf)),
{
    let folder = match settings.get("tf_folder").as_str() {
        Some(folder) => folder,
        None => {
            return Err("tf_folder setting not set".to_owned());
        },
    };
    match check_dir(demos) {
        Ok(path) => {
            return Ok(path);
        },
        Err(_) => {},
    }
    match check_dir(tf) {
        Ok(path) => {
            return Ok(path);
        },
        Err(_) => {},
    }
    Err(NO_EVENTS_FILE.to_owned().concat(folder).concat(")"))
}

/// The file `name` of the `tf` folder. The name begins with the separator.
pub open spec fn tf_path(settings: Json, name: Seq<char>) -> Seq<char> {
    settings.member("tf_folder"@).text()->0 + name
}

/// The script beside the demo `name`.
pub open spec fn script_beside(name: Seq<char>) -> Seq<char> {
    replaced(name, ".dem"@, ".vdm"@)
}

/// Whether an entry of the folder of the backups is a backup.
pub open spec fn is_backup_file(name: Seq<char>, is_file: bool) -> bool {
    is_file && finishes_with(name, ".txt"@)
}

/// The file `name` of the `tf` folder. The name begins with the separator.
pub fn path_in_tf(settings: &Json, name: &str) -> (r: String)
    requires
        settings.member("tf_folder"@).text() is Some,
    ensures
        r@ == tf_path(*settings, name@),
{
    match settings.get("tf_folder").as_str() {
        Some(folder) => folder.to_owned().concat(name),
        None => "".to_owned(),
    }
}

/// The script beside the demo `name` of the `tf` folder.
pub fn script_path_in_tf(settings: &Json, name: &str) -> (r: String)
    requires
        settings.member("tf_folder"@).text() is Some,
    ensures
        r@ == tf_path(*settings, script_beside(name@)),
{
    proof {
        reveal_strlit(".dem");
    }
    path_in_tf(settings, replace(name, ".dem", ".vdm").as_str())
}

/// Whether an entry of the folder of the backups is a backup.
pub fn is_backup(name: &str, is_file: bool) -> (r: bool)
    ensures
        r == is_backup_file(name@, is_file),
{
    is_file && ends_with(name, ".txt")
}

/// A file that may be a layer of a video.
#[derive(Debug)]
pub struct LayerFile {
    pub name: String,
    pub path: String,
    pub is_dir: bool,
}

/// A folder that may hold a video.
#[derive(Debug)]
pub struct VideoFolder {
    pub name: String,
    pub path: String,
    pub is_dir: bool,
    /// What its folder `take0000` holds, where that can be read.
    pub take: Option<Vec<LayerFile>>,
}

/// Whether the last part of `name`, from the last dot on, is that of a video.
pub open spec fn is_video_file(name: Seq<char>) -> bool {
    ||| name == "mp4"@ || finishes_with(name, ".mp4"@)
    ||| name == "avi"@ || finishes_with(name, ".avi"@)
    ||| name == "mkv"@ || finishes_with(name, ".mkv"@)
}

/// The layer that the file `name` is.
pub open spec fn layer_name(name: Seq<char>) -> Seq<char> {
    replaced(replaced(replaced(name, ".mp4"@, ""@), ".avi"@, ""@), ".mkv"@, ""@)
}

/// The layers among `files`, each with its path. Of two files for the same layer the later one
/// counts.
pub open spec fn layers(files: Seq<LayerFile>) -> Map<Seq<char>, Seq<char>>
    decreases files.len(),
{
    if files.len() == 0 {
        Map::empty()
    } else {
        let before = layers(files.drop_last());
        let file = files.last();
        if file.is_dir || !is_video_file(file.name@) {
            before
        } else {
            before.insert(layer_name(file.name@), file.path@)
        }
    }
}

/// Whether `members` are `layers`: they have those names, each once, and those texts.
pub open spec fn are_layers(
    members: Seq<(String, Json)>,
    layers: Map<Seq<char>, Seq<char>>,
) -> bool {
    &&& names(members).no_duplicates()
    &&& forall|name: Seq<char>|
        #![trigger layers.dom().contains(name)]
        names(members).contains(name) <==> layers.dom().contains(name)
    &&& forall|name: Seq<char>|
        #![trigger layers[name]]
        layers.dom().contains(name) ==> lookup(members, name).text() == Some(layers[name])
}

/// Whether the last part of `name`, from the last dot on, is that of a video.
fn names_a_video(name: &str) -> (r: bool)
    ensures
        r == is_video_file(name@),
{
    same(name, "mp4") || ends_with(name, ".mp4") || same(name, "avi") || ends_with(name, ".avi")
        || same(name, "mkv") || ends_with(name, ".mkv")
}

/// The layers among `files` as an object.
fn layers_of(files: &Vec<LayerFile>) -> (r: Vec<(String, Json)>)
    ensures
        are_layers(r@, layers(files@)),
{
    let mut r: Vec<(String, Json)> = Vec::new();
    let mut i: usize = 0;
    assert(names(r@) =~= seq![]);
    assert(files@.take(0).len() == 0);
    while i < files.len()
        invariant
            i <= files@.len(),
            are_layers(r@, layers(files@.take(i as int))),
        decreases files@.len() - i,
    {
        let file = &files[i];
        let ghost before = r@;
        let ghost known = layers(files@.take(i as int));
        assert(files@.take(i + 1).drop_last() =~= files@.take(i as int));
        if !file.is_dir && names_a_video(file.name.as_str()) {
            proof {
                reveal_strlit(".mp4");
                reveal_strlit(".avi");
                reveal_strlit(".mkv");
            }
            let name = replace(file.name.as_str(), ".mp4", "");
            let name = replace(name.as_str(), ".avi", "");
            let name = replace(name.as_str(), ".mkv", "");
            let ghost layer = name@;
            put(&mut r, name, Json::Text(file.path.clone()));
            proof {
                layer_is_put(before, r@, known, layer, file.path@);
            }
        }
        i += 1;
    }
    assert(files@.take(i as int) =~= files@);
    r
}

/// Setting a member sets the layer.
proof fn layer_is_put(
    before: Seq<(String, Json)>,
    after: Seq<(String, Json)>,
    known: Map<Seq<char>, Seq<char>>,
    layer: Seq<char>,
    path: Seq<char>,
)
    requires
        are_layers(before, known),
        lookup(after, layer).text() == Some(path),
        forall|other: Seq<char>|
            other != layer ==> #[trigger] lookup(after, other) == lookup(before, other),
        names(after) == if names(before).contains(layer) {
            names(before)
        } else {
            names(before).push(layer)
        },
    ensures
        are_layers(after, known.insert(layer, path)),
{
    let old_names = names(before);
    let new_names = names(after);
    let all = known.insert(layer, path);
    assert forall|name: Seq<char>|
        #![trigger all.dom().contains(name)]
        new_names.contains(name) <==> all.dom().contains(name) by {
        assert(old_names.contains(name) <==> known.dom().contains(name));
        if !old_names.contains(layer) {
            assert(old_names.push(layer).last() == layer);
            if old_names.contains(name) {
                let i = choose|i: int| 0 <= i < old_names.len() && old_names[i] == name;
                assert(new_names[i] == name);
            }
            if new_names.contains(name) {
                let i = choose|i: int| 0 <= i < new_names.len() && new_names[i] == name;
                if i < old_names.len() {
                    assert(old_names[i] == name);
                }
            }
        }
    }
    assert forall|name: Seq<char>|
        #![trigger all[name]]
        all.dom().contains(name) implies lookup(after, name).text() == Some(all[name]) by {
        if name != layer {
            assert(known.dom().contains(name));
            assert(known[name] == all[name]);
        }
    }
    assert(new_names.no_duplicates());
}

/// The folders that hold a video.
pub open spec fn video_folders(folders: Seq<VideoFolder>) -> Seq<VideoFolder>
    decreases folders.len(),
{
    if folders.len() == 0 {
        seq![]
    } else {
        let before = video_folders(folders.drop_last());
        if folders.last().is_dir && folders.last().take is Some {
            before.push(folders.last())
        } else {
            before
        }
    }
}

/// Whether `json` describes the video in `folder`: its name, its path and its layers.
pub open spec fn is_video(json: Json, folder: VideoFolder) -> bool {
    &&& json.keys() == seq!["layers"@, "name"@, "path"@]
    &&& json.member("name"@).text() == Some(folder.name@)
    &&& json.member("path"@).text() == Some(folder.path@)
    &&& json.member("layers"@) matches Json::Object(members) && are_layers(
        members@,
        layers(folder.take->0@),
    )
}

/// Describes the video in a folder.
fn video_of(name: &str, path: &str, take: &Vec<LayerFile>) -> (r: Json)
    ensures
        forall|folder: VideoFolder|
            folder.name@ == name@ && folder.path@ == path@ && folder.take == Some(*take)
                ==> #[trigger] is_video(r, folder),
{
    let mut members: Vec<(String, Json)> = Vec::new();
    members.push(("layers".to_owned(), Json::Object(layers_of(take))));
    members.push(("name".to_owned(), Json::Text(name.to_owned())));
    members.push(("path".to_owned(), Json::Text(path.to_owned())));
    proof {
        reveal_strlit("layers");
        reveal_strlit("name");
        reveal_strlit("path");
        assert("name"@[0] != "path"@[0]);
        crate::json::first_of_its_name(members@, 0);
        crate::json::first_of_its_name(members@, 1);
        crate::json::first_of_its_name(members@, 2);
        assert(names(members@) =~= seq!["layers"@, "name"@, "path"@]);
    }
    Json::Object(members)
}

/// The videos in the folders `folders`, or an object without members where the folder that holds
/// them is not there.
pub fn load_files(folders: &Option<Vec<VideoFolder>>) -> (r: Json)
    ensures
        match folders {
            None => r is Object && r.keys().len() == 0,
            Some(all) => {
                &&& r matches Json::List(videos)
                &&& videos@.len() == video_folders(all@).len()
                &&& forall|i: int|
                    0 <= i < videos@.len() ==> is_video(
                        #[trigger] videos@[i],
                        video_folders(all@)[i],
                    )
            },
        },
{
    let all = match folders {
        None => {
            return Json::Object(Vec::new());
        },
        Some(all) => all,
    };
    let mut videos: Vec<Json> = Vec::new();
    let mut i: usize = 0;
    assert(all@.take(0).len() == 0);
    while i < all.len()
        invariant
            i <= all@.len(),
            videos@.len() == video_folders(all@.take(i as int)).len(),
            forall|j: int|
                0 <= j < videos@.len() ==> is_video(
                    #[trigger] videos@[j],
                    video_folders(all@.take(i as int))[j],
                ),
        decreases all@.len() - i,
    {
        let folder = &all[i];
        assert(all@.take(i + 1).drop_last() =~= all@.take(i as int));
        if folder.is_dir {
            if let Some(take) = &folder.take {
                let video = video_of(folder.name.as_str(), folder.path.as_str(), take);
                assert(is_video(video, *folder));
                videos.push(video);
            }
        }
        i += 1;
    }
    assert(all@.take(i as int) =~= all@);
    Json::List(videos)
}

} // verus!
