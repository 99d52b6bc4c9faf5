use melies::file_name::{cleaned_name, renamed_to, sanitize_name};
use melies::files::{
    check_dir, events_folders, find_dir, is_backup, load_files, path_in_tf, script_path_in_tf,
    LayerFile, Listing, VideoFolder, NO_FOLDER,
};
use melies::json::{put, Json};
use melies::replies::{
    clear_events, configuration_reply, error_reply, events_reply, events_to_record, events_to_show,
    load_theme, recorded_reply, reload_backup, save_backup, saved_reply, Recorded,
};

fn text(s: &str) -> Json {
    Json::Text(s.to_string())
}

fn object(members: Vec<(&str, Json)>) -> Json {
    Json::Object(members.into_iter().map(|(k, v)| (k.to_string(), v)).collect())
}

fn listing(paths: &[&str]) -> Listing {
    Listing::Entries(paths.iter().map(|p| Ok(p.to_string())).collect())
}

fn settings() -> Json {
    object(vec![("tf_folder", text("C:\\tf"))])
}

fn layer(name: &str, is_dir: bool) -> LayerFile {
    LayerFile { name: name.to_string(), path: format!("p/{}", name), is_dir }
}

fn folder(name: &str, is_dir: bool, take: Option<Vec<LayerFile>>) -> VideoFolder {
    VideoFolder { name: name.to_string(), path: format!("v/{}", name), is_dir, take }
}

const LINE: &str = "[a] b (\"c\" at 1)";

#[test]
fn the_file_of_events_in_a_folder() {
    let both = listing(&["C:\\x.txt", "C:\\KillStreaks.txt", "C:\\_events.txt"]);
    assert_eq!(check_dir(&both).unwrap(), "C:\\KillStreaks.txt");
    assert_eq!(check_dir(&listing(&["C:/_events.txt"])).unwrap_err(), "File Not Found");
    assert_eq!(check_dir(&listing(&[])).unwrap_err(), "File Not Found");
    assert_eq!(check_dir(&Listing::Unreadable).unwrap_err(), NO_FOLDER);
}

#[test]
fn an_unreadable_entry() {
    let events = "C:\\_events.txt".to_string();
    let before = Listing::Entries(vec![Err("gone".to_string()), Ok(events.clone())]);
    let behind = Listing::Entries(vec![Ok(events.clone()), Err("gone".to_string())]);
    assert_eq!(check_dir(&before).unwrap_err(), "gone");
    assert_eq!(check_dir(&behind).unwrap(), events);
}

#[test]
fn the_folder_of_the_demos_comes_first() {
    let demos = listing(&["C:\\tf\\demos\\_events.txt"]);
    let tf = listing(&["C:\\tf\\KillStreaks.txt"]);
    assert_eq!(find_dir(&settings(), &demos, &tf).unwrap(), "C:\\tf\\demos\\_events.txt");
    let found = find_dir(&settings(), &Listing::Unreadable, &tf).unwrap();
    assert_eq!(found, "C:\\tf\\KillStreaks.txt");
}

#[test]
fn no_file_of_events() {
    let why = find_dir(&settings(), &listing(&[]), &Listing::Unreadable).unwrap_err();
    assert_eq!(why, "Could not find the _events.txt or KillStreaks.txt files.\nPlease check your settings to ensure the tf folder is correctly linked.\nIf you do not have either file, please make one in the 'tf' or 'tf/demos' folder. \n\ntf_folder setting: (C:\\tf)");
    let demos = listing(&["C:\\tf\\demos\\_events.txt"]);
    let why = find_dir(&Json::Null, &demos, &demos).unwrap_err();
    assert_eq!(why, "tf_folder setting not set");
}

#[test]
fn the_folders_of_the_events() {
    let both = events_folders(&settings()).unwrap();
    assert_eq!(both, ("C:\\tf\\demos".to_string(), "C:\\tf".to_string()));
    assert!(events_folders(&Json::Null).is_none());
}

#[test]
fn paths_in_the_folder() {
    assert_eq!(path_in_tf(&settings(), "\\demos\\a.dem"), "C:\\tf\\demos\\a.dem");
    assert_eq!(script_path_in_tf(&settings(), "\\demos\\a.dem"), "C:\\tf\\demos\\a.vdm");
    assert_eq!(script_path_in_tf(&settings(), "\\a"), "C:\\tf\\a");
}

#[test]
fn backups_are_text_files() {
    assert!(is_backup("a.txt", true));
    assert!(!is_backup("a.txt", false));
    assert!(!is_backup("2024-01-31_20-15-59", true));
}

#[test]
fn no_videos_without_a_folder() {
    assert_eq!(load_files(&None).display(), "{}");
    assert_eq!(load_files(&Some(vec![])).display(), "[]");
}

#[test]
fn videos_and_their_layers() {
    let take = vec![
        layer("world.mp4", false),
        layer("depth.avi", false),
        layer("old.mkv", true),
        layer("notes.txt", false),
        layer("world.mkv", false),
        layer("mp4", false),
        layer("a.mp4.avi", false),
    ];
    let videos = load_files(&Some(vec![
        folder("file", false, Some(vec![])),
        folder("one", true, Some(take)),
        folder("unread", true, None),
        folder("two", true, Some(vec![])),
    ]));
    assert_eq!(
        videos.display(),
        "[{\"layers\":{\"world\":\"p/world.mkv\",\"depth\":\"p/depth.avi\",\"mp4\":\"p/mp4\",\"a\":\"p/a.mp4.avi\"},\"name\":\"one\",\"path\":\"v/one\"},{\"layers\":{},\"name\":\"two\",\"path\":\"v/two\"}]"
    );
}

#[test]
fn setting_a_member() {
    let mut members = vec![("a".to_string(), Json::Int(1)), ("b".to_string(), Json::Int(2))];
    put(&mut members, "a".to_string(), Json::Int(3));
    put(&mut members, "c".to_string(), Json::Int(4));
    assert_eq!(Json::Object(members).display(), "{\"a\":3,\"b\":2,\"c\":4}");
}

#[test]
fn illegal_characters_are_taken_out() {
    assert_eq!(cleaned_name("a/b?c<d>e\\f:g*h|i\"j"), "abcdefghij");
    assert_eq!(cleaned_name("x\u{0}\u{1f}\u{80}\u{9f}y"), "xy");
    assert_eq!(cleaned_name("..."), "");
    assert_eq!(cleaned_name("*.|."), "");
}

#[test]
fn a_legal_name_stays() {
    assert_eq!(cleaned_name("résumé (1).dem"), "résumé (1).dem");
    assert_eq!(cleaned_name(""), "");
}

#[test]
fn a_long_name_is_cut() {
    assert_eq!(cleaned_name(&"a".repeat(300)), "a".repeat(255));
    assert_eq!(cleaned_name(&"é".repeat(200)), "é".repeat(127));
}

#[test]
fn a_renamed_file_keeps_its_folder_and_extension() {
    let renamed = |name: &str| sanitize_name("demos/", name);
    assert_eq!(renamed("what?.dem").unwrap(), "demos/what.dem");
    assert_eq!(renamed("plain.dem").unwrap(), "demos/plain.dem");
    assert_eq!(renamed("a?b").unwrap(), "demos/ab");
    assert_eq!(renamed("a.b?c").unwrap(), "demos/a.b?c");
    assert_eq!(renamed("?.txt").unwrap(), "demos/.txt.txt");
    assert_eq!(renamed("a.b.c*").unwrap(), "demos/a.b.c*");
    assert_eq!(sanitize_name("", "x:y.vdm").unwrap(), "xy.vdm");
    assert!(renamed("???").is_none());
}

#[test]
fn the_extension_of_a_cleaned_name() {
    assert_eq!(renamed_to("f/", "ab", "a?b").unwrap(), "f/ab");
    assert_eq!(renamed_to("f/", "foo.", "foo.").unwrap(), "f/foo");
    assert_eq!(renamed_to("f/", "foo", "foo.d").unwrap(), "f/foo.d");
    assert_eq!(renamed_to("f/", ".x", ".x").unwrap(), "f/.x");
    assert!(renamed_to("f/", "", "con.txt").is_none());
}

#[test]
fn an_error() {
    assert_eq!(error_reply(500, "why").display(), "{\"code\":500,\"err_text\":\"why\"}");
}

#[test]
fn events_to_record_or_what_is_wrong() {
    let found = Ok("C:\\_events.txt".to_string());
    let lost: Result<String, String> = Err("lost".to_string());
    let reply = events_to_record(&lost, Some(LINE)).unwrap_err();
    assert_eq!(reply.display(), "{\"code\":404,\"err_text\":\"lost\"}");
    let reply = events_to_record(&found, None).unwrap_err();
    assert_eq!(reply.get("code").as_i64(), Some(404));
    assert_eq!(reply.get("err_text").as_str(), Some("Failed to read _events.txt or KillStreaks.txt\nPlease check your settings to ensure the tf folder is correctly linked."));
    let reply = events_to_record(&found, Some(">\n")).unwrap_err();
    assert_eq!(reply.get("code").as_i64(), Some(410));
    assert_eq!(reply.get("err_text").as_str(), Some("_events.txt or KillStreaks.txt was found but had no valid events. Please add events before running again.\n\nFile Location: C:\\_events.txt"));
    let events = events_to_record(&found, Some(LINE)).unwrap();
    assert_eq!(events.len(), 1);
    assert_eq!(events[0].demo_name, "c");
}

#[test]
fn events_to_show_or_what_is_wrong() {
    let found = Ok("C:\\_events.txt".to_string());
    let lost: Result<String, String> = Err("lost".to_string());
    let reply = events_to_show(&lost, &Ok(LINE.to_string())).unwrap_err();
    assert_eq!(reply.display(), "{\"code\":404,\"err_text\":\"lost\"}");
    let reply = events_to_show(&found, &Err("no".to_string())).unwrap_err();
    assert_eq!(reply.display(), "{\"code\":400,\"err_text\":\"no\"}");
    assert!(events_to_show(&found, &Ok(">".to_string())).unwrap().is_empty());
    assert_eq!(events_to_show(&found, &Ok(LINE.to_string())).unwrap()[0].whole, LINE);
}

#[test]
fn replies_of_success() {
    let found = Ok("f".to_string());
    let lost: Result<String, String> = Err("lost".to_string());
    assert_eq!(events_reply(vec![Json::Int(1)]).display(), "{\"code\":200,\"events\":[1]}");
    assert_eq!(clear_events(&found).display(), "{\"code\":200,\"events\":[]}");
    assert_eq!(saved_reply(&found, vec![]).display(), "{\"code\":200,\"events\":[]}");
    let reply = saved_reply(&lost, vec![Json::Int(1)]);
    assert_eq!(reply.display(), "{\"code\":404,\"err_text\":\"lost\"}");
    assert!(configuration_reply(&Ok(())).is_none());
    let reply = configuration_reply(&Err("full".to_string())).unwrap();
    assert_eq!(reply.display(), "{\"code\":500,\"err_text\":\"full\"}");
    assert_eq!(clear_events(&lost).get("code").as_i64(), Some(404));
    assert_eq!(save_backup(&found, "/b").display(), "{\"code\":200,\"output_path\":\"/b\"}");
    assert_eq!(save_backup(&lost, "/b").get("err_text").as_str(), Some("lost"));
    let recorded = Recorded {
        clips: 3,
        events: 5,
        vdms: 2,
        backup_location: "/b".to_string(),
        first_demo: "a".to_string(),
    };
    assert_eq!(
        recorded_reply(&recorded).display(),
        "{\"backup_location\":\"/b\",\"clips\":3,\"code\":200,\"events\":5,\"first_demo\":\"a\",\"vdms\":2}"
    );
}

#[test]
fn a_reloaded_backup() {
    assert_eq!(reload_backup(true, true, true).unwrap(), "Successfully loaded backup.");
    assert_eq!(reload_backup(true, true, false).unwrap_err(), "Failed to reload backup.");
    assert_eq!(reload_backup(true, false, false).unwrap_err(), "Failed to find backup file.");
    assert_eq!(reload_backup(false, true, true).unwrap_err(), "Failed to reload backup.");
}

#[test]
fn the_theme() {
    assert_eq!(load_theme(None).display(), "{\"has_theme\":false}");
    assert_eq!(load_theme(Some(Json::Null)).display(), "{\"has_theme\":true}");
    let theme = object(vec![("has_theme", Json::Int(0)), ("color", text("red"))]);
    assert_eq!(load_theme(Some(theme)).display(), "{\"has_theme\":true,\"color\":\"red\"}");
}

#[test]
fn the_theme_has_no_further_members() {
    let theme = object(vec![("color", text("red"))]);
    assert_eq!(load_theme(Some(theme)).display(), "{\"color\":\"red\",\"has_theme\":true}");
}
