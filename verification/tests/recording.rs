use melies::clip::Clip;
use melies::event::{Event, EventStyle};
use melies::grammar::captures;
use melies::grouping::{decide, is_decidable, mark_of, Fate, Grouping, Mark, Placement};
use melies::json::Json;
use melies::record::{add_clip_to_vdm, check_spec, clip_name_of, end_vdm, is_recordable, record_clip, start_vdm};
use melies::replies::recorded;
use melies::scripts::{
    are_recordable, export, is_endable, keeps_existing, location_of, scripts_for,
};
use vdm::action::Action;
use vdm::VDM;

fn text(s: &str) -> Json {
    Json::Text(s.to_string())
}

fn object(members: Vec<(&str, Json)>) -> Json {
    Json::Object(members.into_iter().map(|(k, v)| (k.to_string(), v)).collect())
}

fn clip(demo: &str, start: i64, end: i64) -> Clip {
    Clip {
        demo_name: demo.to_string(),
        start_tick: start,
        end_tick: end,
        has_killstreak: true,
        ks_value: 5,
        has_bookmark: false,
        bm_value: String::new(),
        spec_type: 0,
        spec_player: String::new(),
    }
}

fn settings(method: &str) -> Json {
    object(vec![
        ("tf_folder", text("C:\\tf")),
        ("absolute_file_paths", Json::Bool(false)),
        ("safe_mode", Json::Int(0)),
        (
            "output",
            object(vec![
                ("method", text(method)),
                ("framerate", Json::Number("59.94".to_string())),
                ("folder", text("D:\\clips")),
                ("snd_fix", Json::Bool(true)),
            ]),
        ),
        (
            "recording",
            object(vec![
                ("end_commands", text("stop")),
                ("start_delay", Json::Int(50)),
                ("record_continuous", Json::Int(1)),
                ("auto_suffix", Json::Bool(true)),
            ]),
        ),
    ])
}

fn summary(vdm: &VDM) -> Vec<(bool, String, Option<i64>, Option<i64>, String)> {
    vdm.actions
        .iter()
        .map(|action| {
            let props = action.props();
            let skips = matches!(action, Action::SkipAhead(_));
            (skips, props.name, props.start_tick, props.skip_to_tick, props.commands)
        })
        .collect()
}

fn play(name: &str, tick: i64, commands: &str) -> (bool, String, Option<i64>, Option<i64>, String) {
    (false, name.to_string(), Some(tick), None, commands.to_string())
}

fn skip(name: &str, tick: i64, to: i64) -> (bool, String, Option<i64>, Option<i64>, String) {
    (true, name.to_string(), Some(tick), Some(to), String::new())
}

fn unread(n: usize) -> Vec<Json> {
    (0..n).map(|_| Json::Null).collect()
}

fn start_commands(method: &str) -> String {
    let mut vdm = VDM::new();
    vdm.name = "d".to_string();
    record_clip(&mut vdm, &clip("d", 100, 200), &settings(method), &Json::Null);
    vdm.nth(1).props().commands
}

fn stop_commands(method: &str) -> String {
    let mut vdm = VDM::new();
    record_clip(&mut vdm, &clip("d", 100, 200), &settings(method), &Json::Null);
    vdm.nth(2).props().commands
}

fn event(what: &str, tick: i64) -> Event {
    Event {
        event: format!("line {}", tick),
        demo_name: "d".to_string(),
        tick,
        value: EventStyle::Bookmark(what.to_string()),
    }
}

#[test]
fn the_actions_of_a_recording() {
    let mut vdm = VDM::new();
    vdm.name = "match".to_string();
    record_clip(&mut vdm, &clip("match", 1000, 2000), &settings("h264"), &Json::Null);
    assert_eq!(
        summary(&vdm),
        vec![
            play("Exec Melies Commands", 967, "exec melies; snd_fix;"),
            play(
                "Start Recording",
                1000,
                "host_framerate 59.94; startmovie match_1000-2000_ks5 h264; clear"
            ),
            play("Stop Recording", 2000, "stop; endmovie; host_framerate 0;"),
        ]
    );
    assert_eq!(vdm.name, "match");
}

#[test]
fn the_commands_of_each_method() {
    assert_eq!(start_commands("jpeg"), "host_framerate 59.94; startmovie d_100-200_ks5 jpeg; clear");
    assert_eq!(start_commands("tga"), "host_framerate 59.94; startmovie d_100-200_ks5; clear");
    assert_eq!(start_commands("sparklyfx"), "sf_recorder_start D:\\clips\\d_100-200_ks5");
    assert_eq!(start_commands("svr"), "startmovie d_100-200_ks5.mkv");
    assert_eq!(start_commands("svr.mp4"), "startmovie d_100-200_ks5.mp4");
    assert_eq!(start_commands("svr.mov"), "startmovie d_100-200_ks5.mov");
    assert_eq!(start_commands("lawena"), "startrecording");
    assert_eq!(start_commands("other"), "");
    assert_eq!(stop_commands("svr.mov"), "stop; endmovie; host_framerate 0;");
    assert_eq!(stop_commands("sparklyfx"), "stop; sf_recorder_stop;");
    assert_eq!(stop_commands("lawena"), "stop; stoprecording;");
    assert_eq!(stop_commands("other"), "");
}

#[test]
fn sparklyfx_without_a_folder() {
    let settings = object(vec![
        ("output", object(vec![("method", text("sparklyfx")), ("folder", text(""))])),
        ("recording", object(vec![("end_commands", text(""))])),
    ]);
    let mut vdm = VDM::new();
    record_clip(&mut vdm, &clip("d", 100, 200), &settings, &Json::Null);
    assert_eq!(vdm.nth(0).props().commands, "exec melies;");
    assert_eq!(vdm.nth(1).props().commands, "sf_recorder_start; clear");
    assert_eq!(vdm.nth(2).props().commands, "; sf_recorder_stop;");
}

#[test]
fn the_name_of_a_video() {
    let output = object(vec![
        ("method", text("h264")),
        (
            "clip_name_template",
            text("{demo_name}/{start_tick}/{end_tick}/{suffix}/{recording_method}/{bookmarks}"),
        ),
    ]);
    let recording = object(vec![("auto_suffix", Json::Bool(true))]);
    let settings = object(vec![
        ("output", output),
        ("recording", recording),
        ("absolute_file_paths", Json::Bool(true)),
    ]);
    let mut marked = clip("", 1, 2);
    marked.has_bookmark = true;
    marked.bm_value = "clip_start  nice-spec shot clip_end".to_string();
    assert_eq!(
        clip_name_of("demos\\x", &marked, &settings),
        "x/1/2/bm5+/h264/nice-shot"
    );
    marked.has_killstreak = false;
    marked.bm_value = "General".to_string();
    assert_eq!(clip_name_of("x", &marked, &settings), "x/1/2/bm/h264/");
    marked.bm_value = "clip_startclip_end".to_string();
    assert_eq!(clip_name_of("x", &marked, &settings), "x/1/2/bm/h264/");
}

#[test]
fn no_bookmarks_in_the_name_without_the_switch() {
    let settings = object(vec![(
        "output",
        object(vec![("method", text("h264")), ("clip_name_template", text("a{bookmarks}b"))]),
    )]);
    let mut marked = clip("", 1, 2);
    marked.bm_value = "shot".to_string();
    assert_eq!(clip_name_of("demos\\x", &marked, &settings), "ab");
}

#[test]
fn the_view_of_another_player() {
    let mut watched = clip("d", 1, 2);
    let ce = object(vec![("recording", object(vec![("use_ce_spec", Json::Bool(true))]))]);
    assert_eq!(check_spec(&watched, "go".to_string(), &Json::Null), "go");
    watched.spec_type = 1;
    watched.spec_player = "7".to_string();
    assert_eq!(
        check_spec(&watched, "go".to_string(), &Json::Null),
        "go; spec_player 7; spec_mode 4;"
    );
    watched.spec_type = 2;
    assert_eq!(
        check_spec(&watched, "go".to_string(), &ce),
        "go; ce_cameratools_spec_steamid 7; spec_mode 5;"
    );
}

#[test]
fn the_skip_to_the_first_clip() {
    let mut vdm = VDM::new();
    start_vdm(&mut vdm, &clip("d", 117, 200), &settings("lawena"), &Json::Null);
    assert_eq!(summary(&vdm)[0], skip("Skip to first clip", 50, 51));
    assert_eq!(vdm.len(), 4);
    let mut vdm = VDM::new();
    start_vdm(&mut vdm, &clip("d", 116, 200), &settings("lawena"), &Json::Null);
    assert_eq!(vdm.len(), 3);
}

#[test]
fn the_skip_between_clips() {
    let mut vdm = VDM::new();
    start_vdm(&mut vdm, &clip("d", 100, 200), &settings("lawena"), &Json::Null);
    add_clip_to_vdm(&mut vdm, &clip("d", 501, 600), &settings("lawena"), &Json::Null);
    assert_eq!(summary(&vdm)[3], skip("Skip 301 ticks", 266, 435));
    assert_eq!(vdm.len(), 7);
    add_clip_to_vdm(&mut vdm, &clip("d", 900, 950), &settings("lawena"), &Json::Null);
    assert_eq!(vdm.len(), 10);
}

#[test]
fn no_clip_is_added_behind_an_action_without_a_tick() {
    let mut vdm = VDM::new();
    vdm.create_action(vdm::action::ActionType::PlayCommands);
    add_clip_to_vdm(&mut vdm, &clip("d", 501, 600), &settings("lawena"), &Json::Null);
    assert_eq!(vdm.len(), 1);
    assert_eq!(end_vdm(&mut vdm, &settings("lawena"), "").len(), 1);
}

#[test]
fn the_end_of_a_script() {
    let mut vdm = VDM::new();
    start_vdm(&mut vdm, &clip("d", 100, 200), &settings("lawena"), &Json::Null);
    let ended = end_vdm(&mut vdm.clone(), &settings("lawena"), "next");
    assert_eq!(
        summary(&ended)[3],
        play("Start the next demo (next.dem)", 266, "playdemo next;")
    );
    let ended = end_vdm(&mut vdm.clone(), &settings("lawena"), "");
    assert_eq!(summary(&ended)[3], play("Exit TF2", 266, "quit;"));
    let ended = end_vdm(&mut vdm, &Json::Null, "next");
    assert_eq!(summary(&ended)[3], play("Exit TF2", 266, "quit;"));
    assert_eq!(summary(&vdm), summary(&ended));
}

#[test]
fn one_script_for_each_run_of_clips() {
    let settings = settings("lawena");
    let clips = vec![
        clip("a", 100, 200),
        clip("a", 300, 400),
        clip("b", 100, 200),
        clip("a", 1000, 1100),
    ];
    let files = scripts_for(&clips, &settings, &unread(clips.len()));
    let names: Vec<&str> = files.iter().map(|f| f.name.as_str()).collect();
    assert_eq!(names, vec!["a", "b", "a"]);
    let lens: Vec<usize> = files.iter().map(|f| f.len()).collect();
    assert_eq!(lens, vec![6, 3, 4]);
    assert_eq!(files[0].nth(5).props().start_tick, Some(400));
}

#[test]
fn an_empty_script_without_clips() {
    let files = scripts_for(&vec![], &Json::Null, &vec![]);
    assert_eq!(files.len(), 1);
    assert_eq!(files[0].len(), 0);
    assert_eq!(files[0].name, "");
}

#[test]
fn scripts_lead_on() {
    let settings = settings("lawena");
    let clips = vec![clip("a", 100, 200), clip("b", 100, 200)];
    let files = scripts_for(&clips, &settings, &unread(clips.len()));
    let first = export(&files, 0, &settings);
    let last = export(&files, 1, &settings);
    assert_eq!(first.name, "a");
    assert_eq!(first.last().props().commands, "playdemo b;");
    assert_eq!(last.last().props().commands, "quit;");
    assert_eq!(files[0].len() + 1, first.len());
}

#[test]
fn the_safe_mode_keeps_a_file_that_is_there() {
    let safe = object(vec![("safe_mode", Json::Int(1))]);
    let as_switch = object(vec![("safe_mode", Json::Bool(true))]);
    assert!(keeps_existing(&safe, true));
    assert!(!keeps_existing(&safe, false));
    assert!(!keeps_existing(&as_switch, true));
    assert!(!keeps_existing(&Json::Null, true));
}

#[test]
fn where_a_script_is_written() {
    let mut vdm = VDM::new();
    vdm.name = "a".to_string();
    assert_eq!(location_of(&vdm, &settings("lawena")), "C:\\tf\\demos\\a.vdm");
    let absolute = object(vec![
        ("tf_folder", text("C:\\tf")),
        ("absolute_file_paths", Json::Bool(true)),
    ]);
    assert_eq!(location_of(&vdm, &absolute), "C:\\tf\\a.vdm");
}

#[test]
fn what_the_marks_ask_for() {
    assert_eq!(mark_of(true, true), Mark::Skip);
    assert_eq!(mark_of(true, false), Mark::Skip);
    assert_eq!(mark_of(false, true), Mark::WholeDemo);
    assert_eq!(mark_of(false, false), Mark::Plain);
}

#[test]
fn a_whole_demo() {
    let demo = object(vec![
        ("loaded", Json::Bool(true)),
        ("header", object(vec![("ticks", Json::Int(5000))])),
    ]);
    match decide(event("mls_rec_demo x", 7), Mark::WholeDemo, &demo, &settings("lawena")) {
        Fate::Whole { start, end } => {
            assert_eq!((start.tick, end.tick), (50, 4901));
            assert_eq!(start.event, "line 7");
            assert!(matches!(start.value, EventStyle::Bookmark(what) if what == "clip_start x"));
            assert!(matches!(end.value, EventStyle::Bookmark(what) if what == "clip_end"));
        }
        _ => panic!(),
    }
}

#[test]
fn a_demo_that_cannot_be_loaded() {
    let demo = object(vec![("loaded", Json::Bool(false))]);
    let fate = decide(event("mls_rec_demo", 7), Mark::WholeDemo, &demo, &Json::Null);
    assert!(matches!(fate, Fate::Skipped));
}

#[test]
fn only_a_bookmark_has_its_demo_recorded() {
    let demo = object(vec![("loaded", Json::Bool(true))]);
    let mut kills = event("", 7);
    kills.value = EventStyle::Killstreak(3);
    let fate = decide(kills, Mark::WholeDemo, &demo, &Json::Null);
    assert!(matches!(fate, Fate::Placed(e) if e.tick == 7));
}

#[test]
fn skipped_and_plain_events() {
    assert!(matches!(decide(event("", 7), Mark::Skip, &Json::Null, &Json::Null), Fate::Skipped));
    let fate = decide(event("", 7), Mark::Plain, &Json::Null, &Json::Null);
    assert!(matches!(fate, Fate::Placed(e) if e.tick == 7));
}

#[test]
fn clips_keep_the_events() {
    let mut grouping = Grouping::new();
    let whole = || Fate::Whole { start: event("s", 10), end: event("e", 11) };
    assert_eq!(grouping.place(Fate::Placed(event("", 1)), true), Placement::NewClip);
    assert_eq!(grouping.place(Fate::Placed(event("", 2)), true), Placement::LastClip);
    assert_eq!(grouping.place(Fate::Skipped, true), Placement::Nowhere);
    assert_eq!(grouping.place(Fate::Placed(event("", 3)), false), Placement::NewClip);
    assert_eq!(grouping.place(whole(), true), Placement::WholeDemo);
    assert_eq!(grouping.place(whole(), false), Placement::StartOfDemo);
    let ticks: Vec<Vec<i64>> =
        grouping.clips.iter().map(|clip| clip.iter().map(|e| e.tick).collect()).collect();
    assert_eq!(ticks, vec![vec![1, 2], vec![3], vec![10, 11], vec![10]]);
    assert_eq!(grouping.event_count, 6);
}

#[test]
fn what_a_recording_needs() {
    assert!(is_recordable(&settings("sparklyfx")));
    assert!(!is_recordable(&Json::Null));
    let bare = |method: &str| object(vec![("output", object(vec![("method", text(method))]))]);
    assert!(!is_recordable(&bare("tga")));
    assert!(is_recordable(&bare("other")));
    let without_folder = object(vec![
        ("output", object(vec![("method", text("sparklyfx"))])),
        ("recording", object(vec![("end_commands", text(""))])),
    ]);
    assert!(!is_recordable(&without_folder));
}

#[test]
fn what_scripts_need() {
    let settings = settings("lawena");
    assert!(are_recordable(&vec![], &settings));
    assert!(are_recordable(&vec![], &Json::Null));
    assert!(!are_recordable(&vec![clip("a", 0, 1)], &Json::Null));
    assert!(are_recordable(&vec![clip("a", 0, 1), clip("", 0, 1)], &settings));
    assert!(!are_recordable(&vec![clip("", 0, 1)], &settings));
    assert!(!are_recordable(&vec![clip("a", i64::MIN, 1)], &settings));
    assert!(!are_recordable(&vec![clip("a", 0, i64::MAX), clip("a", 0, 1)], &settings));
    assert!(are_recordable(&vec![clip("a", 0, i64::MAX), clip("b", 0, 1)], &settings));
    assert!(!are_recordable(&vec![clip("a", 0, -400), clip("a", i64::MAX, 1)], &settings));
}

#[test]
fn what_the_end_of_a_script_needs() {
    let clips = vec![clip("a", 0, i64::MAX), clip("b", 0, 1)];
    let files = scripts_for(&clips, &settings("lawena"), &unread(clips.len()));
    assert!(!is_endable(&files[0]));
    assert!(is_endable(&files[1]));
    assert!(!is_endable(&VDM::new()));
}

#[test]
fn what_decides_about_an_event() {
    let settings = settings("lawena");
    let demo = |ticks: i64| {
        object(vec![
            ("loaded", Json::Bool(true)),
            ("header", object(vec![("ticks", Json::Int(ticks))])),
        ])
    };
    let unloaded = object(vec![("loaded", Json::Bool(false))]);
    let marked = event("mls_rec_demo", 7);
    assert!(is_decidable(&marked, Mark::Plain, &Json::Null, &Json::Null));
    assert!(!is_decidable(&marked, Mark::WholeDemo, &Json::Null, &settings));
    assert!(is_decidable(&marked, Mark::WholeDemo, &unloaded, &Json::Null));
    assert!(is_decidable(&marked, Mark::WholeDemo, &demo(5000), &settings));
    assert!(!is_decidable(&marked, Mark::WholeDemo, &demo(5000), &Json::Null));
    assert!(!is_decidable(&marked, Mark::WholeDemo, &demo(i64::MIN), &settings));
}

#[test]
fn the_view_follows_the_settings_that_are_read_at_each_clip() {
    let ce = || object(vec![("recording", object(vec![("use_ce_spec", Json::Bool(true))]))]);
    let mut watched = vec![clip("a", 100, 200), clip("a", 300, 400)];
    for clip in &mut watched {
        clip.spec_type = 1;
        clip.spec_player = "7".to_string();
    }
    let files = scripts_for(&watched, &settings("lawena"), &vec![Json::Null, ce()]);
    assert_eq!(
        files[0].nth(1).props().commands,
        "startrecording; spec_player 7; spec_mode 4;"
    );
    assert_eq!(
        files[0].nth(4).props().commands,
        "startrecording; ce_cameratools_spec_steamid 7; spec_mode 4;"
    );
    let mut vdm = VDM::new();
    record_clip(&mut vdm, &watched[0], &settings("lawena"), &ce());
    assert_eq!(
        vdm.nth(1).props().commands,
        "startrecording; ce_cameratools_spec_steamid 7; spec_mode 4;"
    );
}

#[test]
fn skipped_events_leave_the_clips() {
    let mut with = Grouping::new();
    with.place(Fate::Skipped, true);
    with.place(Fate::Placed(event("", 1)), true);
    with.place(Fate::Skipped, false);
    with.place(Fate::Placed(event("", 2)), true);
    let mut without = Grouping::new();
    without.place(Fate::Placed(event("", 1)), true);
    without.place(Fate::Placed(event("", 2)), true);
    let ticks = |g: &Grouping| -> Vec<Vec<i64>> {
        g.clips.iter().map(|clip| clip.iter().map(|e| e.tick).collect()).collect()
    };
    assert_eq!(ticks(&with), ticks(&without));
    assert_eq!(with.event_count, without.event_count + 2);
}

#[test]
fn one_script_for_each_run() {
    let clips = vec![clip("a", 0, 1), clip("b", 0, 1), clip("b", 2, 3), clip("a", 0, 1)];
    assert_eq!(scripts_for(&clips, &settings("lawena"), &unread(4)).len(), 3);
}

#[test]
fn what_was_recorded() {
    let clips = vec![clip("a", 0, 1), clip("a", 2, 3), clip("b", 0, 1)];
    let scripts = scripts_for(&clips, &settings("lawena"), &unread(3));
    assert_eq!(
        recorded(&clips, 9, &scripts, "/b").display(),
        "{\"backup_location\":\"/b\",\"clips\":3,\"code\":200,\"events\":9,\"first_demo\":\"a\",\"vdms\":2}"
    );
}

fn grouped_ticks(text: &str) -> (Vec<Vec<i64>>, u64) {
    let mut grouping = Grouping::new();
    for line in captures(text) {
        let read = event(&line.value, line.tick.parse().unwrap());
        let mark = mark_of(line.value.contains("mls_skip"), false);
        let fits = read.tick % 2 == 0;
        grouping.place(decide(read, mark, &Json::Null, &Json::Null), fits);
    }
    let ticks =
        grouping.clips.iter().map(|clip| clip.iter().map(|e| e.tick).collect()).collect();
    (ticks, grouping.event_count)
}

#[test]
fn skipped_lines_leave_the_scripts() {
    let with = ">\n[t] a (\"d\" at 1)\n[t] mls_skip (\"d\" at 5)\n[t] b (\"d\" at 2)\n[t] mls_skip (\"d\" at 4)\n[t] c (\"d\" at 3)\n";
    let without = ">\n[t] a (\"d\" at 1)\n[t] b (\"d\" at 2)\n[t] c (\"d\" at 3)\n";
    let (clips, events) = grouped_ticks(with);
    let (clips_left, events_left) = grouped_ticks(without);
    assert_eq!(clips, clips_left);
    assert_eq!(clips, vec![vec![1, 2], vec![3]]);
    assert_eq!(events, events_left + 2);
}

#[test]
fn no_more_clips_than_events_and_no_more_scripts_than_clips() {
    let (clips, events) = grouped_ticks("[t] a (\"d\" at 1)\n[t] b (\"d\" at 2)\n");
    assert!(clips.len() as u64 <= events);
    let clips = vec![clip("a", 0, 1), clip("a", 2, 3)];
    let scripts = scripts_for(&clips, &settings("lawena"), &unread(2));
    assert!(!scripts.is_empty() && scripts.len() <= clips.len());
}
