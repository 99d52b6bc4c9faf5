//! The actions that record clips.

use crate::clip::Clip;
use crate::json::Json;
use crate::script::{
    actions, copy_of, last_start_tick, name_of, push_action, script_name, ActionKind, ActionProps,
    ActionView,
};
use crate::settings::{on, setting, setting_as_bool};
use crate::text::{decimal, decimal_of, replace, replaced, same, trim, trimmed};
use vstd::prelude::*;

verus! {

/// The recording method of the settings.
pub open spec fn method(settings: Json) -> Option<Seq<char>> {
    setting(settings, "output"@, "method"@).text()
}

/// Whether the game itself writes the video with `startmovie`.
pub open spec fn is_movie(method: Seq<char>) -> bool {
    ||| method == "h264"@
    ||| method == "jpeg"@
    ||| method == "tga"@
    ||| method == "svr"@
    ||| method == "svr.mp4"@
    ||| method == "svr.mov"@
}

/// Whether the settings hold what a recording needs: the method is given, with a method that
/// stops a recording also the commands that end it, and with `sparklyfx` also the folder.
pub open spec fn recordable(settings: Json) -> bool {
    &&& method(settings) matches Some(m)
    &&& is_movie(m) || m == "sparklyfx"@ || m == "lawena"@ ==> setting(
        settings,
        "recording"@,
        "end_commands"@,
    ).text() is Some
    &&& m == "sparklyfx"@ ==> setting(settings, "output"@, "folder"@).text() is Some
}

/// Whether the settings hold what a recording needs.
pub fn is_recordable(settings: &Json) -> (r: bool)
    ensures
        r == recordable(*settings),
{
    let output = settings.get("output");
    let m = match output.get("method").as_str() {
        Some(m) => m,
        None => {
            return false;
        },
    };
    let sparklyfx = same(m, "sparklyfx");
    let stops = same(m, "h264") || same(m, "jpeg") || same(m, "tga") || same(m, "svr") || same(
        m,
        "svr.mp4",
    ) || same(m, "svr.mov") || sparklyfx || same(m, "lawena");
    (!stops || settings.get("recording").get("end_commands").as_str().is_some()) && (!sparklyfx
        || output.get("folder").as_str().is_some())
}

/// How the name of a video tells what it shows.
pub open spec fn suffix(clip: Clip) -> Seq<char> {
    if !clip.has_killstreak {
        "bm"@
    } else if clip.has_bookmark {
        "bm"@ + decimal(clip.ks_value as int) + "+"@
    } else {
        "ks"@ + decimal(clip.ks_value as int)
    }
}

/// The name of the demo in the name of a video.
pub open spec fn shown_demo(name: Seq<char>, settings: Json) -> Seq<char> {
    if settings.member("absolute_file_paths"@).truth() == Some(true) {
        replaced(name, "demos\\"@, ""@)
    } else {
        name
    }
}

/// The template for the names of videos: that of the settings, or the demo, the ticks and the
/// suffix.
pub open spec fn template(demo: Seq<char>, clip: Clip, settings: Json) -> Seq<char> {
    match setting(settings, "output"@, "clip_name_template"@).text() {
        Some(t) => t,
        None => demo + "_"@ + decimal(clip.start_tick as int) + "-"@ + decimal(
            clip.end_tick as int,
        ) + "_"@ + suffix(clip),
    }
}

/// The bookmarks of a clip without the marks that only bound it.
pub open spec fn own_bookmarks(clip: Clip) -> Seq<char> {
    replaced(replaced(clip.bm_value@, "clip_start"@, ""@), "clip_end"@, ""@)
}

/// The bookmarks in the name of a video.
pub open spec fn shown_bookmarks(clip: Clip, settings: Json) -> Seq<char> {
    let bookmarks = own_bookmarks(clip);
    if bookmarks != ""@ && on(setting(settings, "recording"@, "auto_suffix"@)) && bookmarks
        != "General"@ {
        replaced(trimmed(replaced(bookmarks, "-spec"@, ""@)), " "@, "-"@)
    } else {
        ""@
    }
}

/// The name of the video of `clip` in the demo `name`.
pub open spec fn clip_name(name: Seq<char>, clip: Clip, settings: Json) -> Seq<char> {
    let demo = shown_demo(name, settings);
    let t = template(demo, clip, settings);
    let t = replaced(t, "{demo_name}"@, demo);
    let t = replaced(t, "{start_tick}"@, decimal(clip.start_tick as int));
    let t = replaced(t, "{end_tick}"@, decimal(clip.end_tick as int));
    let t = replaced(t, "{suffix}"@, suffix(clip));
    let t = replaced(t, "{recording_method}"@, method(settings)->0);
    replaced(t, "{bookmarks}"@, shown_bookmarks(clip, settings))
}

/// The commands that start the video `name`.
pub open spec fn start_commands(name: Seq<char>, settings: Json) -> Seq<char> {
    let m = method(settings)->0;
    let framerate = setting(settings, "output"@, "framerate"@).shown();
    let folder = setting(settings, "output"@, "folder"@).text()->0;
    if m == "h264"@ || m == "jpeg"@ {
        "host_framerate "@ + framerate + "; startmovie "@ + name + " "@ + m + "; clear"@
    } else if m == "tga"@ {
        "host_framerate "@ + framerate + "; startmovie "@ + name + "; clear"@
    } else if m == "sparklyfx"@ {
        if folder.len() > 0 {
            "sf_recorder_start "@ + folder + "\\"@ + name
        } else {
            "sf_recorder_start; clear"@
        }
    } else if m == "svr"@ {
        "startmovie "@ + name + ".mkv"@
    } else if m == "svr.mp4"@ {
        "startmovie "@ + name + ".mp4"@
    } else if m == "svr.mov"@ {
        "startmovie "@ + name + ".mov"@
    } else if m == "lawena"@ {
        "startrecording"@
    } else {
        ""@
    }
}

/// The commands that stop a video.
pub open spec fn stop_commands(settings: Json) -> Seq<char> {
    let m = method(settings)->0;
    let end_commands = setting(settings, "recording"@, "end_commands"@).text()->0;
    if is_movie(m) {
        end_commands + "; endmovie; host_framerate 0;"@
    } else if m == "sparklyfx"@ {
        end_commands + "; sf_recorder_stop;"@
    } else if m == "lawena"@ {
        end_commands + "; stoprecording;"@
    } else {
        ""@
    }
}

/// `commands`, followed by those that bring the view to the player whom the clip watches.
pub open spec fn with_view(clip: Clip, commands: Seq<char>, settings: Json) -> Seq<char> {
    if clip.spec_type == 0 {
        commands
    } else {
        commands + "; "@ + (if setting(settings, "recording"@, "use_ce_spec"@).truth() == Some(true) {
            "ce_cameratools_spec_steamid"@
        } else {
            "spec_player"@
        }) + " "@ + clip.spec_player@ + "; spec_mode "@ + (if clip.spec_type == 1 {
            "4"@
        } else {
            "5"@
        }) + ";"@
    }
}

/// The action that executes the configuration, half a second before the recording.
pub open spec fn exec_action(clip: Clip, settings: Json) -> ActionView {
    ActionView {
        kind: Some(ActionKind::PlayCommands),
        name: "Exec Melies Commands"@,
        start_tick: Some((clip.start_tick - 33) as i64),
        skip_to_tick: None,
        commands: if on(setting(settings, "output"@, "snd_fix"@)) {
            "exec melies; snd_fix;"@
        } else {
            "exec melies;"@
        },
    }
}

/// The action that starts the recording of `clip` in the demo `name`. How the view is brought to a
/// player is taken from `loaded`, the settings as they are read at that moment.
pub open spec fn start_action(
    name: Seq<char>,
    clip: Clip,
    settings: Json,
    loaded: Json,
) -> ActionView {
    ActionView {
        kind: Some(ActionKind::PlayCommands),
        name: "Start Recording"@,
        start_tick: Some(clip.start_tick),
        skip_to_tick: None,
        commands: with_view(
            clip,
            start_commands(clip_name(name, clip, settings), settings),
            loaded,
        ),
    }
}

/// The action that stops the recording of `clip`.
pub open spec fn stop_action(clip: Clip, settings: Json) -> ActionView {
    ActionView {
        kind: Some(ActionKind::PlayCommands),
        name: "Stop Recording"@,
        start_tick: Some(clip.end_tick),
        skip_to_tick: None,
        commands: stop_commands(settings),
    }
}

/// The actions that record `clip` in the demo `name`.
pub open spec fn recording(name: Seq<char>, clip: Clip, settings: Json, loaded: Json) -> Seq<
    ActionView,
> {
    seq![
        exec_action(clip, settings),
        start_action(name, clip, settings, loaded),
        stop_action(clip, settings),
    ]
}

/// `commands`, followed by those that bring the view to the player whom the clip watches. `settings`
/// are the settings as they are read at that moment.
pub fn check_spec(clip: &Clip, commands: String, settings: &Json) -> (r: String)
    ensures
        r@ == with_view(*clip, commands@, *settings),
{
    if clip.spec_type == 0 {
        return commands;
    }
    let use_ce_spec: bool = match settings.get("recording").get("use_ce_spec").as_bool() {
        Some(val) => val,
        None => false,
    };
    let mut r = commands;
    r.append("; ");
    if use_ce_spec {
        r.append("ce_cameratools_spec_steamid");
    } else {
        r.append("spec_player");
    }
    r.append(" ");
    r.append(clip.spec_player.as_str());
    r.append("; spec_mode ");
    if clip.spec_type == 1 {
        r.append("4");
    } else {
        r.append("5");
    }
    r.append(";");
    r
}

/// How the name of a video tells what it shows.
fn suffix_of(clip: &Clip) -> (r: String)
    ensures
        r@ == suffix(*clip),
{
    if !clip.has_killstreak {
        return "bm".to_owned();
    }
    let kills = decimal_of(clip.ks_value);
    if clip.has_bookmark {
        "bm".to_owned().concat(kills.as_str()).concat("+")
    } else {
        "ks".to_owned().concat(kills.as_str())
    }
}

/// The name of the video of `clip` in the demo `name`.
pub fn clip_name_of(name: &str, clip: &Clip, settings: &Json) -> (r: String)
    requires
        method(*settings) is Some,
    ensures
        r@ == clip_name(name@, *clip, *settings),
{
    proof {
        reveal_strlit("demos\\");
        reveal_strlit("clip_start");
        reveal_strlit("clip_end");
        reveal_strlit("-spec");
        reveal_strlit(" ");
        reveal_strlit("{demo_name}");
        reveal_strlit("{start_tick}");
        reveal_strlit("{end_tick}");
        reveal_strlit("{suffix}");
        reveal_strlit("{recording_method}");
        reveal_strlit("{bookmarks}");
    }
    let demo = match settings.get("absolute_file_paths").as_bool() {
        Some(true) => replace(name, "demos\\", ""),
        _ => name.to_owned(),
    };
    let output = settings.get("output");
    let suffix = suffix_of(clip);
    let start_tick = decimal_of(clip.start_tick);
    let end_tick = decimal_of(clip.end_tick);
    let t = match output.get("clip_name_template").as_str() {
        Some(t) => t.to_owned(),
        None => demo.clone().concat("_").concat(start_tick.as_str()).concat("-").concat(
            end_tick.as_str(),
        ).concat("_").concat(suffix.as_str()),
    };
    let method = match output.get("method").as_str() {
        Some(m) => m,
        None => "",
    };
    let t = replace(t.as_str(), "{demo_name}", demo.as_str());
    let t = replace(t.as_str(), "{start_tick}", start_tick.as_str());
    let t = replace(t.as_str(), "{end_tick}", end_tick.as_str());
    let t = replace(t.as_str(), "{suffix}", suffix.as_str());
    let t = replace(t.as_str(), "{recording_method}", method);
    let bm_value = replace(clip.bm_value.as_str(), "clip_start", "");
    let bm_value = replace(bm_value.as_str(), "clip_end", "");
    if !same(bm_value.as_str(), "") && setting_as_bool(settings.get("recording").get("auto_suffix"))
        && !same(bm_value.as_str(), "General") {
        let plain = replace(bm_value.as_str(), "-spec", "");
        let plain = trim(plain.as_str());
        let plain = replace(plain.as_str(), " ", "-");
        replace(t.as_str(), "{bookmarks}", plain.as_str())
    } else {
        replace(t.as_str(), "{bookmarks}", "")
    }
}

/// The commands that start the video `name`.
fn start_commands_of(name: &str, settings: &Json) -> (r: String)
    requires
        recordable(*settings),
    ensures
        r@ == start_commands(name@, *settings),
{
    let output = settings.get("output");
    let m = match output.get("method").as_str() {
        Some(m) => m,
        None => "",
    };
    if same(m, "h264") || same(m, "jpeg") {
        "host_framerate ".to_owned().concat(output.get("framerate").display().as_str()).concat(
            "; startmovie ",
        ).concat(name).concat(" ").concat(m).concat("; clear")
    } else if same(m, "tga") {
        "host_framerate ".to_owned().concat(output.get("framerate").display().as_str()).concat(
            "; startmovie ",
        ).concat(name).concat("; clear")
    } else if same(m, "sparklyfx") {
        let folder = match output.get("folder").as_str() {
            Some(f) => f,
            None => "",
        };
        if !folder.is_empty() {
            "sf_recorder_start ".to_owned().concat(folder).concat("\\").concat(name)
        } else {
            "sf_recorder_start; clear".to_owned()
        }
    } else if same(m, "svr") {
        "startmovie ".to_owned().concat(name).concat(".mkv")
    } else if same(m, "svr.mp4") {
        "startmovie ".to_owned().concat(name).concat(".mp4")
    } else if same(m, "svr.mov") {
        "startmovie ".to_owned().concat(name).concat(".mov")
    } else if same(m, "lawena") {
        "startrecording".to_owned()
    } else {
        "".to_owned()
    }
}

/// The commands that stop a video.
fn stop_commands_of(settings: &Json) -> (r: String)
    requires
        recordable(*settings),
    ensures
        r@ == stop_commands(*settings),
{
    let m = match settings.get("output").get("method").as_str() {
        Some(m) => m,
        None => "",
    };
    let end_commands = match settings.get("recording").get("end_commands").as_str() {
        Some(c) => c,
        None => "",
    };
    if same(m, "h264") || same(m, "jpeg") || same(m, "tga") || same(m, "svr") || same(m, "svr.mp4")
        || same(m, "svr.mov") {
        end_commands.to_owned().concat("; endmovie; host_framerate 0;")
    } else if same(m, "sparklyfx") {
        end_commands.to_owned().concat("; sf_recorder_stop;")
    } else if same(m, "lawena") {
        end_commands.to_owned().concat("; stoprecording;")
    } else {
        "".to_owned()
    }
}

/// Appends the actions that record `clip`. `loaded` are the settings as they are read at that
/// moment.
pub fn record_clip(script: &mut vdm::VDM, clip: &Clip, settings: &Json, loaded: &Json)
    requires
        recordable(*settings),
        clip.start_tick - 33 >= i64::MIN,
    ensures
        actions(*final(script)) == actions(*old(script)) + recording(
            script_name(*old(script)),
            *clip,
            *settings,
            *loaded,
        ),
        script_name(*final(script)) == script_name(*old(script)),
{
    let name = name_of(script);
    let snd_fix = setting_as_bool(settings.get("output").get("snd_fix"));
    push_action(
        script,
        ActionKind::PlayCommands,
        ActionProps {
            name: "Exec Melies Commands".to_owned(),
            start_tick: Some(clip.start_tick - 33),
            skip_to_tick: None,
            commands: if snd_fix {
                "exec melies; snd_fix;".to_owned()
            } else {
                "exec melies;".to_owned()
            },
        },
    );
    let video = clip_name_of(name.as_str(), clip, settings);
    let commands = check_spec(clip, start_commands_of(video.as_str(), settings), loaded);
    push_action(
        script,
        ActionKind::PlayCommands,
        ActionProps {
            name: "Start Recording".to_owned(),
            start_tick: Some(clip.start_tick),
            skip_to_tick: None,
            commands,
        },
    );
    push_action(
        script,
        ActionKind::PlayCommands,
        ActionProps {
            name: "Stop Recording".to_owned(),
            start_tick: Some(clip.end_tick),
            skip_to_tick: None,
            commands: stop_commands_of(settings),
        },
    );
    assert(actions(*script) =~= actions(*old(script)) + recording(
        script_name(*old(script)),
        *clip,
        *settings,
        *loaded,
    ));
}

/// The skip from the start of a demo to its first clip: none where the clip starts less than a
/// second after the delay of the settings, or where they give no delay.
pub open spec fn skip_to_first(clip: Clip, settings: Json) -> Seq<ActionView> {
    match setting(settings, "recording"@, "start_delay"@).integer() {
        Some(delay) if clip.start_tick > delay + 66 => seq![
            ActionView {
                kind: Some(ActionKind::SkipAhead),
                name: "Skip to first clip"@,
                start_tick: Some(delay),
                skip_to_tick: if clip.start_tick - 66 >= i64::MIN {
                    Some((clip.start_tick - 66) as i64)
                } else {
                    None
                },
                commands: ""@,
            },
        ],
        _ => seq![],
    }
}

/// The skip from the tick `last` to the next clip: none where that is at most 300 ticks away.
pub open spec fn skip_between(last: i64, clip: Clip) -> Seq<ActionView> {
    if clip.start_tick > last + 300 {
        seq![
            ActionView {
                kind: Some(ActionKind::SkipAhead),
                name: "Skip "@ + decimal(clip.start_tick - last) + " ticks"@,
                start_tick: Some((last + 66) as i64),
                skip_to_tick: Some((clip.start_tick - 66) as i64),
                commands: ""@,
            },
        ]
    } else {
        seq![]
    }
}

/// Whether the ticks that `start_vdm` computes fit in `i64`.
pub open spec fn can_start(clip: Clip, settings: Json) -> bool {
    &&& clip.start_tick - 33 >= i64::MIN
    &&& setting(settings, "recording"@, "start_delay"@).integer() matches Some(delay) ==> delay + 66
        <= i64::MAX
}

/// Whether the ticks that `add_clip_to_vdm` computes fit in `i64`, with the last action at the
/// tick `last`.
pub open spec fn can_follow(last: i64, clip: Clip) -> bool {
    &&& clip.start_tick - 33 >= i64::MIN
    &&& last + 300 <= i64::MAX
    &&& clip.start_tick > last + 300 ==> clip.start_tick - last <= i64::MAX
}

/// Appends the actions that reach and record the first clip of a demo. `loaded` are the settings as
/// they are read at that moment.
pub fn start_vdm(script: &mut vdm::VDM, clip: &Clip, settings: &Json, loaded: &Json)
    requires
        recordable(*settings),
        can_start(*clip, *settings),
    ensures
        actions(*final(script)) == actions(*old(script)) + skip_to_first(*clip, *settings)
            + recording(script_name(*old(script)), *clip, *settings, *loaded),
        script_name(*final(script)) == script_name(*old(script)),
{
    if let Some(start_delay) = settings.get("recording").get("start_delay").as_i64() {
        if clip.start_tick > start_delay + 66 {
            push_action(
                script,
                ActionKind::SkipAhead,
                ActionProps {
                    name: "Skip to first clip".to_owned(),
                    start_tick: Some(start_delay),
                    skip_to_tick: clip.start_tick.checked_sub(66),
                    commands: "".to_owned(),
                },
            );
        }
    }
    assert(actions(*script) =~= actions(*old(script)) + skip_to_first(*clip, *settings));
    record_clip(script, clip, settings, loaded);
}

/// Appends the actions that reach and record a further clip of a demo. A script whose last action
/// has no start tick stays as it is. `loaded` are the settings as they are read at that moment.
pub fn add_clip_to_vdm(script: &mut vdm::VDM, clip: &Clip, settings: &Json, loaded: &Json)
    requires
        recordable(*settings),
        actions(*old(script)).len() > 0,
        actions(*old(script)).last().start_tick matches Some(last) ==> can_follow(last, *clip),
    ensures
        actions(*final(script)) == match actions(*old(script)).last().start_tick {
            Some(last) => actions(*old(script)) + skip_between(last, *clip) + recording(
                script_name(*old(script)),
                *clip,
                *settings,
                *loaded,
            ),
            None => actions(*old(script)),
        },
        script_name(*final(script)) == script_name(*old(script)),
{
    let last_tick: i64 = match last_start_tick(script) {
        Some(tick) => tick,
        None => {
            return ;
        },
    };
    if clip.start_tick > last_tick + 300 {
        push_action(
            script,
            ActionKind::SkipAhead,
            ActionProps {
                name: "Skip ".to_owned().concat(
                    decimal_of(clip.start_tick - last_tick).as_str(),
                ).concat(" ticks"),
                start_tick: Some(last_tick + 66),
                skip_to_tick: Some(clip.start_tick - 66),
                commands: "".to_owned(),
            },
        );
    }
    assert(actions(*script) =~= actions(*old(script)) + skip_between(last_tick, *clip));
    record_clip(script, clip, settings, loaded);
}

/// The action a second after the last one: it plays the demo `next`, where there is one and the
/// settings ask to go on, or leaves the game.
pub open spec fn end_action(last: i64, settings: Json, next: Seq<char>) -> ActionView {
    let goes_on = on(setting(settings, "recording"@, "record_continuous"@)) && next != ""@;
    ActionView {
        kind: Some(ActionKind::PlayCommands),
        name: if goes_on {
            "Start the next demo ("@ + next + ".dem)"@
        } else {
            "Exit TF2"@
        },
        start_tick: Some((last + 66) as i64),
        skip_to_tick: None,
        commands: if goes_on {
            "playdemo "@ + next + ";"@
        } else {
            "quit;"@
        },
    }
}

/// The actions of a script with the actions `script`, once it is ended.
pub open spec fn ended(script: Seq<ActionView>, settings: Json, next: Seq<char>) -> Seq<ActionView> {
    match script.last().start_tick {
        Some(last) => script.push(end_action(last, settings, next)),
        None => script,
    }
}

/// Ends a script and returns a copy of it.
pub fn end_vdm(script: &mut vdm::VDM, settings: &Json, next_demoname: &str) -> (r: vdm::VDM)
    requires
        actions(*old(script)).len() > 0,
        actions(*old(script)).last().start_tick matches Some(last) ==> last + 66 <= i64::MAX,
    ensures
        actions(*final(script)) == ended(actions(*old(script)), *settings, next_demoname@),
        script_name(*final(script)) == script_name(*old(script)),
        actions(r) == actions(*final(script)),
        script_name(r) == script_name(*final(script)),
{
    let last_tick: i64 = match last_start_tick(script) {
        Some(tick) => tick,
        None => {
            return copy_of(script);
        },
    };
    if setting_as_bool(settings.get("recording").get("record_continuous")) && !same(
        next_demoname,
        "",
    ) {
        push_action(
            script,
            ActionKind::PlayCommands,
            ActionProps {
                name: "Start the next demo (".to_owned().concat(next_demoname).concat(".dem)"),
                start_tick: Some(last_tick + 66),
                skip_to_tick: None,
                commands: "playdemo ".to_owned().concat(next_demoname).concat(";"),
            },
        );
        return copy_of(script);
    }
    push_action(
        script,
        ActionKind::PlayCommands,
        ActionProps {
            name: "Exit TF2".to_owned(),
            start_tick: Some(last_tick + 66),
            skip_to_tick: None,
            commands: "quit;".to_owned(),
        },
    );
    copy_of(script)
}

} // verus!
