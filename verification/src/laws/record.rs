//! Laws on the actions that record a clip.

use crate::clip::Clip;
use crate::json::Json;
use crate::laws::settings::entry;
use crate::record::{
    can_follow, can_start, clip_name, ended, recordable, recording, skip_between,
    skip_to_first, start_commands, stop_commands, with_view,
};
use crate::script::{ActionKind, ActionView};
use crate::settings::on;
use crate::text::decimal;
use vstd::prelude::*;

verus! {

/// The recording method in the settings.
pub open spec fn chosen_method(settings: Json) -> Option<Seq<char>> {
    entry(settings, "output"@, "method"@).text()
}

/// The commands in the settings that come before the end of a recording.
pub open spec fn closing_commands(settings: Json) -> Seq<char> {
    entry(settings, "recording"@, "end_commands"@).text()->0
}

/// The names of the methods differ from each other.
proof fn methods_differ()
    ensures
        forall|i: int, j: int|
            0 <= i < j < 8 ==> #[trigger] methods()[i] != #[trigger] methods()[j],
{
    reveal_strlit("h264");
    reveal_strlit("jpeg");
    reveal_strlit("tga");
    reveal_strlit("svr");
    reveal_strlit("svr.mp4");
    reveal_strlit("svr.mov");
    reveal_strlit("sparklyfx");
    reveal_strlit("lawena");
    assert("h264"@.len() == 4 && "jpeg"@.len() == 4 && "h264"@[0] == 'h' && "jpeg"@[0] == 'j');
    assert("tga"@.len() == 3 && "svr"@.len() == 3 && "tga"@[0] == 't' && "svr"@[0] == 's');
    assert("svr.mp4"@.len() == 7 && "svr.mov"@.len() == 7);
    assert("svr.mp4"@[5] == 'p' && "svr.mov"@[5] == 'o');
    assert("sparklyfx"@.len() == 9 && "lawena"@.len() == 6);
}

spec fn methods() -> Seq<Seq<char>> {
    seq![
        "h264"@,
        "jpeg"@,
        "tga"@,
        "svr"@,
        "svr.mp4"@,
        "svr.mov"@,
        "sparklyfx"@,
        "lawena"@,
    ]
}

proof fn methods_are()
    ensures
        methods()[0] == "h264"@ && methods()[1] == "jpeg"@ && methods()[2] == "tga"@ && methods()[3]
            == "svr"@ && methods()[4] == "svr.mp4"@ && methods()[5] == "svr.mov"@ && methods()[6]
            == "sparklyfx"@ && methods()[7] == "lawena"@,
{
}

/// Every recording that starts stops. A method that starts a movie under the name of the video runs
/// the closing commands, ends the movie and gives the framerate back; the other recorders are stopped
/// by their own commands; and where nothing is started, nothing is stopped.
pub proof fn every_recording_that_starts_stops(name: Seq<char>, settings: Json)
    requires
        chosen_method(settings) is Some,
    ensures
        ({
            let m = chosen_method(settings)->0;
            let starts = start_commands(name, settings);
            let stops = stop_commands(settings);
            &&& (m == "h264"@ || m == "jpeg"@ || m == "tga"@ || m == "svr"@ || m == "svr.mp4"@ || m
                == "svr.mov"@) ==> {
                &&& stops == closing_commands(settings) + "; endmovie; host_framerate 0;"@
                &&& exists|before: Seq<char>, behind: Seq<char>|
                    starts == #[trigger] (before + ("startmovie "@ + name) + behind)
            }
            &&& m == "sparklyfx"@ ==> {
                &&& stops == closing_commands(settings) + "; sf_recorder_stop;"@
                &&& exists|behind: Seq<char>| starts == #[trigger] ("sf_recorder_start"@ + behind)
            }
            &&& m == "lawena"@ ==> {
                &&& stops == closing_commands(settings) + "; stoprecording;"@
                &&& starts == "startrecording"@
            }
            &&& starts.len() == 0 <==> stops.len() == 0
            &&& starts.len() > 0 ==> m == "h264"@ || m == "jpeg"@ || m == "tga"@ || m == "svr"@ || m
                == "svr.mp4"@ || m == "svr.mov"@ || m == "sparklyfx"@ || m == "lawena"@
        }),
{
    methods_differ();
    methods_are();
    reveal_strlit("; endmovie; host_framerate 0;");
    reveal_strlit("; sf_recorder_stop;");
    reveal_strlit("; stoprecording;");
    reveal_strlit("startmovie ");
    reveal_strlit("; startmovie ");
    reveal_strlit("startrecording");
    reveal_strlit("sf_recorder_start");
    reveal_strlit("sf_recorder_start ");
    reveal_strlit("sf_recorder_start; clear");
    reveal_strlit("; ");
    reveal_strlit("");
    reveal_strlit("host_framerate ");
    let m = chosen_method(settings)->0;
    let framerate = entry(settings, "output"@, "framerate"@).shown();
    let folder = entry(settings, "output"@, "folder"@).text()->0;
    let starts = start_commands(name, settings);
    let named = "startmovie "@ + name;
    if m == "h264"@ || m == "jpeg"@ {
        assert(starts =~= ("host_framerate "@ + framerate + "; "@) + named + (" "@ + m
            + "; clear"@));
    } else if m == "tga"@ {
        assert(starts =~= ("host_framerate "@ + framerate + "; "@) + named + "; clear"@);
    } else if m == "svr"@ {
        assert(starts =~= Seq::<char>::empty() + named + ".mkv"@);
    } else if m == "svr.mp4"@ {
        assert(starts =~= Seq::<char>::empty() + named + ".mp4"@);
    } else if m == "svr.mov"@ {
        assert(starts =~= Seq::<char>::empty() + named + ".mov"@);
    } else if m == "sparklyfx"@ {
        if folder.len() > 0 {
            assert(starts =~= "sf_recorder_start"@ + (" "@ + folder + "\\"@ + name)) by {
                reveal_strlit(" ");
            }
        } else {
            assert(starts =~= "sf_recorder_start"@ + "; clear"@) by {
                reveal_strlit("; clear");
            }
        }
    }
}

/// What a recording starts with: movies of single frames are made at the framerate of the settings,
/// and each method has its own file.
pub proof fn a_movie_is_started_at_its_framerate(name: Seq<char>, settings: Json)
    requires
        chosen_method(settings) is Some,
    ensures
        ({
            let m = chosen_method(settings)->0;
            let starts = start_commands(name, settings);
            let rate = "host_framerate "@ + entry(settings, "output"@, "framerate"@).shown();
            let folder = entry(settings, "output"@, "folder"@).text()->0;
            &&& m == "h264"@ || m == "jpeg"@ ==> starts == rate + "; startmovie "@ + name + " "@ + m
                + "; clear"@
            &&& m == "tga"@ ==> starts == rate + "; startmovie "@ + name + "; clear"@
            &&& m == "svr"@ ==> starts == "startmovie "@ + name + ".mkv"@
            &&& m == "svr.mp4"@ ==> starts == "startmovie "@ + name + ".mp4"@
            &&& m == "svr.mov"@ ==> starts == "startmovie "@ + name + ".mov"@
            &&& m == "sparklyfx"@ && folder.len() > 0 ==> starts == "sf_recorder_start "@ + folder
                + "\\"@ + name
            &&& m == "sparklyfx"@ && folder.len() == 0 ==> starts == "sf_recorder_start; clear"@
        }),
{
    methods_differ();
    methods_are();
}

/// Two videos of the same method are started by the same commands but for their names.
pub proof fn only_the_name_tells_videos_apart(a: Seq<char>, b: Seq<char>, settings: Json)
    requires
        chosen_method(settings) is Some,
    ensures
        start_commands(a, settings) == start_commands(b, settings) || exists|
            before: Seq<char>,
            behind: Seq<char>,
        |
            start_commands(a, settings) == #[trigger] (before + a + behind) && start_commands(
                b,
                settings,
            ) == before + b + behind,
{
    methods_differ();
    methods_are();
    let m = chosen_method(settings)->0;
    let rate = "host_framerate "@ + entry(settings, "output"@, "framerate"@).shown();
    let folder = entry(settings, "output"@, "folder"@).text()->0;
    let starts_a = start_commands(a, settings);
    let starts_b = start_commands(b, settings);
    if m == "h264"@ || m == "jpeg"@ {
        let before = rate + "; startmovie "@;
        let behind = " "@ + m + "; clear"@;
        assert(starts_a =~= before + a + behind && starts_b =~= before + b + behind);
    } else if m == "tga"@ {
        let before = rate + "; startmovie "@;
        assert(starts_a =~= before + a + "; clear"@ && starts_b =~= before + b + "; clear"@);
    } else if m == "sparklyfx"@ {
        if folder.len() > 0 {
            let before = "sf_recorder_start "@ + folder + "\\"@;
            let behind = Seq::<char>::empty();
            assert(starts_a =~= before + a + behind && starts_b =~= before + b + behind);
        }
    } else if m == "svr"@ {
        assert(starts_a =~= "startmovie "@ + a + ".mkv"@);
        assert(starts_b =~= "startmovie "@ + b + ".mkv"@);
    } else if m == "svr.mp4"@ {
        assert(starts_a =~= "startmovie "@ + a + ".mp4"@);
        assert(starts_b =~= "startmovie "@ + b + ".mp4"@);
    } else if m == "svr.mov"@ {
        assert(starts_a =~= "startmovie "@ + a + ".mov"@);
        assert(starts_b =~= "startmovie "@ + b + ".mov"@);
    }
}

/// A recording is three actions with console commands: half a second before the clip the
/// configuration is executed, at the start of the clip the recording starts, and at its end it stops.
pub proof fn a_recording_lasts_as_long_as_its_clip(
    name: Seq<char>,
    clip: Clip,
    settings: Json,
    loaded: Json,
)
    requires
        clip.start_tick - 33 >= i64::MIN,
    ensures
        ({
            let all = recording(name, clip, settings, loaded);
            &&& all.len() == 3
            &&& forall|i: int|
                0 <= i < 3 ==> (#[trigger] all[i]).kind == Some(ActionKind::PlayCommands)
                    && all[i].skip_to_tick is None && all[i].start_tick is Some
            &&& all[0].start_tick->0 + 33 == clip.start_tick
            &&& all[1].start_tick->0 == clip.start_tick
            &&& all[2].start_tick->0 == clip.end_tick
            &&& all[0].name == "Exec Melies Commands"@
            &&& all[1].name == "Start Recording"@
            &&& all[2].name == "Stop Recording"@
            &&& all[0].commands == "exec melies;"@ + (if on(
                entry(settings, "output"@, "snd_fix"@),
            ) {
                " snd_fix;"@
            } else {
                ""@
            })
            &&& all[1].commands == start_commands(clip_name(name, clip, settings), settings)
                + with_view(clip, Seq::empty(), loaded)
            &&& all[2].commands == stop_commands(settings)
        }),
{
    let all = recording(name, clip, settings, loaded);
    reveal_strlit("exec melies;");
    reveal_strlit("exec melies; snd_fix;");
    reveal_strlit(" snd_fix;");
    reveal_strlit("");
    assert(all[0].commands =~= "exec melies;"@ + (if on(entry(settings, "output"@, "snd_fix"@)) {
        " snd_fix;"@
    } else {
        ""@
    }));
    let starts = start_commands(clip_name(name, clip, settings), settings);
    let view = with_view(clip, Seq::empty(), loaded);
    the_view_comes_behind_the_commands(clip, starts, Seq::empty(), loaded);
    assert(starts + Seq::<char>::empty() =~= starts);
    assert(all[1].commands == starts + view);
}

/// The view of another player comes behind the commands, whatever they are.
pub proof fn the_view_comes_behind_the_commands(
    clip: Clip,
    commands: Seq<char>,
    more: Seq<char>,
    loaded: Json,
)
    ensures
        with_view(clip, commands + more, loaded) == commands + with_view(clip, more, loaded),
{
    assert(with_view(clip, commands + more, loaded) =~= commands + with_view(clip, more, loaded));
}

/// The view changes exactly if the clip asks for it: to its player, in the mode of its kind, by the
/// command that the settings choose.
pub proof fn the_view_is_that_of_the_clip(clip: Clip, loaded: Json)
    ensures
        ({
            let view = with_view(clip, Seq::empty(), loaded);
            let ce = entry(loaded, "recording"@, "use_ce_spec"@).truth() == Some(true);
            &&& clip.spec_type == 0 <==> view.len() == 0
            &&& clip.spec_type == 1 && ce ==> view == "; ce_cameratools_spec_steamid "@
                + clip.spec_player@ + "; spec_mode 4;"@
            &&& clip.spec_type == 1 && !ce ==> view == "; spec_player "@ + clip.spec_player@
                + "; spec_mode 4;"@
            &&& clip.spec_type != 0 && clip.spec_type != 1 && ce ==> view
                == "; ce_cameratools_spec_steamid "@ + clip.spec_player@ + "; spec_mode 5;"@
            &&& clip.spec_type != 0 && clip.spec_type != 1 && !ce ==> view == "; spec_player "@
                + clip.spec_player@ + "; spec_mode 5;"@
        }),
{
    reveal_strlit("; ");
    reveal_strlit(" ");
    reveal_strlit(";");
    reveal_strlit("4");
    reveal_strlit("5");
    reveal_strlit("; spec_mode ");
    reveal_strlit("; spec_mode 4;");
    reveal_strlit("; spec_mode 5;");
    reveal_strlit("spec_player");
    reveal_strlit("; spec_player ");
    reveal_strlit("ce_cameratools_spec_steamid");
    reveal_strlit("; ce_cameratools_spec_steamid ");
    let view = with_view(clip, Seq::empty(), loaded);
    let ce = entry(loaded, "recording"@, "use_ce_spec"@).truth() == Some(true);
    if clip.spec_type != 0 {
        let first = if ce {
            "; ce_cameratools_spec_steamid "@
        } else {
            "; spec_player "@
        };
        let last = if clip.spec_type == 1 {
            "; spec_mode 4;"@
        } else {
            "; spec_mode 5;"@
        };
        assert(view =~= first + clip.spec_player@ + last);
    }
}

/// The skip to the first clip is made exactly if the clip starts more than a second after the delay
/// of the settings. It starts at the delay and ends a second before the clip starts.
pub proof fn the_first_skip_ends_a_second_before_the_clip(clip: Clip, settings: Json)
    ensures
        ({
            let skips = skip_to_first(clip, settings);
            let delay = entry(settings, "recording"@, "start_delay"@).integer();
            &&& skips.len() <= 1
            &&& skips.len() == 1 <==> delay is Some && clip.start_tick > delay->0 + 66
            &&& skips.len() == 1 ==> {
                &&& skips[0].kind == Some(ActionKind::SkipAhead)
                &&& skips[0].start_tick == delay
                &&& skips[0].skip_to_tick is Some
                &&& skips[0].skip_to_tick->0 + 66 == clip.start_tick
                &&& skips[0].start_tick->0 < skips[0].skip_to_tick->0
                &&& skips[0].commands.len() == 0
                &&& skips[0].name == "Skip to first clip"@
            }
        }),
{
    reveal_strlit("");
}

/// Two first clips are skipped to as far apart as they start.
pub proof fn first_skips_are_as_far_apart_as_the_clips(a: Clip, b: Clip, settings: Json)
    requires
        skip_to_first(a, settings).len() > 0,
        skip_to_first(b, settings).len() > 0,
    ensures
        skip_to_first(a, settings)[0].skip_to_tick->0 - skip_to_first(b, settings)[0].skip_to_tick->0
            == a.start_tick - b.start_tick,
        skip_to_first(a, settings)[0].start_tick == skip_to_first(b, settings)[0].start_tick,
{
    the_first_skip_ends_a_second_before_the_clip(a, settings);
    the_first_skip_ends_a_second_before_the_clip(b, settings);
}

/// The skip between clips is made exactly if more than 300 ticks lie between them. It starts a second
/// after the one clip, ends a second before the other, and its name tells how many ticks lie between
/// them.
pub proof fn a_skip_lies_between_its_clips(last: i64, clip: Clip)
    requires
        can_follow(last, clip),
    ensures
        ({
            let skips = skip_between(last, clip);
            &&& skips.len() <= 1
            &&& skips.len() == 1 <==> clip.start_tick - last > 300
            &&& skips.len() == 1 ==> {
                &&& skips[0].kind == Some(ActionKind::SkipAhead)
                &&& skips[0].start_tick is Some && skips[0].start_tick->0 == last + 66
                &&& skips[0].skip_to_tick is Some && skips[0].skip_to_tick->0 + 66
                    == clip.start_tick
                &&& last < skips[0].start_tick->0 < skips[0].skip_to_tick->0 < clip.start_tick
                &&& skips[0].commands.len() == 0
                &&& skips[0].name == "Skip "@ + decimal(clip.start_tick - last) + " ticks"@
            }
        }),
{
    reveal_strlit("");
}

/// A script is ended by one action, a second after its last one, that plays the next demo or leaves
/// the game. The actions before it stay.
pub proof fn a_script_ends_a_second_after_its_last_action(
    script: Seq<ActionView>,
    settings: Json,
    next: Seq<char>,
)
    requires
        script.len() > 0,
        script.last().start_tick matches Some(last) ==> last + 66 <= i64::MAX,
    ensures
        ({
            let all = ended(script, settings, next);
            let goes_on = on(entry(settings, "recording"@, "record_continuous"@)) && next.len() > 0;
            &&& script.last().start_tick is None ==> all == script
            &&& script.last().start_tick matches Some(last) ==> {
                &&& all.len() == script.len() + 1
                &&& all.drop_last() == script
                &&& all.last().kind == Some(ActionKind::PlayCommands)
                &&& all.last().start_tick is Some && all.last().start_tick->0 == last + 66
                &&& all.last().skip_to_tick is None
                &&& goes_on ==> all.last().commands == "playdemo "@ + next + ";"@ && all.last().name
                    == "Start the next demo ("@ + next + ".dem)"@
                &&& !goes_on ==> all.last().commands == "quit;"@ && all.last().name == "Exit TF2"@
            }
        }),
{
    reveal_strlit("");
    assert(next.len() == 0 ==> next =~= ""@);
    if script.last().start_tick is Some {
        assert(ended(script, settings, next).drop_last() =~= script);
    }
}

/// What the settings must give for a recording: the method, and for a method that starts and stops
/// something the closing commands, and for `sparklyfx` the folder. Nothing else.
pub proof fn what_a_recording_needs(name: Seq<char>, settings: Json)
    ensures
        chosen_method(settings) is None ==> !recordable(settings),
        chosen_method(settings) is Some && entry(settings, "recording"@, "end_commands"@).text()
            is Some && entry(settings, "output"@, "folder"@).text() is Some ==> recordable(settings),
        chosen_method(settings) is Some && start_commands(name, settings).len() == 0 ==> recordable(
            settings,
        ),
        chosen_method(settings) is Some && start_commands(name, settings).len() > 0 && entry(
            settings,
            "recording"@,
            "end_commands"@,
        ).text() is None ==> !recordable(settings),
        chosen_method(settings) == Some("sparklyfx"@) && entry(settings, "output"@, "folder"@).text()
            is None ==> !recordable(settings),
        chosen_method(settings) matches Some(m) && m != "sparklyfx"@ && entry(
            settings,
            "recording"@,
            "end_commands"@,
        ).text() is Some ==> recordable(settings),
{
    if chosen_method(settings) is Some {
        methods_differ();
        methods_are();
        reveal_strlit("");
        reveal_strlit("startmovie ");
        reveal_strlit("host_framerate ");
        reveal_strlit("sf_recorder_start ");
        reveal_strlit("sf_recorder_start; clear");
        reveal_strlit("startrecording");
        every_recording_that_starts_stops(name, settings);
    }
}

/// Clips within a demo of an ordinary length can be recorded, first and later ones.
pub proof fn ordinary_ticks_fit(last: i64, clip: Clip, settings: Json)
    requires
        0 <= last <= 1_000_000_000_000,
        0 <= clip.start_tick <= 1_000_000_000_000,
        entry(settings, "recording"@, "start_delay"@).integer() matches Some(delay) ==> delay
            <= 1_000_000_000_000,
    ensures
        can_start(clip, settings),
        can_follow(last, clip),
{
}

} // verus!
