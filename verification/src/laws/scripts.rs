//! Laws on the scripts for a list of clips.

use crate::clip::Clip;
use crate::json::Json;
use crate::laws::record::{
    a_recording_lasts_as_long_as_its_clip, a_script_ends_a_second_after_its_last_action,
    a_skip_lies_between_its_clips, ordinary_ticks_fit, the_first_skip_ends_a_second_before_the_clip,
};
use crate::laws::settings::entry;
use crate::record::{can_follow, can_start, recordable, recording};
use crate::script::{ActionKind, ActionView};
use crate::scripts::{
    can_record, clip_actions, end_ticks_fit, last_script_ends_with_last_clip, location, scripts,
    stays, ticks_fit, written, ScriptView,
};
use vstd::prelude::*;

verus! {

/// Whether `actions` record `clip` from index `at` on: the configuration, the start and the stop, at
/// their ticks.
pub open spec fn record_at(actions: Seq<ActionView>, clip: Clip, at: int) -> bool {
    &&& 0 <= at < actions.len() - 2
    &&& actions[at].name == "Exec Melies Commands"@
    &&& actions[at].start_tick matches Some(tick) && tick + 33 == clip.start_tick
    &&& actions[at + 1].name == "Start Recording"@
    &&& actions[at + 1].start_tick == Some(clip.start_tick)
    &&& actions[at + 2].name == "Stop Recording"@
    &&& actions[at + 2].start_tick == Some(clip.end_tick)
}

/// Whether the script `at` of `all` is for the demo of `clip` and records it.
pub open spec fn is_recorded_by(all: Seq<ScriptView>, clip: Clip, at: int) -> bool {
    &&& 0 <= at < all.len()
    &&& all[at].name == clip.demo_name@
    &&& exists|j: int| #[trigger] record_at(all[at].actions, clip, j)
}

/// Every clip is recorded by a script for its demo.
pub proof fn every_clip_is_recorded_by_a_script_of_its_demo(
    clips: Seq<Clip>,
    settings: Json,
    loaded: Seq<Json>,
    i: int,
)
    requires
        0 <= i < clips.len(),
        clips[i].start_tick - 33 >= i64::MIN,
    ensures
        exists|at: int| #[trigger] is_recorded_by(scripts(clips, settings, loaded), clips[i], at),
    decreases clips.len(),
{
    let all = scripts(clips, settings, loaded);
    let clip = clips[i];
    last_script_ends_with_last_clip(clips, settings, loaded);
    let own = clip_actions(clips, clips.len() - 1, settings, loaded);
    if i == clips.len() - 1 {
        let three = recording(clip.demo_name@, clip, settings, loaded[i]);
        a_recording_lasts_as_long_as_its_clip(clip.demo_name@, clip, settings, loaded[i]);
        let actions = all.last().actions;
        let j = actions.len() - 3;
        assert(own.skip(own.len() - 3) =~= three);
        assert(actions.skip(j) =~= three);
        assert(actions[j] == actions.skip(j)[0] && actions[j + 1] == actions.skip(j)[1] && actions[j
            + 2] == actions.skip(j)[2]);
        assert(record_at(actions, clip, j));
        assert(is_recorded_by(all, clip, all.len() - 1));
    } else {
        let earlier = clips.drop_last();
        let before = scripts(earlier, settings, loaded);
        every_clip_is_recorded_by_a_script_of_its_demo(earlier, settings, loaded, i);
        let at = choose|at: int| #[trigger] is_recorded_by(before, earlier[i], at);
        let j = choose|j: int| #[trigger] record_at(before[at].actions, clip, j);
        last_script_ends_with_last_clip(earlier, settings, loaded);
        assert(record_at(all[at].actions, clip, j)) by {
            if at == before.len() - 1 && all.len() == before.len() {
                assert(all[at].actions == before[at].actions + own);
            } else {
                assert(all[at] == before[at]);
            }
        }
        assert(is_recorded_by(all, clip, at));
    }
}

/// The actions of a clip are its recording, and before it at most one skip: none or one to the first
/// clip of the demo, or between this clip and the one before it in the same demo.
pub proof fn at_most_one_skip_leads_to_a_clip(
    clips: Seq<Clip>,
    settings: Json,
    loaded: Seq<Json>,
    i: int,
)
    requires
        0 <= i < clips.len(),
        ticks_fit(clips, settings),
    ensures
        ({
            let own = clip_actions(clips, i, settings, loaded);
            let follows = i > 0 && clips[i - 1].demo_name@ == clips[i].demo_name@;
            let delay = entry(settings, "recording"@, "start_delay"@).integer();
            let skips = if follows {
                clips[i].start_tick - clips[i - 1].end_tick > 300
            } else {
                delay is Some && clips[i].start_tick > delay->0 + 66
            };
            &&& record_at(own, clips[i], own.len() - 3)
            &&& own.skip(own.len() - 3) == recording(
                clips[i].demo_name@,
                clips[i],
                settings,
                loaded[i],
            )
            &&& own.len() == (if skips {
                4int
            } else {
                3int
            })
            &&& skips ==> {
                &&& own[0].kind == Some(ActionKind::SkipAhead)
                &&& own[0].skip_to_tick is Some && own[0].skip_to_tick->0 + 66
                    == clips[i].start_tick
                &&& own[0].start_tick is Some
                &&& own[0].start_tick->0 == (if follows {
                    clips[i - 1].end_tick + 66
                } else {
                    delay->0 as int
                })
            }
        }),
{
    let clip = clips[i];
    let own = clip_actions(clips, i, settings, loaded);
    let follows = i > 0 && clips[i - 1].demo_name@ == clip.demo_name@;
    if follows {
        assert(can_follow(clips[i - 1].end_tick, clips[i]));
        a_skip_lies_between_its_clips(clips[i - 1].end_tick, clip);
    } else {
        assert(can_start(clips[i], settings));
        the_first_skip_ends_a_second_before_the_clip(clip, settings);
    }
    a_recording_lasts_as_long_as_its_clip(clip.demo_name@, clip, settings, loaded[i]);
    let three = recording(clip.demo_name@, clip, settings, loaded[i]);
    let n = own.len() - 3;
    assert(own.skip(n) =~= three);
    assert(own[n] == own.skip(n)[0] && own[n + 1] == own.skip(n)[1] && own[n + 2] == own.skip(
        n,
    )[2]);
}

/// A script is written under its own name, with its own actions and one more.
pub proof fn a_script_is_written_as_it_is(all: Seq<ScriptView>, i: int, settings: Json)
    requires
        0 <= i < all.len(),
        all[i].actions.len() > 0,
        all[i].actions.last().start_tick matches Some(last) && last + 66 <= i64::MAX,
    ensures
        written(all, i, settings).name == all[i].name,
        written(all, i, settings).actions.len() == all[i].actions.len() + 1,
        written(all, i, settings).actions.drop_last() == all[i].actions,
        written(all, i, settings).actions.last().start_tick == Some(
            (all[i].actions.last().start_tick->0 + 66) as i64,
        ),
{
    let next = if i + 1 < all.len() {
        all[i + 1].name
    } else {
        ""@
    };
    a_script_ends_a_second_after_its_last_action(all[i].actions, settings, next);
}

/// A script is written into the `tf` folder with absolute paths, and into its folder of demos
/// without, under the name of its demo.
pub proof fn a_script_is_written_beside_its_demo(name: Seq<char>, settings: Json, tf: Seq<char>)
    requires
        settings.member("tf_folder"@).text() == Some(tf),
    ensures
        settings.member("absolute_file_paths"@).truth() == Some(true) ==> location(name, settings)
            == tf + "\\"@ + name + ".vdm"@,
        settings.member("absolute_file_paths"@).truth() == Some(false) ==> location(name, settings)
            == tf + "\\demos\\"@ + name + ".vdm"@,
{
    reveal_strlit("\\");
    reveal_strlit("\\demos");
    reveal_strlit("\\demos\\");
    if settings.member("absolute_file_paths"@).truth() == Some(false) {
        assert(location(name, settings) =~= tf + "\\demos\\"@ + name + ".vdm"@);
    }
}

/// A file that is not there is always written, and one that is there stays only in the safe mode.
pub proof fn only_the_safe_mode_keeps_a_file(settings: Json, i: i64)
    ensures
        !stays(settings, false),
        settings.member("safe_mode"@) == Json::Int(i) ==> (stays(settings, true) <==> i == 1),
        !(settings.member("safe_mode"@) is Int) ==> !stays(settings, true),
{
}

/// Clips within demos of an ordinary length can always be recorded.
pub proof fn ordinary_clips_can_be_recorded(clips: Seq<Clip>, settings: Json)
    requires
        recordable(settings),
        clips.len() > 0 ==> clips[0].demo_name@.len() > 0,
        forall|i: int|
            0 <= i < clips.len() ==> 0 <= (#[trigger] clips[i]).start_tick <= 1_000_000_000_000 && 0
                <= clips[i].end_tick <= 1_000_000_000_000,
        entry(settings, "recording"@, "start_delay"@).integer() matches Some(delay) ==> delay
            <= 1_000_000_000_000,
    ensures
        can_record(clips, settings),
        end_ticks_fit(clips),
{
    reveal_strlit("");
    assert forall|i: int| 0 <= i < clips.len() implies if i > 0 && clips[i - 1].demo_name@
        == clips[i].demo_name@ {
        can_follow(clips[i - 1].end_tick, #[trigger] clips[i])
    } else {
        can_start(clips[i], settings)
    } by {
        if i > 0 {
            ordinary_ticks_fit(clips[i - 1].end_tick, clips[i], settings);
        } else {
            ordinary_ticks_fit(0, clips[i], settings);
        }
    }
}

/// Without a clip nothing is asked of the settings.
pub proof fn no_clips_need_no_settings(settings: Json)
    ensures
        can_record(Seq::empty(), settings),
{
}

} // verus!
