//! The scripts for a list of clips: one for each run of clips of the same demo, each of which leads
//! on to the next.

use crate::clip::Clip;
use crate::json::Json;
use crate::record::{
    add_clip_to_vdm, can_follow, can_start, end_vdm, ended, is_recordable, recordable, recording,
    skip_between, skip_to_first, start_vdm, stop_action,
};
use crate::script::{
    actions, copy_of, last_start_tick, name_of, new_script, script_len, script_name, set_name,
    ActionView,
};
use crate::settings::{on, setting, setting_as_bool};
use crate::text::same;
use vstd::prelude::*;

verus! {

/// A script.
pub struct ScriptView {
    pub name: Seq<char>,
    pub actions: Seq<ActionView>,
}

/// The script that a VDM file is.
pub open spec fn script_of(script: vdm::VDM) -> ScriptView {
    ScriptView { name: script_name(script), actions: actions(script) }
}

/// The scripts that VDM files are.
pub open spec fn scripts_in(files: Seq<vdm::VDM>) -> Seq<ScriptView> {
    Seq::new(files.len(), |i: int| script_of(files[i]))
}

/// The actions that reach and record the clip `i`. `loaded` are the settings as they are read at the
/// recording of each clip.
pub open spec fn clip_actions(clips: Seq<Clip>, i: int, settings: Json, loaded: Seq<Json>) -> Seq<
    ActionView,
> {
    let clip = clips[i];
    (if i > 0 && clips[i - 1].demo_name@ == clip.demo_name@ {
        skip_between(clips[i - 1].end_tick, clip)
    } else {
        skip_to_first(clip, settings)
    }) + recording(clip.demo_name@, clip, settings, loaded[i])
}

/// The scripts for `clips`: a clip is added to the last script where that is for the same demo, and
/// starts a script otherwise. `loaded` are the settings as they are read at the recording of each
/// clip.
pub open spec fn scripts(clips: Seq<Clip>, settings: Json, loaded: Seq<Json>) -> Seq<ScriptView>
    decreases clips.len(),
{
    if clips.len() == 0 {
        seq![]
    } else {
        let before = scripts(clips.drop_last(), settings, loaded);
        let name = clips.last().demo_name@;
        let own = clip_actions(clips, clips.len() - 1, settings, loaded);
        if clips.len() > 1 && clips[clips.len() - 2].demo_name@ == name {
            before.drop_last().push(
                ScriptView { name, actions: before.last().actions + own },
            )
        } else {
            before.push(ScriptView { name, actions: own })
        }
    }
}

/// Whether the ticks of the actions for `clips` fit in `i64`.
pub open spec fn ticks_fit(clips: Seq<Clip>, settings: Json) -> bool {
    forall|i: int|
        0 <= i < clips.len() ==> if i > 0 && clips[i - 1].demo_name@ == clips[i].demo_name@ {
            can_follow(clips[i - 1].end_tick, #[trigger] clips[i])
        } else {
            can_start(clips[i], settings)
        }
}

/// Whether there are scripts for `clips`: the ticks fit in `i64`, and where there is a clip, the
/// settings hold what a recording needs and the first clip names its demo.
pub open spec fn can_record(clips: Seq<Clip>, settings: Json) -> bool {
    &&& ticks_fit(clips, settings)
    &&& clips.len() > 0 ==> recordable(settings) && clips[0].demo_name@ != ""@
}

/// Whether there are scripts for `clips`.
pub fn are_recordable(clips: &Vec<Clip>, settings: &Json) -> (r: bool)
    ensures
        r == can_record(clips@, *settings),
{
    if clips.len() == 0 {
        return true;
    }
    if !is_recordable(settings) || same(clips[0].demo_name.as_str(), "") {
        return false;
    }
    let delay_fits = match settings.get("recording").get("start_delay").as_i64() {
        Some(delay) => delay <= i64::MAX - 66,
        None => true,
    };
    let mut i: usize = 0;
    while i < clips.len()
        invariant
            i <= clips@.len(),
            recordable(*settings),
            clips@[0].demo_name@ != ""@,
            delay_fits == (setting(
                *settings,
                "recording"@,
                "start_delay"@,
            ).integer() matches Some(delay) ==> delay + 66 <= i64::MAX),
            ticks_fit(clips@.take(i as int), *settings),
        decreases clips@.len() - i,
    {
        let clip = &clips[i];
        let start: i128 = clip.start_tick as i128;
        let follows = i > 0 && same(clips[i - 1].demo_name.as_str(), clip.demo_name.as_str());
        let fits = if follows {
            let last: i128 = clips[i - 1].end_tick as i128;
            last + 300 <= i64::MAX as i128 && (start <= last + 300 || start - last
                <= i64::MAX as i128)
        } else {
            delay_fits
        };
        if !fits || start - 33 < i64::MIN as i128 {
            assert(!ticks_fit(clips@, *settings)) by {
                assert(clips@[i as int] == *clip);
            }
            return false;
        }
        let ghost upto = clips@.take(i + 1);
        assert(ticks_fit(upto, *settings)) by {
            let before = clips@.take(i as int);
            assert forall|j: int| 0 <= j < upto.len() implies if j > 0 && upto[j - 1].demo_name@
                == upto[j].demo_name@ {
                can_follow(upto[j - 1].end_tick, #[trigger] upto[j])
            } else {
                can_start(upto[j], *settings)
            } by {
                if j < i {
                    assert(before[j] == upto[j]);
                    if j > 0 {
                        assert(before[j - 1] == upto[j - 1]);
                    }
                }
            }
        }
        i += 1;
    }
    assert(clips@.take(i as int) =~= clips@);
    true
}

/// The last script is the one for the demo of the last clip, and its last action stops the
/// recording of that clip.
pub proof fn last_script_ends_with_last_clip(clips: Seq<Clip>, settings: Json, loaded: Seq<Json>)
    requires
        clips.len() > 0,
    ensures
        scripts(clips, settings, loaded).len() > 0,
        scripts(clips, settings, loaded).last().name == clips.last().demo_name@,
        scripts(clips, settings, loaded).last().actions.len() > 0,
        scripts(clips, settings, loaded).last().actions.last() == stop_action(
            clips.last(),
            settings,
        ),
{
    let own = clip_actions(clips, clips.len() - 1, settings, loaded);
    assert(own.last() == stop_action(clips.last(), settings));
}

/// The scripts for `clips`. Without a clip that is one empty script. `loaded` are the settings as they
/// are read at the recording of each clip.
pub fn scripts_for(clips: &Vec<Clip>, settings: &Json, loaded: &Vec<Json>) -> (r: Vec<vdm::VDM>)
    requires
        can_record(clips@, *settings),
        loaded@.len() == clips@.len(),
    ensures
        clips@.len() > 0 ==> scripts_in(r@) == scripts(clips@, *settings, loaded@),
        clips@.len() == 0 ==> scripts_in(r@) == seq![ScriptView { name: ""@, actions: seq![] }],
        clips@.len() > 0 && end_ticks_fit(clips@) ==> forall|i: int|
            0 <= i < r@.len() ==> can_end(script_of(#[trigger] r@[i])),
{
    proof {
        reveal_strlit("");
        assert(""@ =~= Seq::<char>::empty());
    }
    let mut current_demo = "".to_owned();
    let mut script = new_script();
    let mut done: Vec<vdm::VDM> = Vec::new();
    let mut i: usize = 0;
    while i < clips.len()
        invariant
            i <= clips@.len(),
            loaded@.len() == clips@.len(),
            can_record(clips@, *settings),
            i == 0 ==> current_demo@ == ""@ && done@.len() == 0 && actions(script) == Seq::<
                ActionView,
            >::empty() && script_name(script) == Seq::<char>::empty(),
            i > 0 ==> current_demo@ == clips@[i - 1].demo_name@ && scripts_in(done@).push(
                script_of(script),
            ) == scripts(clips@.take(i as int), *settings, loaded@),
        decreases clips@.len() - i,
    {
        let clip = &clips[i];
        let ghost upto = clips@.take(i + 1);
        assert(upto.drop_last() =~= clips@.take(i as int));
        assert(clip_actions(upto, i as int, *settings, loaded@) == clip_actions(
            clips@,
            i as int,
            *settings,
            loaded@,
        ));
        proof {
            if i > 0 {
                last_script_ends_with_last_clip(clips@.take(i as int), *settings, loaded@);
                assert(scripts_in(done@).push(script_of(script)).last() == script_of(script));
            }
        }
        if same(current_demo.as_str(), clip.demo_name.as_str()) {
            let ghost before = script;
            add_clip_to_vdm(&mut script, clip, settings, &loaded[i]);
            proof {
                let all = scripts_in(done@).push(script_of(before));
                assert(all.drop_last() =~= scripts_in(done@));
                assert(actions(script) =~= actions(before) + clip_actions(
                    clips@,
                    i as int,
                    *settings,
                    loaded@,
                ));
                assert(scripts_in(done@).push(script_of(script)) =~= scripts(
                    upto,
                    *settings,
                    loaded@,
                ));
            }
        } else {
            let ghost before = script;
            let ghost earlier = done@;
            if script_len(&script) > 0 {
                done.push(script);
            }
            current_demo = clip.demo_name.clone();
            script = new_script();
            set_name(&mut script, clip.demo_name.clone());
            start_vdm(&mut script, clip, settings, &loaded[i]);
            proof {
                assert(actions(script) =~= clip_actions(clips@, i as int, *settings, loaded@));
                if i > 0 {
                    assert(scripts_in(done@) =~= scripts_in(earlier).push(script_of(before)));
                }
                assert(scripts_in(done@).push(script_of(script)) =~= scripts(
                    upto,
                    *settings,
                    loaded@,
                ));
            }
        }
        i += 1;
    }
    assert(clips@.take(i as int) =~= clips@);
    let ghost earlier = done@;
    done.push(script);
    proof {
        assert(scripts_in(done@) =~= scripts_in(earlier).push(script_of(script)));
        if clips@.len() > 0 && end_ticks_fit(clips@) {
            scripts_can_end(clips@, *settings, loaded@);
            assert forall|j: int| 0 <= j < done@.len() implies can_end(
                script_of(#[trigger] done@[j]),
            ) by {
                assert(scripts(clips@, *settings, loaded@)[j] == script_of(done@[j]));
            }
        }
    }
    done
}

/// The actions of `scripts`, one script after the other.
pub open spec fn all_actions(scripts: Seq<ScriptView>) -> Seq<ActionView>
    decreases scripts.len(),
{
    if scripts.len() == 0 {
        seq![]
    } else {
        all_actions(scripts.drop_last()) + scripts.last().actions
    }
}

/// The actions for the clips before index `n`, one clip after the other.
pub open spec fn actions_upto(clips: Seq<Clip>, n: int, settings: Json, loaded: Seq<Json>) -> Seq<
    ActionView,
>
    decreases n,
{
    if n <= 0 {
        seq![]
    } else {
        actions_upto(clips, n - 1, settings, loaded) + clip_actions(clips, n - 1, settings, loaded)
    }
}

/// Every clip is recorded once, in the order of the clips: one after the other, the scripts hold the
/// actions of the clips and nothing else.
pub proof fn scripts_record_every_clip(clips: Seq<Clip>, settings: Json, loaded: Seq<Json>)
    ensures
        all_actions(scripts(clips, settings, loaded)) == actions_upto(
            clips,
            clips.len() as int,
            settings,
            loaded,
        ),
    decreases clips.len(),
{
    if clips.len() > 0 {
        let n = clips.len() - 1;
        let earlier = clips.drop_last();
        let before = scripts(earlier, settings, loaded);
        let own = clip_actions(clips, n, settings, loaded);
        let all = scripts(clips, settings, loaded);
        scripts_record_every_clip(earlier, settings, loaded);
        actions_upto_ignores_later_clips(clips, n, settings, loaded);
        if clips.len() > 1 && clips[clips.len() - 2].demo_name@ == clips.last().demo_name@ {
            last_script_ends_with_last_clip(earlier, settings, loaded);
            assert(all.drop_last() =~= before.drop_last());
            assert(all_actions(all) =~= all_actions(before) + own);
        } else {
            assert(all.drop_last() =~= before);
        }
    }
}

proof fn actions_upto_ignores_later_clips(
    clips: Seq<Clip>,
    n: int,
    settings: Json,
    loaded: Seq<Json>,
)
    requires
        0 <= n < clips.len(),
    ensures
        actions_upto(clips.drop_last(), n, settings, loaded) == actions_upto(
            clips,
            n,
            settings,
            loaded,
        ),
    decreases n,
{
    if n > 0 {
        actions_upto_ignores_later_clips(clips, n - 1, settings, loaded);
        assert(clip_actions(clips.drop_last(), n - 1, settings, loaded) == clip_actions(
            clips,
            n - 1,
            settings,
            loaded,
        ));
    }
}

/// Scripts that follow each other are for different demos, and none is empty.
pub proof fn neighbouring_scripts_differ(clips: Seq<Clip>, settings: Json, loaded: Seq<Json>)
    ensures
        forall|i: int|
            0 <= i < scripts(clips, settings, loaded).len() - 1 ==> (#[trigger] scripts(
                clips,
                settings,
                loaded,
            )[i]).name != scripts(clips, settings, loaded)[i + 1].name,
        forall|i: int|
            0 <= i < scripts(clips, settings, loaded).len() ==> (#[trigger] scripts(
                clips,
                settings,
                loaded,
            )[i]).actions.len() > 0,
    decreases clips.len(),
{
    if clips.len() > 0 {
        let earlier = clips.drop_last();
        let before = scripts(earlier, settings, loaded);
        neighbouring_scripts_differ(earlier, settings, loaded);
        last_script_ends_with_last_clip(clips, settings, loaded);
        if clips.len() > 1 {
            last_script_ends_with_last_clip(earlier, settings, loaded);
        }
        let all = scripts(clips, settings, loaded);
        assert forall|i: int| 0 <= i < all.len() implies (#[trigger] all[i]).actions.len() > 0 by {
            if i < all.len() - 1 {
                assert(all[i] == before[i]);
            }
        }
        assert forall|i: int| 0 <= i < all.len() - 1 implies (#[trigger] all[i]).name
            != all[i + 1].name by {
            assert(all[i] == before[i]);
            if i + 1 < before.len() {
                assert(all[i + 1].name == before[i + 1].name);
            }
        }
    }
}

/// The number of runs of clips of the same demo.
pub open spec fn runs(clips: Seq<Clip>) -> nat
    decreases clips.len(),
{
    if clips.len() == 0 {
        0
    } else {
        let before = runs(clips.drop_last());
        if clips.len() > 1 && clips[clips.len() - 2].demo_name@ == clips.last().demo_name@ {
            before
        } else {
            before + 1
        }
    }
}

/// There is one script for each run of clips of the same demo.
pub proof fn one_script_for_each_run(clips: Seq<Clip>, settings: Json, loaded: Seq<Json>)
    ensures
        scripts(clips, settings, loaded).len() == runs(clips),
    decreases clips.len(),
{
    if clips.len() > 0 {
        one_script_for_each_run(clips.drop_last(), settings, loaded);
        if clips.len() > 1 {
            last_script_ends_with_last_clip(clips.drop_last(), settings, loaded);
        }
    }
}

/// There are no more runs than clips, and where there is a clip, there is a run.
pub proof fn no_more_runs_than_clips(clips: Seq<Clip>)
    ensures
        runs(clips) <= clips.len(),
        clips.len() > 0 ==> runs(clips) > 0,
    decreases clips.len(),
{
    if clips.len() > 0 {
        no_more_runs_than_clips(clips.drop_last());
    }
}

/// The folder that the scripts are written to.
pub open spec fn script_folder(settings: Json) -> Seq<char> {
    let tf_folder = settings.member("tf_folder"@).text()->0;
    if settings.member("absolute_file_paths"@).truth() == Some(true) {
        tf_folder
    } else {
        tf_folder + "\\demos"@
    }
}

/// The name of the script that follows the script `i`, or nothing.
pub open spec fn next_name(names: Seq<ScriptView>, i: int) -> Seq<char> {
    if i + 1 < names.len() {
        names[i + 1].name
    } else {
        ""@
    }
}

/// The script `i` of `scripts` as it is written: it leads on to the one after it.
pub open spec fn written(scripts: Seq<ScriptView>, i: int, settings: Json) -> ScriptView {
    ScriptView {
        name: scripts[i].name,
        actions: ended(scripts[i].actions, settings, next_name(scripts, i)),
    }
}

/// Whether a script can be ended: it has an action, and a second after the last one the ticks still
/// fit in `i64`.
pub open spec fn can_end(script: ScriptView) -> bool {
    &&& script.actions.len() > 0
    &&& script.actions.last().start_tick matches Some(last) ==> last + 66 <= i64::MAX
}

/// Whether a script can be ended.
pub fn is_endable(script: &vdm::VDM) -> (r: bool)
    ensures
        r == can_end(script_of(*script)),
{
    if script_len(script) == 0 {
        return false;
    }
    match last_start_tick(script) {
        Some(last) => last <= i64::MAX - 66,
        None => true,
    }
}

/// Whether the tick a second after each clip fits in `i64`.
pub open spec fn end_ticks_fit(clips: Seq<Clip>) -> bool {
    forall|i: int| 0 <= i < clips.len() ==> (#[trigger] clips[i]).end_tick + 66 <= i64::MAX
}

/// Every script for clips can be ended.
pub proof fn scripts_can_end(clips: Seq<Clip>, settings: Json, loaded: Seq<Json>)
    requires
        end_ticks_fit(clips),
    ensures
        forall|i: int|
            0 <= i < scripts(clips, settings, loaded).len() ==> can_end(
                #[trigger] scripts(clips, settings, loaded)[i],
            ),
    decreases clips.len(),
{
    if clips.len() > 0 {
        let earlier = clips.drop_last();
        assert(end_ticks_fit(earlier)) by {
            assert forall|i: int| 0 <= i < earlier.len() implies (#[trigger] earlier[i]).end_tick
                + 66 <= i64::MAX by {
                assert(clips[i].end_tick + 66 <= i64::MAX);
            }
        }
        scripts_can_end(earlier, settings, loaded);
        last_script_ends_with_last_clip(clips, settings, loaded);
        assert(clips[clips.len() - 1].end_tick + 66 <= i64::MAX);
        let all = scripts(clips, settings, loaded);
        assert forall|i: int| 0 <= i < all.len() implies can_end(#[trigger] all[i]) by {
            if i < all.len() - 1 {
                assert(all[i] == scripts(earlier, settings, loaded)[i]);
            }
        }
    }
}

/// Where the settings ask to go on, each script but the last ends by playing the demo of the next
/// one, if that has a name, and the last one leaves the game.
pub proof fn scripts_lead_on(clips: Seq<Clip>, settings: Json, loaded: Seq<Json>, i: int)
    requires
        0 <= i < scripts(clips, settings, loaded).len(),
    ensures
        ({
            let all = scripts(clips, settings, loaded);
            let commands = written(all, i, settings).actions.last().commands;
            let goes_on = on(setting(settings, "recording"@, "record_continuous"@));
            if goes_on && i + 1 < all.len() && all[i + 1].name != ""@ {
                commands == "playdemo "@ + all[i + 1].name + ";"@
            } else {
                commands == "quit;"@
            }
        }),
{
    every_script_has_a_last_tick(clips, settings, loaded);
    let all = scripts(clips, settings, loaded);
    assert(all[i].actions.last().start_tick is Some);
}

/// The last action of every script has a start tick.
proof fn every_script_has_a_last_tick(clips: Seq<Clip>, settings: Json, loaded: Seq<Json>)
    ensures
        forall|i: int|
            0 <= i < scripts(clips, settings, loaded).len() ==> (#[trigger] scripts(
                clips,
                settings,
                loaded,
            )[i]).actions.last().start_tick is Some,
    decreases clips.len(),
{
    if clips.len() > 0 {
        let earlier = clips.drop_last();
        every_script_has_a_last_tick(earlier, settings, loaded);
        last_script_ends_with_last_clip(clips, settings, loaded);
        let all = scripts(clips, settings, loaded);
        assert forall|i: int| 0 <= i < all.len() implies (
        #[trigger] all[i]).actions.last().start_tick is Some by {
            if i < all.len() - 1 {
                assert(all[i] == scripts(earlier, settings, loaded)[i]);
            }
        }
    }
}

/// The file that the script called `name` is written to.
pub open spec fn location(name: Seq<char>, settings: Json) -> Seq<char> {
    script_folder(settings) + "\\"@ + name + ".vdm"@
}

/// The file that a script is written to.
pub fn location_of(script: &vdm::VDM, settings: &Json) -> (r: String)
    requires
        settings.member("tf_folder"@).text() is Some,
        settings.member("absolute_file_paths"@).truth() is Some,
    ensures
        r@ == location(script_name(*script), *settings),
{
    let tf_folder = match settings.get("tf_folder").as_str() {
        Some(folder) => folder,
        None => "",
    };
    let folder = match settings.get("absolute_file_paths").as_bool() {
        Some(true) => tf_folder.to_owned(),
        _ => tf_folder.to_owned().concat("\\demos"),
    };
    folder.concat("\\").concat(name_of(script).as_str()).concat(".vdm")
}

/// Whether the file of a script stays as it is: it is there, and the settings have the safe mode at
/// the integer 1.
pub open spec fn stays(settings: Json, is_there: bool) -> bool {
    is_there && settings.member("safe_mode"@) == Json::Int(1)
}

/// Whether the file of a script stays as it is.
pub fn keeps_existing(settings: &Json, is_there: bool) -> (r: bool)
    ensures
        r == stays(*settings, is_there),
{
    let safe_mode = settings.get("safe_mode");
    safe_mode.as_i64().is_some() && setting_as_bool(safe_mode) && is_there
}

/// The script `i` of `files` as it is written.
pub fn export(files: &Vec<vdm::VDM>, i: usize, settings: &Json) -> (r: vdm::VDM)
    requires
        i < files@.len(),
        can_end(script_of(files@[i as int])),
    ensures
        script_of(r) == written(scripts_in(files@), i as int, *settings),
{
    let next = if i < files.len() - 1 {
        name_of(&files[i + 1])
    } else {
        "".to_owned()
    };
    let mut script = copy_of(&files[i]);
    end_vdm(&mut script, settings, next.as_str())
}

} // verus!
