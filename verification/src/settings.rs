//! What the settings mean: switches, and the configuration that the game executes before it
//! records.

use crate::json::Json;
use crate::text::{decimal, decimal_of, texts};
use vstd::prelude::*;

verus! {

/// A switch or a number as the game's console takes it: a boolean is 1 or 0, an integer is itself
/// and anything else is 0.
pub open spec fn bin(setting: Json) -> i64 {
    match setting {
        Json::Bool(b) => if b {
            1
        } else {
            0
        },
        Json::Int(i) => i,
        _ => 0,
    }
}

/// Whether a switch is on: it is `true` or the integer 1.
pub open spec fn on(setting: Json) -> bool {
    setting == Json::Bool(true) || setting == Json::Int(1)
}

/// A switch is on exactly if its number is 1.
pub proof fn switch_is_on_where_its_number_is_one(setting: Json)
    ensures
        on(setting) <==> bin(setting) == 1,
{
}

/// The setting `key` of the section `section`.
pub open spec fn setting(settings: Json, section: Seq<char>, key: Seq<char>) -> Json {
    settings.member(section).member(key)
}

/// A switch or a number as the game's console takes it.
pub fn setting_as_bin(setting: &Json) -> (r: i64)
    ensures
        r == bin(*setting),
{
    match setting.as_i64() {
        Some(i) => i,
        None => match setting.as_bool() {
            Some(b) => if b {
                1
            } else {
                0
            },
            None => 0,
        },
    }
}

/// Whether a switch is on.
pub fn setting_as_bool(setting: &Json) -> (r: bool)
    ensures
        r == on(*setting),
{
    match setting.as_bool() {
        Some(b) => b,
        None => match setting.as_i64() {
            Some(i) => i == 1,
            None => false,
        },
    }
}

/// The console command `command`, which sets `value`, on a line of its own.
pub open spec fn command_line(command: Seq<char>, value: int) -> Seq<char> {
    command + decimal(value) + ";\n"@
}

/// Appends the console command `command`, which sets `value`.
fn push_command(cfg: &mut String, command: &str, value: i64)
    ensures
        final(cfg)@ == old(cfg)@ + command_line(command@, value as int),
{
    cfg.append(command);
    cfg.append(decimal_of(value).as_str());
    cfg.append(";\n");
    assert(cfg@ =~= old(cfg)@ + command_line(command@, value as int));
}

/// The number of the setting `key` of the section `section`.
pub open spec fn number(settings: Json, section: Seq<char>, key: Seq<char>) -> int {
    bin(setting(settings, section, key)) as int
}

/// The configuration for `settings`, with `addons` at its end.
pub open spec fn cfg(settings: Json, addons: Seq<char>) -> Seq<char> {
    "echo \"Execing Melies Config\";\n"@
        + command_line("cl_drawhud "@, number(settings, "output"@, "hud"@))
        + "sv_cheats 1;\n"@
        + command_line("voice_enable "@, number(settings, "output"@, "voice_chat"@))
        + command_line("hud_saytext_time "@, number(settings, "output"@, "text_chat"@) * 12)
        + command_line("crosshair "@, number(settings, "output"@, "crosshair"@))
        + command_line("r_drawviewmodel "@, number(settings, "output"@, "viewmodel"@))
        + command_line("tf_use_min_viewmodels "@, number(settings, "output"@, "minmode"@))
        + command_line("viewmodel_fov_demo "@, number(settings, "recording"@, "viewmodel_fov"@))
        + command_line("fov_desired "@, number(settings, "recording"@, "fov"@))
        + person(settings)
        + own_commands(settings)
        + "alias \"snd_fix\" \"snd_restart; snd_soundmixer Default_mix;\";\n"@
        + addons
}

/// The command for the point of view.
pub open spec fn person(settings: Json) -> Seq<char> {
    if number(settings, "recording"@, "third_person"@) == 1 {
        "thirdperson;\n"@
    } else {
        "firstperson;\n"@
    }
}

/// The commands that the user added, where they did.
pub open spec fn own_commands(settings: Json) -> Seq<char> {
    match setting(settings, "recording"@, "commands"@).text() {
        Some(commands) => commands + "\n"@,
        None => seq![],
    }
}

/// Whether the time for which chat is shown fits in `i64`.
pub open spec fn chat_time_fits(settings: Json) -> bool {
    i64::MIN <= number(settings, "output"@, "text_chat"@) * 12 <= i64::MAX
}

/// Whether a configuration can be written: the time for which chat is shown fits in `i64`, and
/// where the settings give the `tf` folder, they list the further installs.
pub open spec fn can_write_cfg(settings: Json) -> bool {
    &&& chat_time_fits(settings)
    &&& settings.member("tf_folder"@).text() is Some ==> settings.member("alt_installs"@) is List
}

/// Whether a configuration can be written.
pub fn is_cfg_writable(settings: &Json) -> (r: bool)
    ensures
        r == can_write_cfg(*settings),
{
    let time: i64 = setting_as_bin(settings.get("output").get("text_chat"));
    let seconds: i128 = (time as i128) * 12;
    if seconds < i64::MIN as i128 || seconds > i64::MAX as i128 {
        return false;
    }
    settings.get("tf_folder").as_str().is_none() || matches!(
        settings.get("alt_installs"),
        Json::List(_)
    )
}

/// The configuration for `settings`, with `addons` at its end.
pub fn cfg_text(settings: &Json, addons: &str) -> (r: String)
    requires
        chat_time_fits(*settings),
    ensures
        r@ == cfg(*settings, addons@),
{
    let output = settings.get("output");
    let recording = settings.get("recording");
    let mut cfg = "echo \"Execing Melies Config\";\n".to_owned();
    push_command(&mut cfg, "cl_drawhud ", setting_as_bin(output.get("hud")));
    cfg.append("sv_cheats 1;\n");
    push_command(&mut cfg, "voice_enable ", setting_as_bin(output.get("voice_chat")));
    push_command(&mut cfg, "hud_saytext_time ", setting_as_bin(output.get("text_chat")) * 12);
    push_command(&mut cfg, "crosshair ", setting_as_bin(output.get("crosshair")));
    push_command(&mut cfg, "r_drawviewmodel ", setting_as_bin(output.get("viewmodel")));
    push_command(&mut cfg, "tf_use_min_viewmodels ", setting_as_bin(output.get("minmode")));
    push_command(&mut cfg, "viewmodel_fov_demo ", setting_as_bin(recording.get("viewmodel_fov")));
    push_command(&mut cfg, "fov_desired ", setting_as_bin(recording.get("fov")));
    if setting_as_bin(recording.get("third_person")) == 1 {
        cfg.append("thirdperson;\n");
    } else {
        cfg.append("firstperson;\n");
    }
    let ghost before = cfg@;
    if let Some(commands) = recording.get("commands").as_str() {
        cfg.append(commands);
        cfg.append("\n");
    }
    assert(cfg@ =~= before + own_commands(*settings));
    cfg.append("alias \"snd_fix\" \"snd_restart; snd_soundmixer Default_mix;\";\n");
    cfg.append(addons);
    cfg
}

/// The game folders of `installs`, in order, without the installs that have no name or no folder.
pub open spec fn named_folders(installs: Seq<Json>) -> Seq<Seq<char>>
    decreases installs.len(),
{
    if installs.len() == 0 {
        seq![]
    } else {
        let before = named_folders(installs.drop_last());
        let install = installs.last();
        match (install.member("name"@).text(), install.member("tf_folder"@).text()) {
            (Some(_), Some(folder)) => before.push(folder),
            _ => before,
        }
    }
}

/// What is written as the configuration, and into which installs of the game.
#[derive(Debug)]
pub struct CfgFile {
    /// The configuration.
    pub text: String,
    /// The `tf` folder, whose parent holds every install.
    pub tf_folder: String,
    /// The folders of the further installs.
    pub alt_folders: Vec<String>,
}

/// The configuration for `settings` and the installs that it goes into, or what is wrong with the
/// settings.
pub fn write_cfg(settings: &Json, addons: &str) -> (r: Result<CfgFile, String>)
    requires
        can_write_cfg(*settings),
    ensures
        match settings.member("tf_folder"@).text() {
            Some(folder) => {
                &&& r matches Ok(file)
                &&& file.text@ == cfg(*settings, addons@)
                &&& file.tf_folder@ == folder
                &&& texts(file.alt_folders@) == named_folders(
                    settings.member("alt_installs"@)->List_0@,
                )
            },
            None => r matches Err(why) && why@ == "tf_folder setting is not a string"@,
        },
{
    let text = cfg_text(settings, addons);
    let tf_folder = match settings.get("tf_folder").as_str() {
        Some(folder) => folder.to_owned(),
        None => return Err("tf_folder setting is not a string".to_owned()),
    };
    let mut alt_folders: Vec<String> = Vec::new();
    if let Json::List(installs) = settings.get("alt_installs") {
        let mut i: usize = 0;
        assert(texts(alt_folders@) =~= named_folders(installs@.take(0)));
        while i < installs.len()
            invariant
                i <= installs@.len(),
                texts(alt_folders@) == named_folders(installs@.take(i as int)),
            decreases installs@.len() - i,
        {
            let ghost before = alt_folders@;
            assert(installs@.take(i + 1).drop_last() =~= installs@.take(i as int));
            if installs[i].get("name").as_str().is_some() {
                if let Some(folder) = installs[i].get("tf_folder").as_str() {
                    alt_folders.push(folder.to_owned());
                    assert(texts(alt_folders@) =~= texts(before).push(folder@));
                }
            }
            i += 1;
        }
        assert(installs@.take(i as int) =~= installs@);
    }
    Ok(CfgFile { text, tf_folder, alt_folders })
}

/// An install that the configuration goes into: the folder, which may have to be made, and the file.
#[derive(Debug)]
pub struct CfgTarget {
    pub folder: String,
    pub file: String,
}

/// The folder of the configuration in the install `install` of the folder `base`, which is empty or
/// ends with the separator.
pub open spec fn cfg_folder(base: Seq<char>, install: Seq<char>, separator: Seq<char>) -> Seq<char> {
    if install.len() == 0 {
        base + "cfg"@
    } else {
        base + install + separator + "cfg"@
    }
}

/// Whether `target` is the configuration in the install `install` of the folder `base`.
pub open spec fn is_cfg_target(
    target: CfgTarget,
    base: Seq<char>,
    install: Seq<char>,
    separator: Seq<char>,
) -> bool {
    &&& target.folder@ == cfg_folder(base, install, separator)
    &&& target.file@ == cfg_folder(base, install, separator) + separator + "melies.cfg"@
}

/// The installs that the configuration goes into: `tf`, and then `alt_installs`, in order.
pub open spec fn installs(alt_installs: Seq<Seq<char>>) -> Seq<Seq<char>> {
    seq!["tf"@] + alt_installs
}

/// The configuration in the install `install` of the folder `base`.
fn cfg_target(base: &str, install: &str, separator: &str) -> (r: CfgTarget)
    ensures
        is_cfg_target(r, base@, install@, separator@),
{
    let folder = if install.is_empty() {
        base.to_owned().concat("cfg")
    } else {
        base.to_owned().concat(install).concat(separator).concat("cfg")
    };
    let file = folder.clone().concat(separator).concat("melies.cfg");
    CfgTarget { folder, file }
}

/// Where the configuration goes, in order. `base` is the folder that holds the `tf` folder of the
/// settings, and is empty or ends with the separator; the installs lie below it.
pub fn cfg_targets(base: &str, alt_installs: &Vec<String>, separator: &str) -> (r: Vec<CfgTarget>)
    ensures
        r@.len() == alt_installs@.len() + 1,
        forall|i: int|
            0 <= i < r@.len() ==> is_cfg_target(
                #[trigger] r@[i],
                base@,
                installs(texts(alt_installs@))[i],
                separator@,
            ),
{
    let mut r: Vec<CfgTarget> = Vec::new();
    r.push(cfg_target(base, "tf", separator));
    let mut i: usize = 0;
    while i < alt_installs.len()
        invariant
            i <= alt_installs@.len(),
            r@.len() == i + 1,
            forall|j: int|
                0 <= j < r@.len() ==> is_cfg_target(
                    #[trigger] r@[j],
                    base@,
                    installs(texts(alt_installs@))[j],
                    separator@,
                ),
        decreases alt_installs@.len() - i,
    {
        r.push(cfg_target(base, alt_installs[i].as_str(), separator));
        i += 1;
    }
    r
}

/// A step of writing the configuration.
#[derive(Debug, Clone, Copy, PartialEq, Eq, Structural)]
pub enum CfgStep {
    MakeFolder,
    MakeFile,
    WriteFile,
}

/// What is said where a step of writing the configuration fails.
pub open spec fn failure(step: CfgStep, why: Seq<char>) -> Seq<char> {
    (match step {
        CfgStep::MakeFolder => "Couldn't create cfg folder: "@,
        CfgStep::MakeFile => "Couldn't create melies.cfg: "@,
        CfgStep::WriteFile => "Couldn't write melies.cfg: "@,
    }) + why
}

/// What is said where a step of writing the configuration fails.
pub fn cfg_failure(step: CfgStep, why: &str) -> (r: String)
    ensures
        r@ == failure(step, why@),
{
    let what = match step {
        CfgStep::MakeFolder => "Couldn't create cfg folder: ",
        CfgStep::MakeFile => "Couldn't create melies.cfg: ",
        CfgStep::WriteFile => "Couldn't write melies.cfg: ",
    };
    what.to_owned().concat(why)
}

/// The step that follows the step `step` at the install `at` of `targets` installs, or nothing where
/// that was the last one. The folder is made, and then the file, and then it is written, one install
/// after the other.
pub open spec fn following(targets: int, at: int, step: CfgStep) -> Option<(int, CfgStep)> {
    match step {
        CfgStep::MakeFolder => Some((at, CfgStep::MakeFile)),
        CfgStep::MakeFile => Some((at, CfgStep::WriteFile)),
        CfgStep::WriteFile => if at + 1 < targets {
            Some((at + 1, CfgStep::MakeFolder))
        } else {
            None
        },
    }
}

/// What is done once the step `step` at the install `at` of `targets` installs came out as `outcome`:
/// the next step, or nothing where all is done. The first step that fails is the last one.
pub fn next_cfg_step(
    targets: usize,
    at: usize,
    step: CfgStep,
    outcome: &Result<(), String>,
) -> (r: Result<Option<(usize, CfgStep)>, String>)
    requires
        at < targets,
    ensures
        match outcome {
            Err(why) => r matches Err(text) && text@ == failure(step, why@),
            Ok(_) => r matches Ok(next) && match following(targets as int, at as int, step) {
                Some(step) => next matches Some(n) && n.0 == step.0 && n.1 == step.1,
                None => next is None,
            },
        },
{
    match outcome {
        Err(why) => Err(cfg_failure(step, why.as_str())),
        Ok(_) => Ok(
            match step {
                CfgStep::MakeFolder => Some((at, CfgStep::MakeFile)),
                CfgStep::MakeFile => Some((at, CfgStep::WriteFile)),
                CfgStep::WriteFile => if at < targets - 1 {
                    Some((at + 1, CfgStep::MakeFolder))
                } else {
                    None
                },
            },
        ),
    }
}

/// The step that comes after `n` steps, where none fails.
pub open spec fn step_after(n: nat, targets: int) -> Option<(int, CfgStep)>
    decreases n,
{
    if n == 0 {
        Some((0int, CfgStep::MakeFolder))
    } else {
        match step_after((n - 1) as nat, targets) {
            Some((at, step)) => following(targets, at, step),
            None => None,
        }
    }
}

/// Every install gets its folder, its file and its contents, in this order, the installs come in
/// their order, and then all is done.
pub proof fn every_install_is_written(targets: int, at: int)
    requires
        0 <= at < targets,
    ensures
        step_after((3 * at) as nat, targets) == Some((at, CfgStep::MakeFolder)),
        step_after((3 * at + 1) as nat, targets) == Some((at, CfgStep::MakeFile)),
        step_after((3 * at + 2) as nat, targets) == Some((at, CfgStep::WriteFile)),
        step_after((3 * targets) as nat, targets) is None,
{
    steps_upto(targets, at);
    steps_upto(targets, targets - 1);
    let n = (3 * (targets - 1) + 2) as nat;
    assert((3 * targets) as nat == n + 1);
    assert(step_after(n + 1, targets) == following(targets, targets - 1, CfgStep::WriteFile));
}

proof fn steps_upto(targets: int, at: int)
    requires
        0 <= at < targets,
    ensures
        step_after((3 * at) as nat, targets) == Some((at, CfgStep::MakeFolder)),
        step_after((3 * at + 1) as nat, targets) == Some((at, CfgStep::MakeFile)),
        step_after((3 * at + 2) as nat, targets) == Some((at, CfgStep::WriteFile)),
    decreases at,
{
    if at > 0 {
        steps_upto(targets, at - 1);
        let n = (3 * (at - 1) + 2) as nat;
        assert((3 * at) as nat == n + 1);
        assert(step_after(n + 1, targets) == following(targets, at - 1, CfgStep::WriteFile));
    }
    let n = (3 * at) as nat;
    assert(step_after(n + 1, targets) == following(targets, at, CfgStep::MakeFolder));
    assert(step_after(n + 2, targets) == following(targets, at, CfgStep::MakeFile));
}

/// What is done once the scripts are written: whether a backup of the events is saved, and whether
/// the events are cleared after that.
pub fn afterwards(settings: &Json) -> (r: (bool, bool))
    requires
        settings.member("save_backups"@).truth() is Some,
        settings.member("clear_events"@).truth() is Some,
    ensures
        r.0 == (settings.member("save_backups"@).truth() == Some(true)),
        r.1 == (settings.member("clear_events"@).truth() == Some(true)),
{
    let saves = match settings.get("save_backups").as_bool() {
        Some(b) => b,
        None => false,
    };
    let clears = match settings.get("clear_events").as_bool() {
        Some(b) => b,
        None => false,
    };
    (saves, clears)
}

} // verus!
