//! Laws on the settings and the configuration.

use crate::json::Json;
use crate::settings::{
    bin, can_write_cfg, cfg, cfg_folder, chat_time_fits, command_line, failure, installs,
    is_cfg_target, named_folders, number, on, own_commands, person, CfgStep, CfgTarget,
};
use crate::text::decimal;
use vstd::prelude::*;

verus! {

/// A switch is on where it is `true` or 1, and its number is then 1; an integer is its own number,
/// and what is neither a switch nor an integer is off and 0.
pub proof fn a_switch_is_true_or_one(b: bool, i: i64, other: Json)
    requires
        !(other is Bool),
        !(other is Int),
    ensures
        on(Json::Bool(b)) <==> b,
        bin(Json::Bool(b)) == 1 <==> b,
        bin(Json::Bool(b)) == 0 <==> !b,
        on(Json::Int(i)) <==> i == 1,
        bin(Json::Int(i)) == i,
        !on(other),
        bin(other) == 0,
{
}

/// The setting `key` of the section `section`, by the members.
pub open spec fn entry(settings: Json, section: Seq<char>, key: Seq<char>) -> Json {
    settings.member(section).member(key)
}

/// Whether `a` and `b` have the same settings in their sections, but for `key` of `section`.
pub open spec fn same_but_for(a: Json, b: Json, section: Seq<char>, key: Seq<char>) -> bool {
    forall|s: Seq<char>, k: Seq<char>|
        s != section || k != key ==> #[trigger] entry(a, s, k) == entry(b, s, k)
}

/// The console command that a setting has for itself, and the factor of its number.
pub open spec fn command_of(section: Seq<char>, key: Seq<char>) -> Option<(Seq<char>, int)> {
    if section == "output"@ {
        if key == "hud"@ {
            Some(("cl_drawhud "@, 1int))
        } else if key == "voice_chat"@ {
            Some(("voice_enable "@, 1int))
        } else if key == "text_chat"@ {
            Some(("hud_saytext_time "@, 12int))
        } else if key == "crosshair"@ {
            Some(("crosshair "@, 1int))
        } else if key == "viewmodel"@ {
            Some(("r_drawviewmodel "@, 1int))
        } else if key == "minmode"@ {
            Some(("tf_use_min_viewmodels "@, 1int))
        } else {
            None
        }
    } else if section == "recording"@ {
        if key == "viewmodel_fov"@ {
            Some(("viewmodel_fov_demo "@, 1int))
        } else if key == "fov"@ {
            Some(("fov_desired "@, 1int))
        } else {
            None
        }
    } else {
        None
    }
}

/// Whether `a` and `b` are the same text but for one place, where `a` has `in_a` and `b` has `in_b`,
/// on lines of their own.
pub open spec fn differ_in_one_place(
    a: Seq<char>,
    b: Seq<char>,
    in_a: Seq<char>,
    in_b: Seq<char>,
) -> bool {
    exists|before: Seq<char>, behind: Seq<char>|
        before.len() > 0 && before.last() == '\n' && a == #[trigger] (before + in_a + behind) && b
            == before + in_b + behind
}

/// The parts of a text, one after the other.
spec fn flat(parts: Seq<Seq<char>>) -> Seq<char>
    decreases parts.len(),
{
    if parts.len() == 0 {
        seq![]
    } else {
        flat(parts.drop_last()) + parts.last()
    }
}

proof fn flat_with_one_more(parts: Seq<Seq<char>>, part: Seq<char>)
    ensures
        flat(parts.push(part)) == flat(parts) + part,
{
    assert(parts.push(part).drop_last() =~= parts);
}

proof fn flat_of_both(a: Seq<Seq<char>>, b: Seq<Seq<char>>)
    ensures
        flat(a + b) == flat(a) + flat(b),
    decreases b.len(),
{
    if b.len() == 0 {
        assert(a + b =~= a);
        assert(flat(a) + flat(b) =~= flat(a));
    } else {
        assert((a + b).drop_last() =~= a + b.drop_last());
        flat_of_both(a, b.drop_last());
        assert(flat(a + b) =~= flat(a) + flat(b));
    }
}

proof fn flat_around(parts: Seq<Seq<char>>, k: int)
    requires
        0 <= k < parts.len(),
    ensures
        flat(parts) == flat(parts.take(k)) + parts[k] + flat(parts.skip(k + 1)),
{
    let first = parts.take(k).push(parts[k]);
    assert(parts =~= first + parts.skip(k + 1));
    flat_of_both(first, parts.skip(k + 1));
    flat_with_one_more(parts.take(k), parts[k]);
}

spec fn parts(settings: Json, addons: Seq<char>) -> Seq<Seq<char>> {
    seq![
        "echo \"Execing Melies Config\";\n"@,
        command_line("cl_drawhud "@, number(settings, "output"@, "hud"@)),
        "sv_cheats 1;\n"@,
        command_line("voice_enable "@, number(settings, "output"@, "voice_chat"@)),
        command_line("hud_saytext_time "@, number(settings, "output"@, "text_chat"@) * 12),
        command_line("crosshair "@, number(settings, "output"@, "crosshair"@)),
        command_line("r_drawviewmodel "@, number(settings, "output"@, "viewmodel"@)),
        command_line("tf_use_min_viewmodels "@, number(settings, "output"@, "minmode"@)),
        command_line("viewmodel_fov_demo "@, number(settings, "recording"@, "viewmodel_fov"@)),
        command_line("fov_desired "@, number(settings, "recording"@, "fov"@)),
        person(settings),
        own_commands(settings),
        "alias \"snd_fix\" \"snd_restart; snd_soundmixer Default_mix;\";\n"@,
        addons,
    ]
}

proof fn cfg_is_its_parts(settings: Json, addons: Seq<char>)
    ensures
        cfg(settings, addons) == flat(parts(settings, addons)),
{
    let all = parts(settings, addons);
    assert(all.take(0) =~= seq![]);
    assert(flat(all.take(0)) =~= seq![]);
    flat_upto(all, 0);
    flat_upto(all, 1);
    flat_upto(all, 2);
    flat_upto(all, 3);
    flat_upto(all, 4);
    flat_upto(all, 5);
    flat_upto(all, 6);
    flat_upto(all, 7);
    flat_upto(all, 8);
    flat_upto(all, 9);
    flat_upto(all, 10);
    flat_upto(all, 11);
    flat_upto(all, 12);
    flat_upto(all, 13);
    assert(flat(all.take(1)) =~= all[0]);
    assert(all.take(14) =~= all);
}

proof fn flat_upto(all: Seq<Seq<char>>, k: int)
    requires
        0 <= k < all.len(),
    ensures
        flat(all.take(k + 1)) == flat(all.take(k)) + all[k],
{
    assert(all.take(k + 1) =~= all.take(k).push(all[k]));
    flat_with_one_more(all.take(k), all[k]);
}

/// Where only the part `k` differs, the configurations differ in that place alone.
proof fn one_part_differs(a: Json, b: Json, addons: Seq<char>, k: int)
    requires
        0 < k < 14,
        forall|j: int|
            0 <= j < 14 && j != k ==> #[trigger] parts(a, addons)[j] == parts(b, addons)[j],
        k != 12 && k != 13,
    ensures
        differ_in_one_place(
            cfg(a, addons),
            cfg(b, addons),
            parts(a, addons)[k],
            parts(b, addons)[k],
        ),
{
    let of_a = parts(a, addons);
    let of_b = parts(b, addons);
    cfg_is_its_parts(a, addons);
    cfg_is_its_parts(b, addons);
    flat_around(of_a, k);
    flat_around(of_b, k);
    assert(of_a.take(k) =~= of_b.take(k)) by {
        assert forall|j: int| 0 <= j < k implies of_a.take(k)[j] == of_b.take(k)[j] by {
            assert(of_a[j] == of_b[j]);
        }
    }
    assert(of_a.skip(k + 1) =~= of_b.skip(k + 1)) by {
        let rest_a = of_a.skip(k + 1);
        let rest_b = of_b.skip(k + 1);
        assert forall|j: int| 0 <= j < rest_a.len() implies rest_a[j] == rest_b[j] by {
            assert(of_a[j + k + 1] == of_b[j + k + 1]);
        }
    }
    let before = flat(of_a.take(k));
    if k < 12 {
        parts_end_their_lines(a, addons, k);
    }
    assert(cfg(a, addons) == before + of_a[k] + flat(of_a.skip(k + 1)));
}

/// What stands before a part of the configuration ends a line.
proof fn parts_end_their_lines(settings: Json, addons: Seq<char>, k: int)
    requires
        0 < k < 12,
    ensures
        flat(parts(settings, addons).take(k)).len() > 0,
        flat(parts(settings, addons).take(k)).last() == '\n',
    decreases k,
{
    let all = parts(settings, addons);
    assert(all.take(k) =~= all.take(k - 1).push(all[k - 1]));
    flat_with_one_more(all.take(k - 1), all[k - 1]);
    reveal_strlit("echo \"Execing Melies Config\";\n");
    reveal_strlit("sv_cheats 1;\n");
    reveal_strlit("thirdperson;\n");
    reveal_strlit("firstperson;\n");
    reveal_strlit(";\n");
    assert(all[k - 1].len() > 0 && all[k - 1].last() == '\n');
}

/// Each console command follows its own setting and no other: where two settings differ in one place,
/// the configurations differ in the line of the command for it, each with its own number, and
/// nowhere else.
pub proof fn each_command_follows_its_own_setting(
    a: Json,
    b: Json,
    addons: Seq<char>,
    section: Seq<char>,
    key: Seq<char>,
)
    requires
        same_but_for(a, b, section, key),
        command_of(section, key) is Some,
    ensures
        ({
            let (command, factor) = command_of(section, key)->0;
            differ_in_one_place(
                cfg(a, addons),
                cfg(b, addons),
                command + decimal(bin(entry(a, section, key)) * factor) + ";\n"@,
                command + decimal(bin(entry(b, section, key)) * factor) + ";\n"@,
            )
        }),
{
    let k = place_of(section, key);
    command_stands_in_its_place(a, addons, section, key);
    command_stands_in_its_place(b, addons, section, key);
    other_parts_agree(a, b, addons, section, key, k);
    one_part_differs(a, b, addons, k);
}

/// Where the command of a setting stands among the parts.
spec fn place_of(section: Seq<char>, key: Seq<char>) -> int {
    if section == "output"@ {
        if key == "hud"@ {
            1
        } else if key == "voice_chat"@ {
            3
        } else if key == "text_chat"@ {
            4
        } else if key == "crosshair"@ {
            5
        } else if key == "viewmodel"@ {
            6
        } else {
            7
        }
    } else if key == "viewmodel_fov"@ {
        8
    } else {
        9
    }
}

#[verifier::spinoff_prover]
proof fn command_stands_in_its_place(
    settings: Json,
    addons: Seq<char>,
    section: Seq<char>,
    key: Seq<char>,
)
    requires
        command_of(section, key) is Some,
    ensures
        ({
            let (command, factor) = command_of(section, key)->0;
            parts(settings, addons)[place_of(section, key)] == command + decimal(
                bin(entry(settings, section, key)) * factor,
            ) + ";\n"@
        }),
{
    let (command, factor) = command_of(section, key)->0;
    let n = bin(entry(settings, section, key)) as int;
    if place_of(section, key) == 4 {
        assert(factor == 12);
        assert(n * factor == n * 12);
    } else {
        assert(factor == 1);
        assert(n * factor == n) by (nonlinear_arith)
            requires
                factor == 1,
        ;
    }
}

proof fn other_parts_agree(
    a: Json,
    b: Json,
    addons: Seq<char>,
    section: Seq<char>,
    key: Seq<char>,
    k: int,
)
    requires
        same_but_for(a, b, section, key),
        k == 1 ==> section == "output"@ && key == "hud"@,
        k == 3 ==> section == "output"@ && key == "voice_chat"@,
        k == 4 ==> section == "output"@ && key == "text_chat"@,
        k == 5 ==> section == "output"@ && key == "crosshair"@,
        k == 6 ==> section == "output"@ && key == "viewmodel"@,
        k == 7 ==> section == "output"@ && key == "minmode"@,
        k == 8 ==> section == "recording"@ && key == "viewmodel_fov"@,
        k == 9 ==> section == "recording"@ && key == "fov"@,
        k == 10 ==> section == "recording"@ && key == "third_person"@,
        k == 11 ==> section == "recording"@ && key == "commands"@,
        k == 1 || 3 <= k <= 11,
    ensures
        forall|j: int|
            0 <= j < 14 && j != k ==> #[trigger] parts(a, addons)[j] == parts(b, addons)[j],
{
    names_differ();
    assert(k != 1 ==> entry(a, "output"@, "hud"@) == entry(b, "output"@, "hud"@));
    assert(k != 3 ==> entry(a, "output"@, "voice_chat"@) == entry(b, "output"@, "voice_chat"@));
    assert(k != 4 ==> entry(a, "output"@, "text_chat"@) == entry(b, "output"@, "text_chat"@));
    assert(k != 5 ==> entry(a, "output"@, "crosshair"@) == entry(b, "output"@, "crosshair"@));
    assert(k != 6 ==> entry(a, "output"@, "viewmodel"@) == entry(b, "output"@, "viewmodel"@));
    assert(k != 7 ==> entry(a, "output"@, "minmode"@) == entry(b, "output"@, "minmode"@));
    assert(k != 8 ==> entry(a, "recording"@, "viewmodel_fov"@) == entry(
        b,
        "recording"@,
        "viewmodel_fov"@,
    ));
    assert(k != 9 ==> entry(a, "recording"@, "fov"@) == entry(b, "recording"@, "fov"@));
    assert(k != 10 ==> entry(a, "recording"@, "third_person"@) == entry(
        b,
        "recording"@,
        "third_person"@,
    ));
    assert(k != 11 ==> entry(a, "recording"@, "commands"@) == entry(b, "recording"@, "commands"@));
}

/// The names of the settings in the configuration differ from each other.
proof fn names_differ()
    ensures
        "output"@ != "recording"@,
        "hud"@ != "voice_chat"@ && "hud"@ != "text_chat"@ && "hud"@ != "crosshair"@ && "hud"@
            != "viewmodel"@ && "hud"@ != "minmode"@,
        "voice_chat"@ != "text_chat"@ && "voice_chat"@ != "crosshair"@ && "voice_chat"@
            != "viewmodel"@ && "voice_chat"@ != "minmode"@,
        "text_chat"@ != "crosshair"@ && "text_chat"@ != "viewmodel"@ && "text_chat"@ != "minmode"@,
        "crosshair"@ != "viewmodel"@ && "crosshair"@ != "minmode"@,
        "viewmodel"@ != "minmode"@,
        "viewmodel_fov"@ != "fov"@ && "viewmodel_fov"@ != "third_person"@ && "viewmodel_fov"@
            != "commands"@,
        "fov"@ != "third_person"@ && "fov"@ != "commands"@ && "third_person"@ != "commands"@,
{
    reveal_strlit("output");
    reveal_strlit("recording");
    reveal_strlit("hud");
    reveal_strlit("voice_chat");
    reveal_strlit("text_chat");
    reveal_strlit("crosshair");
    reveal_strlit("viewmodel");
    reveal_strlit("minmode");
    reveal_strlit("viewmodel_fov");
    reveal_strlit("fov");
    reveal_strlit("third_person");
    reveal_strlit("commands");
    assert("output"@.len() == 6 && "recording"@.len() == 9);
    assert("hud"@.len() == 3 && "voice_chat"@.len() == 10 && "minmode"@.len() == 7);
    assert("text_chat"@[0] == 't' && "crosshair"@[0] == 'c' && "viewmodel"@[0] == 'v');
    assert("text_chat"@.len() == 9 && "crosshair"@.len() == 9 && "viewmodel"@.len() == 9);
    assert("viewmodel_fov"@.len() == 13 && "fov"@.len() == 3 && "third_person"@.len() == 12
        && "commands"@.len() == 8);
}

/// The point of view follows its own setting and no other.
pub proof fn the_point_of_view_follows_its_setting(a: Json, b: Json, addons: Seq<char>)
    requires
        same_but_for(a, b, "recording"@, "third_person"@),
        bin(entry(a, "recording"@, "third_person"@)) == 1,
        bin(entry(b, "recording"@, "third_person"@)) != 1,
    ensures
        differ_in_one_place(
            cfg(a, addons),
            cfg(b, addons),
            "thirdperson;\n"@,
            "firstperson;\n"@,
        ),
{
    other_parts_agree(a, b, addons, "recording"@, "third_person"@, 10);
    one_part_differs(a, b, addons, 10);
}

/// The commands of the user stand in the configuration as they are, on lines of their own, and
/// without them nothing stands in their place.
pub proof fn own_commands_stand_as_they_are(
    a: Json,
    b: Json,
    addons: Seq<char>,
    commands: Seq<char>,
)
    requires
        same_but_for(a, b, "recording"@, "commands"@),
        entry(a, "recording"@, "commands"@).text() == Some(commands),
        entry(b, "recording"@, "commands"@).text() is None,
    ensures
        differ_in_one_place(
            cfg(a, addons),
            cfg(b, addons),
            commands + "\n"@,
            Seq::<char>::empty(),
        ),
{
    other_parts_agree(a, b, addons, "recording"@, "commands"@, 11);
    one_part_differs(a, b, addons, 11);
}

/// The addons are the end of the configuration, and nothing else follows them.
pub proof fn addons_come_last(settings: Json, addons: Seq<char>, more: Seq<char>)
    ensures
        cfg(settings, addons + more) == cfg(settings, addons) + more,
        cfg(settings, addons) == cfg(settings, Seq::<char>::empty()) + addons,
{
    assert(cfg(settings, addons + more) =~= cfg(settings, addons) + more);
    assert(cfg(settings, addons) =~= cfg(settings, Seq::<char>::empty()) + addons);
}

/// Nothing but these settings matters for the configuration.
pub proof fn nothing_else_matters_for_the_configuration(a: Json, b: Json, addons: Seq<char>)
    requires
        forall|section: Seq<char>, key: Seq<char>|
            command_of(section, key) is Some || section == "recording"@ && (key == "third_person"@
                || key == "commands"@) ==> #[trigger] entry(a, section, key) == entry(
                b,
                section,
                key,
            ),
    ensures
        cfg(a, addons) == cfg(b, addons),
{
    names_differ();
    assert(entry(a, "output"@, "hud"@) == entry(b, "output"@, "hud"@));
    assert(entry(a, "output"@, "voice_chat"@) == entry(b, "output"@, "voice_chat"@));
    assert(entry(a, "output"@, "text_chat"@) == entry(b, "output"@, "text_chat"@));
    assert(entry(a, "output"@, "crosshair"@) == entry(b, "output"@, "crosshair"@));
    assert(entry(a, "output"@, "viewmodel"@) == entry(b, "output"@, "viewmodel"@));
    assert(entry(a, "output"@, "minmode"@) == entry(b, "output"@, "minmode"@));
    assert(entry(a, "recording"@, "viewmodel_fov"@) == entry(b, "recording"@, "viewmodel_fov"@));
    assert(entry(a, "recording"@, "fov"@) == entry(b, "recording"@, "fov"@));
    assert(entry(a, "recording"@, "third_person"@) == entry(b, "recording"@, "third_person"@));
    assert(entry(a, "recording"@, "commands"@) == entry(b, "recording"@, "commands"@));
}

/// Each install with a name and a folder counts, by itself and in its order, and no other does.
pub proof fn every_named_install_counts(a: Seq<Json>, b: Seq<Json>, install: Json)
    ensures
        named_folders(a + b) == named_folders(a) + named_folders(b),
        install.member("name"@).text() is Some && install.member("tf_folder"@).text() is Some
            ==> named_folders(seq![install]) == seq![install.member("tf_folder"@).text()->0],
        install.member("name"@).text() is None || install.member("tf_folder"@).text() is None
            ==> named_folders(seq![install]) == Seq::<Seq<char>>::empty(),
    decreases b.len(),
{
    assert(seq![install].drop_last() =~= seq![]);
    assert(named_folders(seq![install].drop_last()) == Seq::<Seq<char>>::empty());
    if b.len() == 0 {
        assert(a + b =~= a);
        assert(named_folders(a) + named_folders(b) =~= named_folders(a));
    } else {
        every_named_install_counts(a, b.drop_last(), install);
        assert((a + b).drop_last() =~= a + b.drop_last());
        assert(named_folders(a + b) =~= named_folders(a) + named_folders(b));
    }
}

/// A configuration can be written whenever the time of the chat is no larger than a machine can
/// count and the further installs are listed.
pub proof fn ordinary_settings_have_a_configuration(settings: Json)
    requires
        -700_000_000_000_000_000 <= bin(entry(settings, "output"@, "text_chat"@))
            <= 700_000_000_000_000_000,
        settings.member("alt_installs"@) is List || settings.member("tf_folder"@).text() is None,
    ensures
        can_write_cfg(settings),
        chat_time_fits(settings),
{
}

/// The `tf` folder comes first, and the other installs come in their order.
pub proof fn the_main_install_comes_first(alt_installs: Seq<Seq<char>>, i: int)
    requires
        0 <= i < alt_installs.len(),
    ensures
        installs(alt_installs).len() == alt_installs.len() + 1,
        installs(alt_installs)[0] == "tf"@,
        installs(alt_installs)[i + 1] == alt_installs[i],
{
}

/// The file stands in its folder, and the folder stands below the install and that below the base.
pub proof fn the_configuration_stands_in_its_folder(
    target: CfgTarget,
    base: Seq<char>,
    install: Seq<char>,
    separator: Seq<char>,
)
    requires
        is_cfg_target(target, base, install, separator),
    ensures
        target.file@ == target.folder@ + separator + "melies.cfg"@,
        cfg_folder(base, install, separator) == base + cfg_folder(
            Seq::<char>::empty(),
            install,
            separator,
        ),
        install.len() > 0 ==> target.folder@ == base + install + separator + "cfg"@,
        install.len() == 0 ==> target.folder@ == base + "cfg"@,
{
    assert(cfg_folder(base, install, separator) =~= base + cfg_folder(
        Seq::<char>::empty(),
        install,
        separator,
    ));
}

/// What is said of a failure ends with the reason, whatever that is.
pub proof fn a_failure_gives_its_reason(step: CfgStep, why: Seq<char>, more: Seq<char>)
    ensures
        failure(step, why + more) == failure(step, why) + more,
        failure(step, why) == failure(step, Seq::<char>::empty()) + why,
{
    assert(failure(step, why + more) =~= failure(step, why) + more);
    assert(failure(step, why) =~= failure(step, Seq::<char>::empty()) + why);
}

} // verus!
