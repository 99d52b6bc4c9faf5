use melies::json::Json;
use melies::settings::{
    afterwards, cfg_failure, cfg_targets, cfg_text, is_cfg_writable, next_cfg_step, setting_as_bin,
    setting_as_bool, write_cfg, CfgStep,
};
use melies::text::{decimal_of, ends_with, replace, same, trim};

fn text(s: &str) -> Json {
    Json::Text(s.to_string())
}

fn object(members: Vec<(&str, Json)>) -> Json {
    Json::Object(members.into_iter().map(|(k, v)| (k.to_string(), v)).collect())
}

fn settings(tf_folder: Json) -> Json {
    object(vec![
        ("tf_folder", tf_folder),
        (
            "output",
            object(vec![
                ("hud", Json::Bool(true)),
                ("voice_chat", Json::Int(0)),
                ("text_chat", Json::Bool(true)),
                ("crosshair", Json::Bool(false)),
                ("viewmodel", text("yes")),
            ]),
        ),
        (
            "recording",
            object(vec![
                ("viewmodel_fov", Json::Int(70)),
                ("fov", Json::Int(90)),
                ("third_person", Json::Int(1)),
                ("commands", text("mat_picmip -1")),
            ]),
        ),
        (
            "alt_installs",
            Json::List(vec![
                object(vec![("name", text("b")), ("tf_folder", text("/games/b"))]),
                object(vec![("name", text("c"))]),
                object(vec![("tf_folder", text("/games/d"))]),
                object(vec![("name", text("e")), ("tf_folder", text("/games/e"))]),
            ]),
        ),
    ])
}

const CFG: &str = "echo \"Execing Melies Config\";\ncl_drawhud 1;\nsv_cheats 1;\nvoice_enable 0;\nhud_saytext_time 12;\ncrosshair 0;\nr_drawviewmodel 0;\ntf_use_min_viewmodels 0;\nviewmodel_fov_demo 70;\nfov_desired 90;\nthirdperson;\nmat_picmip -1\nalias \"snd_fix\" \"snd_restart; snd_soundmixer Default_mix;\";\nexec addon;\n";

#[test]
fn a_switch_as_a_number() {
    assert_eq!(setting_as_bin(&Json::Bool(true)), 1);
    assert_eq!(setting_as_bin(&Json::Bool(false)), 0);
    assert_eq!(setting_as_bin(&Json::Int(-7)), -7);
    assert_eq!(setting_as_bin(&Json::Number("1.5".to_string())), 0);
    assert_eq!(setting_as_bin(&text("1")), 0);
    assert_eq!(setting_as_bin(&Json::Null), 0);
}

#[test]
fn a_switch_as_a_truth_value() {
    assert!(setting_as_bool(&Json::Bool(true)));
    assert!(!setting_as_bool(&Json::Bool(false)));
    assert!(setting_as_bool(&Json::Int(1)));
    assert!(!setting_as_bool(&Json::Int(2)));
    assert!(!setting_as_bool(&text("true")));
    assert!(!setting_as_bool(&Json::Null));
}

#[test]
fn a_switch_is_on_where_its_number_is_one() {
    for setting in [Json::Bool(true), Json::Int(1), Json::Int(2), Json::Null] {
        assert_eq!(setting_as_bool(&setting), setting_as_bin(&setting) == 1);
    }
}

#[test]
fn the_configuration() {
    assert_eq!(cfg_text(&settings(text("/games/tf")), "exec addon;\n"), CFG);
}

#[test]
fn the_configuration_without_settings() {
    let cfg = cfg_text(&Json::Null, "");
    assert!(cfg.contains("hud_saytext_time 0;\n"));
    assert!(cfg.contains("fov_desired 0;\nfirstperson;\nalias "));
}

#[test]
fn the_installs_of_the_configuration() {
    let file = write_cfg(&settings(text("/games/tf")), "exec addon;\n").unwrap();
    assert_eq!(file.text, CFG);
    assert_eq!(file.tf_folder, "/games/tf");
    assert_eq!(file.alt_folders, vec!["/games/b", "/games/e"]);
}

#[test]
fn no_configuration_without_a_folder() {
    let why = write_cfg(&settings(Json::Null), "").unwrap_err();
    assert_eq!(why, "tf_folder setting is not a string");
}

#[test]
fn every_occurrence_is_replaced_from_the_left() {
    assert_eq!(replace("aaa", "aa", "b"), "ba");
    assert_eq!(replace("a.dem.dem", ".dem", ".vdm"), "a.vdm.vdm");
    assert_eq!(replace("ab", "b", "bb"), "abb");
    assert_eq!(replace("é-é", "é", ""), "-");
    assert_eq!(replace("", "x", "y"), "");
}

#[test]
fn white_space_is_trimmed() {
    assert_eq!(trim(" \t a b\u{a0}\u{3000}\n"), "a b");
    assert_eq!(trim("\u{200b}x"), "\u{200b}x");
    assert_eq!(trim("   "), "");
}

#[test]
fn comparing_texts() {
    assert!(same("ä", "ä"));
    assert!(!same("a", "b"));
    assert!(ends_with("x\\_events.txt", "\\_events.txt"));
    assert!(!ends_with("txt", ".txt"));
}

#[test]
fn decimal_texts() {
    assert_eq!(decimal_of(0), "0");
    assert_eq!(decimal_of(-10), "-10");
    assert_eq!(decimal_of(i64::MAX), "9223372036854775807");
    assert_eq!(decimal_of(i64::MIN), "-9223372036854775808");
}

#[test]
fn members_of_an_object() {
    let json = object(vec![("a", Json::Int(1)), ("b", Json::Int(2)), ("a", Json::Int(3))]);
    assert_eq!(json.get("a").as_i64(), Some(1));
    assert_eq!(json.get("b").as_i64(), Some(2));
    assert!(matches!(json.get("c"), Json::Null));
    assert!(matches!(Json::Int(4).get("a"), Json::Null));
    assert_eq!(text("t").as_str(), Some("t"));
    assert_eq!(Json::Bool(true).as_bool(), Some(true));
    assert_eq!(Json::Int(1).as_bool(), None);
}

#[test]
fn a_value_as_text() {
    let json = object(vec![
        ("a\"b", Json::List(vec![Json::Null, Json::Bool(true), Json::Bool(false)])),
        ("n", Json::Number("59.94".to_string())),
        ("i", Json::Int(-60)),
        ("empty", Json::List(vec![])),
        ("none", Json::Object(vec![])),
    ]);
    assert_eq!(
        json.display(),
        "{\"a\\\"b\":[null,true,false],\"n\":59.94,\"i\":-60,\"empty\":[],\"none\":{}}"
    );
}

#[test]
fn a_string_as_text() {
    assert_eq!(
        text("\"\\\u{8}\t\n\u{c}\r\u{1}\u{1f} é\u{7f}").display(),
        "\"\\\"\\\\\\b\\t\\n\\f\\r\\u0001\\u001f é\u{7f}\""
    );
}

#[test]
fn what_a_configuration_needs() {
    assert!(is_cfg_writable(&settings(text("/games/tf"))));
    assert!(is_cfg_writable(&Json::Null));
    assert!(!is_cfg_writable(&object(vec![("tf_folder", text("/games/tf"))])));
    let chat = object(vec![("output", object(vec![("text_chat", Json::Int(i64::MAX))]))]);
    assert!(!is_cfg_writable(&chat));
}

#[test]
fn where_the_configuration_goes() {
    let alt = vec!["b".to_string(), String::new(), "c/d".to_string()];
    let targets = cfg_targets("/games/", &alt, "/");
    let folders: Vec<&str> = targets.iter().map(|t| t.folder.as_str()).collect();
    assert_eq!(folders, vec!["/games/tf/cfg", "/games/b/cfg", "/games/cfg", "/games/c/d/cfg"]);
    assert_eq!(targets[0].file, "/games/tf/cfg/melies.cfg");
    assert_eq!(targets[2].file, "/games/cfg/melies.cfg");
    assert_eq!(cfg_targets("", &vec![], "\\")[0].file, "tf\\cfg\\melies.cfg");
}

#[test]
fn why_the_configuration_was_not_written() {
    assert_eq!(cfg_failure(CfgStep::MakeFolder, "x"), "Couldn't create cfg folder: x");
    assert_eq!(cfg_failure(CfgStep::MakeFile, "x"), "Couldn't create melies.cfg: x");
    assert_eq!(cfg_failure(CfgStep::WriteFile, "x"), "Couldn't write melies.cfg: x");
}

#[test]
fn the_bounds_of_white_space() {
    let white = [
        '\u{9}', '\u{a}', '\u{b}', '\u{c}', '\u{d}', ' ', '\u{85}', '\u{a0}', '\u{1680}', '\u{2000}',
        '\u{2005}', '\u{200a}', '\u{2028}', '\u{2029}', '\u{202f}', '\u{205f}', '\u{3000}',
    ];
    for c in white {
        assert_eq!(trim(&format!("{}x{}", c, c)), "x");
    }
    for c in ['\u{8}', '\u{e}', '\u{84}', '\u{180e}', '\u{200b}', '\u{2060}', '\u{feff}'] {
        assert_eq!(trim(&c.to_string()), c.to_string());
    }
}

#[test]
fn every_install_is_written() {
    let mut done = vec![];
    let mut next = Some((0, CfgStep::MakeFolder));
    while let Some((at, step)) = next {
        done.push((at, step));
        next = next_cfg_step(2, at, step, &Ok(())).unwrap();
    }
    assert_eq!(
        done,
        vec![
            (0, CfgStep::MakeFolder),
            (0, CfgStep::MakeFile),
            (0, CfgStep::WriteFile),
            (1, CfgStep::MakeFolder),
            (1, CfgStep::MakeFile),
            (1, CfgStep::WriteFile),
        ]
    );
}

#[test]
fn the_first_failure_is_the_last_step() {
    let why = Err("full".to_string());
    let text = next_cfg_step(2, 0, CfgStep::WriteFile, &why).unwrap_err();
    assert_eq!(text, "Couldn't write melies.cfg: full");
    let text = next_cfg_step(1, 0, CfgStep::MakeFolder, &why).unwrap_err();
    assert_eq!(text, "Couldn't create cfg folder: full");
}

#[test]
fn what_is_done_afterwards() {
    let with = |saves: bool, clears: bool| {
        afterwards(&object(vec![
            ("save_backups", Json::Bool(saves)),
            ("clear_events", Json::Bool(clears)),
        ]))
    };
    assert_eq!(with(true, false), (true, false));
    assert_eq!(with(false, true), (false, true));
    assert_eq!(with(true, true), (true, true));
}
