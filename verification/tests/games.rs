use exodium::collection_data_dir;
use exodium::midi::translate_midi_for_staging;

// ── translate_midi_for_staging ───────────────────────────────────────────

#[test]
fn midi_translate_converts_ece_keys_to_staging_sections() {
    // Shape of ~1,500 real eXoDOS configs after path rewriting.
    let conf = "[sdl]\nfullscreen = true\n\
                [midi]\nmididevice = mt32\nmpu401 = intelligent\n\
                mt32.romdir = /data/eXo/mt32\n\
                fluid.soundfont = /data/eXo/mt32/SoundCanvas.sf2\n\
                fluid.gain = 0.4\n\
                [autoexec]\nmount c /data/eXo/eXoDOS/SQ5\n";
    let out = translate_midi_for_staging(conf);

    // ECE dotted keys removed from [midi], Staging keys kept.
    assert!(!out.contains("mt32.romdir"));
    assert!(!out.contains("fluid.soundfont"));
    assert!(!out.contains("fluid.gain"));
    assert!(out.contains("mididevice = mt32"));
    assert!(out.contains("mpu401 = intelligent"));

    // Staging sections appended with the captured values.
    assert!(out.contains("[mt32]\nromdir = /data/eXo/mt32"));
    assert!(out.contains("[fluidsynth]\nsoundfont = /data/eXo/mt32/SoundCanvas.sf2"));

    // Autoexec untouched.
    assert!(out.contains("mount c /data/eXo/eXoDOS/SQ5"));
}

#[test]
fn midi_translate_maps_default_device_to_auto() {
    let conf = "[midi]\nmididevice = default\nmt32.romdir = /x/mt32\n";
    let out = translate_midi_for_staging(conf);
    assert!(out.contains("mididevice = auto"));
    assert!(!out.contains("default"));
}

#[test]
fn midi_translate_leaves_staging_native_configs_alone() {
    // Shape of the ~750 Staging-authored eXoDOS configs.
    let conf = "[midi]\nmididevice = auto\n\
                [mt32]\nromdir = /data/eXo/mt32\n\
                [fluidsynth]\nsoundfont = /data/eXo/mt32/SoundCanvas.sf2\n";
    let out = translate_midi_for_staging(conf);
    assert_eq!(out.matches("[mt32]").count(), 1);
    assert_eq!(out.matches("[fluidsynth]").count(), 1);
    assert!(out.contains("romdir = /data/eXo/mt32"));
}

#[test]
fn midi_translate_no_midi_config_is_passthrough() {
    let conf = "[sdl]\nfullscreen = true\n[autoexec]\nrunme.exe\n";
    assert_eq!(translate_midi_for_staging(conf), conf);
}

// ── collection_data_dir ──────────────────────────────────────────────────

#[test]
fn collection_data_dir_exodos_is_root() {
    let dir = collection_data_dir("/data", "eXoDOS");
    assert_eq!(std::path::PathBuf::from(dir), std::path::PathBuf::from("/data"));
}

#[test]
fn collection_data_dir_glp_is_root() {
    let dir = collection_data_dir("/data", "eXoDOS_GLP");
    assert_eq!(std::path::PathBuf::from(dir), std::path::PathBuf::from("/data"));
}

#[test]
fn collection_data_dir_slp_is_root() {
    let dir = collection_data_dir("/data", "eXoDOS_SLP");
    assert_eq!(std::path::PathBuf::from(dir), std::path::PathBuf::from("/data"));
}

// ── patch_dosbox_conf (config text) ──────────────────────────────────────

use exodium::autoexec::{autoexec_has_launch_cmd, lp_autoexec_plan, lp_plan_holds, LaunchCheck};
use exodium::conf::{overlay_dir_name_exec, overlay_passthrough_entries, patch_conf_text, LpConf};
use exodium::lp_launch::{find_lp_launch, DirSnap, EntrySnap, GameDirSnap};

fn entry(name: &str) -> EntrySnap {
    EntrySnap { name: name.to_string(), text: None }
}

fn bat(name: &str, text: &str) -> EntrySnap {
    EntrySnap { name: name.to_string(), text: Some(text.to_string()) }
}

fn dir(name: &str, entries: Vec<EntrySnap>) -> DirSnap {
    DirSnap { name: name.to_string(), entries, run_bat: None }
}

fn game_dir(root: DirSnap) -> GameDirSnap {
    GameDirSnap { root, subdirs: Vec::new() }
}

#[test]
fn patch_dosbox_conf_converts_windows_paths() {
    let working_dir = "/tmp/exodium_work";
    let conf_content = "[sdl]\nfullscreen=false\n[autoexec]\n@mount c .\\eXoDOS\\SQ5\nc:\nSQ5.bat\nexit\n";
    let patched = patch_conf_text(conf_content, working_dir, None, true);
    assert!(!patched.contains('\\'), "no backslashes should remain: {}", patched);
    let abs_prefix = format!("{}/", working_dir);
    assert!(patched.contains(&abs_prefix), "absolute path prefix expected: {}", patched);
    assert_eq!(
        patched,
        "[sdl]\nfullscreen=false\n[autoexec]\n@mount c /tmp/exodium_work/eXoDOS/SQ5\nc:\nSQ5.bat\nexit\n"
    );
}

#[test]
fn patch_dosbox_conf_lp_overlay_direct_mount() {
    let working_dir = "/tmp/w";
    let lp_dir = "/tmp/w/eXoDOS/!german/SQ5";
    let conf_content = "[autoexec]\n@mount c .\\eXoDOS\\SQ5\nc:\nSQ5.bat\nexit\n";

    // The EN launch line runs at the mount root: nothing to check.
    let plan = lp_autoexec_plan(conf_content, "SQ5", lp_dir, "/tmp/w/eXoDOS").unwrap();
    assert!(plan.cd_dirs.is_empty());
    assert!(matches!(plan.launch, LaunchCheck::Trusted));
    assert!(lp_plan_holds(&plan, &[], &Vec::new()));

    let name = overlay_dir_name_exec("!german", "SQ5");
    assert_eq!(name, "german_SQ5");
    let lp = LpConf {
        shortcode: "SQ5".to_string(),
        game_folder: "eXoDOS".to_string(),
        game_dir: lp_dir.to_string(),
        snapshot: game_dir(dir("SQ5", vec![bat("SQ5.BAT", "")])),
        staging: Some(format!("{}/.exodium_lp/{}", working_dir, name)),
    };
    let patched = patch_conf_text(conf_content, working_dir, Some(&lp), true);
    assert!(
        patched.contains(".exodium_lp/german_SQ5"),
        "mount should be routed through the overlay: {}",
        patched
    );
    assert!(patched.contains("SQ5.bat"), "launch command must survive: {}", patched);
    assert!(patched.contains("@mount c /tmp/w/.exodium_lp/german_SQ5/SQ5\n"), "{}", patched);
}

#[test]
fn patch_dosbox_conf_lp_overlay_root_mount_cd() {
    let working_dir = "/tmp/w";
    let lp_dir = "/tmp/w/eXoDOS/!spanish/cobmiss";
    let conf_content = "[autoexec]\n@mount c .\\eXoDOS\\\nc:\ncls\ncd cobmiss\n@cm\nexit\n";

    // cd cobmiss lands in the LP dir, which must hold the program `cm`.
    let plan = lp_autoexec_plan(conf_content, "cobmiss", lp_dir, "/tmp/w/eXoDOS").unwrap();
    assert_eq!(plan.cd_dirs, vec![lp_dir.to_string()]);
    match &plan.launch {
        LaunchCheck::InDir { dir, program } => {
            assert_eq!(dir, lp_dir);
            assert_eq!(program, "cm");
        }
        LaunchCheck::Trusted => panic!("the launch line must be checked"),
    }
    assert!(lp_plan_holds(&plan, &[true], &vec!["CM.EXE".to_string()]));

    let lp = LpConf {
        shortcode: "cobmiss".to_string(),
        game_folder: "eXoDOS".to_string(),
        game_dir: lp_dir.to_string(),
        snapshot: game_dir(dir("cobmiss", vec![entry("CM.EXE")])),
        staging: Some(format!("{}/.exodium_lp/{}", working_dir, overlay_dir_name_exec("!spanish", "cobmiss"))),
    };
    let patched = patch_conf_text(conf_content, working_dir, Some(&lp), true);
    assert!(
        patched.contains(".exodium_lp/spanish_cobmiss"),
        "root mount should be routed through the overlay: {}",
        patched
    );
    assert!(patched.contains("cd cobmiss"), "{}", patched);
    assert!(patched.contains("@cm"), "{}", patched);
}

#[test]
fn patch_dosbox_conf_lp_falls_back_when_exe_renamed() {
    let working_dir = "/tmp/w";
    let lp_dir = "/tmp/w/eXoDOS/!spanish/cobmiss";
    let conf_content = "[autoexec]\n@mount c .\\eXoDOS\\\nc:\ncd cobmiss\n@cm\nexit\n";

    let plan = lp_autoexec_plan(conf_content, "cobmiss", lp_dir, "/tmp/w/eXoDOS").unwrap();
    assert!(!lp_plan_holds(&plan, &[true], &vec!["JUEGO.EXE".to_string()]));

    let lp = LpConf {
        shortcode: "cobmiss".to_string(),
        game_folder: "eXoDOS".to_string(),
        game_dir: lp_dir.to_string(),
        snapshot: game_dir(dir("cobmiss", vec![entry("JUEGO.EXE")])),
        staging: None,
    };
    let patched = patch_conf_text(conf_content, working_dir, Some(&lp), true);
    assert!(
        patched.to_ascii_lowercase().contains("juego.exe"),
        "fallback should launch the real executable: {}",
        patched
    );
    assert!(patched.contains("!spanish/cobmiss"), "fallback mounts the LP dir directly: {}", patched);
    assert_eq!(
        patched,
        "[autoexec]\n@mount c \"/tmp/w/eXoDOS/!spanish/cobmiss\"\nc:\ncls\nJUEGO.EXE\nexit\n"
    );
}

#[test]
fn patch_conf_appends_launch_when_autoexec_has_none() {
    // Every command of the EN autoexec is commented out: the overlay config
    // gets a launch found in the LP dir, after dropping the final `exit`.
    let conf_content = "[autoexec]\nmount c .\\eXoDOS\\\nc:\n#cd foo\n#foo\nexit\n";
    assert!(!autoexec_has_launch_cmd(conf_content));
    let lp = LpConf {
        shortcode: "foo".to_string(),
        game_folder: "eXoDOS".to_string(),
        game_dir: "/w/eXoDOS/!german/foo".to_string(),
        snapshot: game_dir(dir("foo", vec![entry("FOO.COM")])),
        staging: Some("/w/.exodium_lp/german_foo".to_string()),
    };
    let patched = patch_conf_text(conf_content, "/w", Some(&lp), false);
    assert_eq!(
        patched,
        "[autoexec]\nmount c /w/.exodium_lp/german_foo/\nc:\n#cd foo\n#foo\n\ncd foo\ncls\nFOO.COM\nexit\n"
    );
}

#[test]
fn overlay_links_the_other_root_entries_the_autoexec_names() {
    let conf = "[autoexec]\nimgmount d .\\eXoDOS\\CDs\\game.cue -t iso\nmount c .\\eXoDOS\\\ncd sq5\nsq5\n";
    assert_eq!(overlay_passthrough_entries(conf, "eXoDOS", "SQ5"), vec!["CDs".to_string()]);
}

#[test]
fn autoexec_launch_detection() {
    assert!(autoexec_has_launch_cmd("[autoexec]\nmount c .\nc:\ncls\ngame.exe\nexit\n"));
    assert!(!autoexec_has_launch_cmd("[autoexec]\nmount c .\nc:\ncls\nexit\n"));
    assert!(!autoexec_has_launch_cmd("[sdl]\nfullscreen=true\n"));
    // Mounts do not launch anything, with or without a leading `@`.
    assert!(!autoexec_has_launch_cmd("[autoexec]\n@mount c /g\nc:\nexit\n"));
    assert!(!autoexec_has_launch_cmd("[autoexec]\n@imgmount d /g/cd.iso -t iso\n@echo off\n"));
    assert!(autoexec_has_launch_cmd("[autoexec]\n@mount c /g\nc:\n@game\n"));
}

// ── find_lp_launch ───────────────────────────────────────────────────────

#[test]
fn find_lp_launch_parses_run_bat() {
    let mut root = dir("game", vec![entry("sq5.exe"), bat("run.bat", "@call sq5.exe\n")]);
    root.run_bat = Some("@call sq5.exe\n".to_string());
    let result = find_lp_launch(&game_dir(root), None);
    assert!(result.is_some(), "run.bat parsing should find a launch command");
    let (subdir, cmd) = result.unwrap();
    assert_eq!(subdir, "", "game is in root of game_dir");
    assert_eq!(cmd, "sq5.exe");
}

#[test]
fn find_lp_launch_finds_com_file_fallback() {
    let result = find_lp_launch(&game_dir(dir("game", vec![entry("game.com")])), None);
    assert!(result.is_some(), ".com file should be found as fallback");
    let (_, cmd) = result.unwrap();
    assert!(cmd.to_lowercase().ends_with(".com"));
}

#[test]
fn find_lp_launch_returns_none_for_empty_dir() {
    assert!(find_lp_launch(&game_dir(dir("empty", Vec::new())), None).is_none());
}

#[test]
fn find_lp_launch_uses_en_autoexec_command() {
    let root = dir("cobmiss", vec![entry("CM.EXE"), entry("INSTALL.EXE"), entry("DAT.VOL")]);
    let en_conf = "[sdl]\nfullscreen=false\n[autoexec]\n\
                   @mount c .\\eXoDOS\\\nc:\ncls\ncd cobmiss\n@cm\nexit\n";
    let (subdir, cmd) = find_lp_launch(&game_dir(root), Some(en_conf)).unwrap();
    assert_eq!(subdir, "");
    assert_eq!(cmd, "cm");
}

#[test]
fn find_lp_launch_falls_back_to_root_exe() {
    let root = dir("cobmiss", vec![entry("CM.EXE"), entry("INSTALL.EXE")]);
    let (subdir, cmd) = find_lp_launch(&game_dir(root), None).unwrap();
    assert_eq!(subdir, "");
    assert_eq!(cmd.to_ascii_lowercase(), "cm.exe");
}

#[test]
fn find_lp_launch_en_hint_ignores_missing_program() {
    let root = dir("foo", vec![entry("game.com")]);
    let en_conf = "[autoexec]\nmount c .\\eXoDOS\\\nc:\ncd foo\n@other\nexit\n";
    let (_, cmd) = find_lp_launch(&game_dir(root), Some(en_conf)).unwrap();
    assert_eq!(cmd.to_ascii_lowercase(), "game.com");
}

#[test]
fn find_lp_launch_prefers_subdirectory_executable() {
    // No batch files or .com programs: executables in subdirectories are
    // tried before those of the game dir itself, installers skipped.
    let g = GameDirSnap {
        root: dir("game", vec![entry("SETUP.EXE"), entry("ROOT.EXE")]),
        subdirs: vec![dir("GAME", vec![entry("INSTALL.EXE"), entry("PLAY.EXE")])],
    };
    assert_eq!(find_lp_launch(&g, None), Some(("GAME".to_string(), "PLAY.EXE".to_string())));
}

#[test]
fn find_lp_launch_prefers_launcher_batch_named_like_dir() {
    let root = dir(
        "quest",
        vec![
            bat("go.bat", "@echo off\ngo.exe\n"),
            bat("QUEST.BAT", "@echo off\nquest.exe\n"),
            bat("readme.bat", "type readme.exe\n"),
            entry("QUEST.EXE"),
        ],
    );
    assert_eq!(
        find_lp_launch(&game_dir(root), None),
        Some(("".to_string(), "QUEST.BAT".to_string()))
    );
}

#[test]
fn patch_conf_appends_launch_after_at_mounts() {
    // The EN autoexec only mounts (with `@`), switches drive and exits.
    let conf_content = "[autoexec]\n@mount c .\\eXoDOS\\\nc:\nexit\n";
    let lp = LpConf {
        shortcode: "foo".to_string(),
        game_folder: "eXoDOS".to_string(),
        game_dir: "/w/eXoDOS/!german/foo".to_string(),
        snapshot: game_dir(dir("foo", vec![entry("FOO.COM")])),
        staging: Some("/w/.exodium_lp/german_foo".to_string()),
    };
    let patched = patch_conf_text(conf_content, "/w", Some(&lp), false);
    assert_eq!(
        patched,
        "[autoexec]\n@mount c /w/.exodium_lp/german_foo/\nc:\n\ncd foo\ncls\nFOO.COM\nexit\n"
    );
}
