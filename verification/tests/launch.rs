use exodium::collection::{
    collection_game_prefix, collection_inner_folder, collection_lang_dir, game_dir_candidates_exec,
    game_dir_rel_exec, join_path, save_dir_rel, uninstall_plan, zip_candidates_exec, CollectionDef,
    UninstallRefusal,
};
use exodium::launch::{
    conf_shortcode_exec, ece_candidates_exec, game_folder_of, game_settings_from,
    global_overrides_fragment, launch_conf_candidates, launch_zip_candidates_exec, lookup_exec,
    per_game_fragment, settings_updates, working_dir_name, zip_error_is_corrupt_exec, GameSettings,
    SettingUpdate,
};
use exodium::launch::{extraction_refusal, launch_start, LaunchProbe, LaunchRefusal, LaunchStart};

fn cfg(pairs: &[(&str, &str)]) -> Vec<(String, String)> {
    pairs.iter().map(|(k, v)| (k.to_string(), v.to_string())).collect()
}

fn glp() -> CollectionDef {
    CollectionDef {
        inner_folder: "eXoDOS".to_string(),
        game_prefix: "eXo/eXoDOS".to_string(),
        lang_dir: Some("!german".to_string()),
        shortcode_segment: "!dos".to_string(),
        year_subdirs: false,
    }
}

// ── collections ──────────────────────────────────────────────────────────

#[test]
fn collection_layout_with_and_without_definition() {
    let d = glp();
    assert_eq!(collection_inner_folder(Some(&d)), "eXoDOS");
    assert_eq!(collection_game_prefix(Some(&d)), "eXo/eXoDOS");
    assert_eq!(collection_lang_dir(Some(&d)), Some("!german".to_string()));
    // Unknown collections fall back to the eXoDOS layout.
    assert_eq!(collection_inner_folder(None), "eXoDOS");
    assert_eq!(collection_game_prefix(None), "eXo/eXoDOS");
    assert_eq!(collection_lang_dir(None), None);
}

#[test]
fn game_directories_and_zips() {
    assert_eq!(game_dir_rel_exec("eXo/eXoDOS", Some("!german"), "SQ5"), "eXo/eXoDOS/!german/SQ5");
    assert_eq!(game_dir_rel_exec("eXo/eXoDOS", None, "SQ5"), "eXo/eXoDOS/SQ5");
    assert_eq!(
        game_dir_candidates_exec("eXo/eXoDOS", "SQ5"),
        vec![
            "eXo/eXoDOS/SQ5",
            "eXo/eXoDOS/!german/SQ5",
            "eXo/eXoDOS/!polish/SQ5",
            "eXo/eXoDOS/!czech/SQ5",
            "eXo/eXoDOS/!slovak/SQ5",
            "eXo/eXoDOS/!spanish/SQ5",
        ]
    );
    assert_eq!(
        zip_candidates_exec("eXo/eXoDOS", "Space Quest 5 (1991)")[0],
        "eXo/eXoDOS/Space Quest 5 (1991).zip"
    );
    assert_eq!(
        zip_candidates_exec("eXo/eXoDOS", "Space Quest 5 (1991)")[5],
        "eXo/eXoDOS/!spanish/Space Quest 5 (1991).zip"
    );
    assert_eq!(save_dir_rel("eXo/eXoDOS", "SQ5"), "eXo/eXoDOS/!save/SQ5");
}

#[test]
fn path_joining() {
    assert_eq!(join_path("/data", "eXoDOS"), "/data/eXoDOS");
    assert_eq!(join_path("/data/", "eXoDOS"), "/data/eXoDOS");
    assert_eq!(join_path("/data", "/abs"), "/abs");
    assert_eq!(join_path("", "rel"), "rel");
}

// ── configs and working dirs ─────────────────────────────────────────────

#[test]
fn prefix_components() {
    assert_eq!(working_dir_name("eXo/eXoDOS"), "eXo");
    assert_eq!(game_folder_of("eXo/eXoDOS"), "eXoDOS");
    assert_eq!(game_folder_of("eXo"), "eXoDOS");
    assert_eq!(
        conf_shortcode_exec("eXo/eXoDOS/!dos/SQ5/dosbox.conf"),
        Some("SQ5".to_string())
    );
    assert_eq!(conf_shortcode_exec("dosbox.conf"), None);
    assert_eq!(conf_shortcode_exec("eXo/eXoDOS/!dos/SQ5/other.conf"), None);
}

#[test]
fn config_candidates_of_a_language_pack_game() {
    let c = launch_conf_candidates(
        "/data/eXoDOS",
        "/data/eXoDOS",
        "eXo",
        "eXo/eXoDOS/!dos/SQ5/dosbox.conf",
        false,
        "eXo/eXoDOS",
        "!dos",
    );
    // Own, EN, five language dirs under each of the two roots.
    assert_eq!(c.len(), 12);
    assert_eq!(c[0].conf, "/data/eXoDOS/eXo/eXoDOS/!dos/SQ5/dosbox.conf");
    assert_eq!(c[0].working_dir, "/data/eXoDOS/eXo");
    assert_eq!(c[2].conf, "/data/eXoDOS/eXo/eXoDOS/!dos/!german/SQ5/dosbox.conf");
    assert_eq!(c[11].conf, "/data/eXoDOS/eXo/eXoDOS/!dos/!spanish/SQ5/dosbox.conf");
}

#[test]
fn config_candidates_of_an_en_game() {
    let c = launch_conf_candidates("/d/eXoDOS", "/d/eXoDOS", "eXo", "x.conf", true, "eXo/eXoDOS", "!dos");
    assert_eq!(c.len(), 1);
    assert_eq!(c[0].conf, "/d/eXoDOS/x.conf");
}

#[test]
fn zip_locations_and_errors() {
    assert_eq!(
        launch_zip_candidates_exec("eXo/eXoDOS", Some("!german"), "Game"),
        vec!["eXo/eXoDOS/!german/Game.zip", "eXo/eXoDOS/Game.zip"]
    );
    assert_eq!(launch_zip_candidates_exec("eXo/eXoDOS", None, "Game"), vec!["eXo/eXoDOS/Game.zip"]);
    assert!(zip_error_is_corrupt_exec("invalid Zip archive: Could not find EOCD"));
    assert!(zip_error_is_corrupt_exec("Invalid archive"));
    assert!(!zip_error_is_corrupt_exec("permission denied"));
}

#[test]
fn ece_builds_tried_on_windows() {
    assert_eq!(
        ece_candidates_exec("/d/eXoDOS", "ece4460"),
        vec![
            "/d/eXoDOS/eXo/emulators/dosbox/ece4460/DOSBox.exe",
            "/d/eXoDOS/eXo/emulators/dosbox/ece4230/DOSBox.exe",
        ]
    );
}

// ── overrides and settings ───────────────────────────────────────────────

#[test]
fn global_override_fragments() {
    assert_eq!(
        global_overrides_fragment(false, true, false),
        "[sdl]\nfullscreen = false\n[render]\nglshader = crt-auto\n"
    );
    assert_eq!(
        global_overrides_fragment(false, false, true),
        "[sdl]\nfullscreen = true\n[render]\nglshader = sharp\n"
    );
    assert_eq!(global_overrides_fragment(true, true, true), "[sdl]\nfullscreen = true\n");
}

#[test]
fn per_game_override_fragment() {
    let c = cfg(&[
        ("fullscreen", "true"),
        ("glshader", "default"),
        ("cycles", "max"),
        ("custom_conf", "  [sblaster]\nirq=5 \n"),
    ]);
    assert_eq!(
        per_game_fragment(&c, false),
        "[sdl]\nfullscreen = true\n[cpu]\ncycles = max\n\n[sblaster]\nirq=5\n"
    );
    let c = cfg(&[("glshader", "crt-auto"), ("custom_conf", "   ")]);
    assert_eq!(per_game_fragment(&c, false), "[render]\nglshader = crt-auto\n");
    assert_eq!(per_game_fragment(&Vec::new(), false), "");
    // DOSBox ECE has no shader setting: the per-game shader is left out.
    assert_eq!(per_game_fragment(&c, true), "");
    let c = cfg(&[("glshader", "crt-auto"), ("cycles", "max")]);
    assert_eq!(per_game_fragment(&c, true), "[cpu]\ncycles = max\n");
}

#[test]
fn settings_read_from_config() {
    let c = cfg(&[("glshader", "crt-auto"), ("cycles", "max"), ("other", "x")]);
    assert_eq!(lookup_exec(&c, "cycles"), Some("max".to_string()));
    assert_eq!(lookup_exec(&c, "fullscreen"), None);
    let s = game_settings_from(&c);
    assert_eq!(s.glshader, Some("crt-auto".to_string()));
    assert_eq!(s.fullscreen, None);
    assert_eq!(s.cycles, Some("max".to_string()));
    assert_eq!(s.custom_conf, None);
}

fn apply(store: &mut Vec<(String, String)>, ups: Vec<SettingUpdate>) {
    for u in ups {
        match u {
            SettingUpdate::Store { key, value } => {
                store.retain(|(k, _)| *k != key);
                store.push((key, value));
            }
            SettingUpdate::Remove { key } => store.retain(|(k, _)| *k != key),
        }
    }
}

#[test]
fn saved_settings_read_back() {
    let s = GameSettings {
        glshader: Some("sharp".to_string()),
        fullscreen: Some(String::new()),
        cycles: None,
        custom_conf: Some("[cpu]\ncore=dynamic".to_string()),
    };
    let ups = settings_updates(&s);
    assert_eq!(ups.len(), 4);
    assert!(matches!(&ups[0], SettingUpdate::Store { key, value } if key == "glshader" && value == "sharp"));
    assert!(matches!(&ups[1], SettingUpdate::Remove { key } if key == "fullscreen"));
    assert!(matches!(&ups[2], SettingUpdate::Remove { key } if key == "cycles"));
    assert!(matches!(&ups[3], SettingUpdate::Store { key, .. } if key == "custom_conf"));

    let mut store = cfg(&[("fullscreen", "true"), ("cycles", "3000"), ("glshader", "crt-auto")]);
    apply(&mut store, ups);
    let back = game_settings_from(&store);
    assert_eq!(back.glshader, Some("sharp".to_string()));
    assert_eq!(back.fullscreen, None);
    assert_eq!(back.cycles, None);
    assert_eq!(back.custom_conf, Some("[cpu]\ncore=dynamic".to_string()));
}

// ── DOSBox Staging on the host ───────────────────────────────────────────

use exodium::launch::{dosbox_bin_name_exec, dosbox_candidates_exec, user_shader_dir};
use exodium::win9x::Host;

#[test]
fn dosbox_staging_locations() {
    assert_eq!(dosbox_bin_name_exec(true), "dosbox-staging.exe");
    assert_eq!(dosbox_bin_name_exec(false), "dosbox-staging");
    assert_eq!(
        dosbox_candidates_exec(Some("/res"), Some("/app/bin"), false),
        vec![
            "/res/dosbox-bin/dosbox-staging",
            "/res/resources/dosbox-bin/dosbox-staging",
            "/app/bin/dosbox-staging",
            "/res/dosbox-staging",
        ]
    );
    assert_eq!(dosbox_candidates_exec(None, Some("/app"), true), vec!["/app/dosbox-staging.exe"]);
    assert!(dosbox_candidates_exec(None, None, false).is_empty());
}

#[test]
fn shader_dir_per_host() {
    assert_eq!(
        user_shader_dir(Host::Linux, Some("/xdg"), Some("/home/u"), None),
        Some("/xdg/dosbox/glshaders".to_string())
    );
    assert_eq!(
        user_shader_dir(Host::Linux, None, Some("/home/u"), None),
        Some("/home/u/.config/dosbox/glshaders".to_string())
    );
    assert_eq!(user_shader_dir(Host::Linux, None, None, Some("x")), None);
    assert_eq!(
        user_shader_dir(Host::MacOs, None, Some("/Users/u"), None),
        Some("/Users/u/Library/Preferences/DOSBox/glshaders".to_string())
    );
    assert_eq!(
        user_shader_dir(Host::Windows, None, None, Some("C:/Users/u/AppData/Local")),
        Some("C:/Users/u/AppData/Local/DOSBox/glshaders".to_string())
    );
    assert_eq!(user_shader_dir(Host::Windows, None, Some("/h"), None), None);
}

// ── saves ────────────────────────────────────────────────────────────────

use exodium::collection::save_restore_plan;
use exodium::conf::patch_conf_text;

#[test]
fn saves_backed_up_on_uninstall_are_restored() {
    let root = "/data/eXoDOS";
    let backup = format!("{}/{}", root, save_dir_rel("eXo/eXoDOS", "SQ5"));
    // EN: the ZIP extracts at the collection prefix.
    let (game_dir, candidates) = save_restore_plan("/data/eXoDOS/eXo/eXoDOS", Some("/data/eXoDOS/eXo"), "SQ5/SQ5.EXE");
    assert_eq!(game_dir, "/data/eXoDOS/eXo/eXoDOS/SQ5");
    assert_eq!(candidates[0], backup);
    // LP: the ZIP extracts into the language dir; the backup is the second place.
    let (game_dir, candidates) =
        save_restore_plan("/data/eXoDOS/eXo/eXoDOS/!german", Some("/data/eXoDOS/eXo/eXoDOS"), "SQ5/");
    assert_eq!(game_dir, "/data/eXoDOS/eXo/eXoDOS/!german/SQ5");
    assert_eq!(candidates, vec!["/data/eXoDOS/eXo/eXoDOS/!german/!save/SQ5".to_string(), backup]);
    // A destination without a parent has one place to look.
    let (_, candidates) = save_restore_plan("games", None, "X/a");
    assert_eq!(candidates, vec!["games/!save/X".to_string()]);
}

#[test]
fn en_configs_without_windows_paths_run_verbatim() {
    let conf = "[sdl]\nfullscreen=true\n[autoexec]\nmount c /games/sq5\nc:\nsq5\n";
    assert_eq!(patch_conf_text(conf, "/w", None, false), conf);
    assert_eq!(patch_conf_text(conf, "/w", None, true), conf);
    let with_paths = "[autoexec]\nmount c .\\games\\sq5\n[midi]\nmt32.romdir = .\\mt32\n";
    let out = patch_conf_text(with_paths, "C:\\w", None, true);
    assert!(!out.contains('\\'), "{}", out);
    assert!(out.contains("[mt32]\nromdir = C:/w/mt32"), "{}", out);
}

#[test]
fn catalogue_paging_defaults() {
    assert_eq!(exodium::collection::game_page(None, None), (1, 50));
    assert_eq!(exodium::collection::game_page(Some(3), Some(20)), (3, 20));
    assert_eq!(exodium::collection::game_page(Some(2), Some(50_000)), (2, 10_000));
}

#[test]
fn content_pack_compatibility() {
    let p = exodium::manifest::ContentPackInfo {
        display_name: "Posters".to_string(),
        description: String::new(),
        url: String::new(),
        sha256: String::new(),
        size_bytes: 1,
        version: 5,
        install_path: "posters".to_string(),
        supersedes: Vec::new(),
        min_compatible_version: 3,
        torrent_file_path: None,
    };
    assert!(!p.keeps_installed(2));
    assert!(p.keeps_installed(3));
    assert!(p.keeps_installed(4));
    assert!(p.keeps_installed(5));
}

// ── `-conf` arguments ────────────────────────────────────────────────────

use exodium::launch::{dosbox_x_conf_args, staging_conf_args};

#[test]
fn staging_conf_order() {
    assert_eq!(
        staging_conf_args("/w/.exodium_launch.conf", Some("/o.conf"), true, false, "/d/tex.conf", "/d/g.conf", "/d/game_7.conf", "[cpu]\ncycles = max\n"),
        vec!["/w/.exodium_launch.conf", "/o.conf", "/d/tex.conf", "/d/g.conf", "/d/game_7.conf"]
    );
    assert_eq!(
        staging_conf_args("/p", None, true, true, "/t", "/g", "/pg", ""),
        vec!["/p", "/g"]
    );
    assert_eq!(
        staging_conf_args("/p", None, false, false, "/t", "/g", "/pg", "x"),
        vec!["/p", "/g", "/pg"]
    );
}

#[test]
fn dosbox_x_conf_order() {
    assert_eq!(
        dosbox_x_conf_args(false, Some("/b.conf"), "/play.conf", Some("/o9x.conf"), "/ov.conf"),
        vec!["/b.conf", "/play.conf", "/o9x.conf", "/ov.conf"]
    );
    assert_eq!(
        dosbox_x_conf_args(true, Some("/b.conf"), "/play.conf", None, "/ov.conf"),
        vec!["/play.conf", "/ov.conf"]
    );
}

#[test]
fn uninstall_plan_refusals_and_paths() {
    assert_eq!(
        uninstall_plan(false, false, Some("SQ5"), "eXo/eXoDOS", "Space Quest 5 (1991)").err(),
        Some(UninstallRefusal::NotInstalled)
    );
    assert_eq!(
        uninstall_plan(false, true, None, "eXo/eXoDOS", "Space Quest 5 (1991)").err(),
        Some(UninstallRefusal::NoShortcode)
    );
    // Not installed, but in the library (a download in progress): planned.
    let p = uninstall_plan(false, true, Some("SQ5"), "eXo/eXoDOS", "Space Quest 5 (1991)").ok().unwrap();
    assert_eq!(p.game_dirs[0], "eXo/eXoDOS/SQ5");
    assert_eq!(p.game_dirs[1], "eXo/eXoDOS/!german/SQ5");
    assert_eq!(p.game_dirs.len(), 6);
    assert_eq!(p.save_dir, "eXo/eXoDOS/!save/SQ5");
    assert_eq!(p.zips[0], "eXo/eXoDOS/Space Quest 5 (1991).zip");
    assert_eq!(p.zips[5], "eXo/eXoDOS/!spanish/Space Quest 5 (1991).zip");
    let p = uninstall_plan(true, false, Some("SQ5"), "eXo/eXoDOS", "SQ5").ok().unwrap();
    assert_eq!(p.save_dir, "eXo/eXoDOS/!save/SQ5");
}

#[test]
fn launch_checks_come_in_order() {
    let all = LaunchProbe { conf_found: true, working_dir_found: true, game_dir_found: true, zip_found: None };
    let none = LaunchProbe { conf_found: false, working_dir_found: false, game_dir_found: false, zip_found: None };
    assert_eq!(launch_start(false, true, true, all), Err(LaunchRefusal::NotInstalled));
    assert_eq!(launch_start(true, false, true, none), Err(LaunchRefusal::NoConfig));
    assert_eq!(launch_start(true, true, true, none), Err(LaunchRefusal::ConfigNotFound));
    let no_wd = LaunchProbe { working_dir_found: false, ..all };
    assert_eq!(launch_start(true, true, true, no_wd), Err(LaunchRefusal::WorkingDirMissing));
    assert_eq!(launch_start(true, true, true, all), Ok(LaunchStart::Run));
    let no_dir = LaunchProbe { game_dir_found: false, ..all };
    assert_eq!(launch_start(true, true, true, no_dir), Err(LaunchRefusal::FilesMissing));
    // Without a shortcode nothing is extracted.
    assert_eq!(launch_start(true, true, false, no_dir), Ok(LaunchStart::Run));
    let zip = LaunchProbe { zip_found: Some(1), ..no_dir };
    assert_eq!(launch_start(true, true, true, zip), Ok(LaunchStart::ExtractFirst(1)));
}

#[test]
fn extraction_errors_before_launch() {
    assert_eq!(extraction_refusal(None), None);
    assert_eq!(
        extraction_refusal(Some("invalid Zip archive: Could not find EOCD")),
        Some(LaunchRefusal::CorruptZip)
    );
    assert_eq!(extraction_refusal(Some("Permission denied")), Some(LaunchRefusal::ExtractFailed));
}
