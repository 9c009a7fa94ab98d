use exodium::win9x::{
    conf_dir_of, dosbox_x_overrides, e86box_variant_files, extract_target, find_name_ci,
    interface_from_ip_route, interface_from_route_get, mount_line, mt32_prefixes_exec,
    ne2000_override, parse_zip_mount, rewrite_zip_mounts, support_phase, win9x_engine,
    win9x_network_status, win9x_prefixes_exec, win9x_prompt_needed, win9x_support_dirs,
    win9x_support_ready, zip_mount_lines, zip_mount_path, zip_wrapper_dir, Host, SupportPhase,
    Win9xEngine,
};
use exodium::win9x::{win9x_launch_start, Win9xProbe, Win9xRefusal};

fn names(v: &[&str]) -> Vec<String> {
    v.iter().map(|s| s.to_string()).collect()
}

// ── support files ────────────────────────────────────────────────────────

#[test]
fn support_readiness_by_variant() {
    let (x98, e86) = win9x_support_dirs();
    assert_eq!(x98, "eXo/emulators/dosbox/x98/parent");
    assert_eq!(e86, "eXo/emulators/86Box98/parent");
    assert!(win9x_support_ready(Some("86boxME"), false, true));
    assert!(!win9x_support_ready(Some("86boxME"), true, false));
    assert!(win9x_support_ready(Some("x98"), true, false));
    assert!(win9x_support_ready(None, true, false));
    assert!(!win9x_support_ready(None, false, true));
}

#[test]
fn support_extraction_targets() {
    let p = win9x_prefixes_exec();
    assert_eq!(p, names(&["emulators/dosbox/", "emulators/86box98/"]));
    assert_eq!(
        extract_target("Emulators\\86Box98\\parent\\W98-P.vhd", &p, false),
        Some("Emulators/86Box98/parent/W98-P.vhd".to_string())
    );
    assert_eq!(extract_target("emulators/dosbox/x98/", &p, true), None);
    assert_eq!(extract_target("emulators/dosbox/../../evil.exe", &p, false), None);
    assert_eq!(extract_target("games/foo.exe", &p, false), None);

    let m = mt32_prefixes_exec(false);
    assert_eq!(m, names(&["mt32/"]));
    assert_eq!(extract_target("MT32/CM32L_CONTROL.ROM", &m, false), Some("MT32/CM32L_CONTROL.ROM".to_string()));
    assert_eq!(extract_target("emulators/dosbox/ece4230/DOSBox.exe", &m, false), None);
    let mw = mt32_prefixes_exec(true);
    assert_eq!(
        extract_target("emulators/dosbox/ece4230/DOSBox.exe", &mw, false),
        Some("emulators/dosbox/ece4230/DOSBox.exe".to_string())
    );
}

// ── engines ──────────────────────────────────────────────────────────────

#[test]
fn engines_by_variant() {
    assert!(matches!(win9x_engine(Some("pcbox")), Win9xEngine::PcBox));
    assert!(matches!(win9x_engine(Some("86boxNetHost")), Win9xEngine::Box86));
    assert!(matches!(win9x_engine(Some("x98")), Win9xEngine::DosboxX));
    assert!(matches!(win9x_engine(None), Win9xEngine::DosboxX));
}

#[test]
fn e86box_wiring_per_variant() {
    let f = |v: &str| {
        let (a, b, c) = e86box_variant_files(v);
        (a, b, c)
    };
    assert_eq!(f("86boxME"), ("ME-C.vhd".into(), "ME-P.vhd".into(), "play.cfg".into()));
    assert_eq!(f("86boxNetHost"), ("W98-Host.vhd".into(), "W98-NetHost.vhd".into(), "Host.cfg".into()));
    assert_eq!(f("86boxNetJoin"), ("W98-Join.vhd".into(), "W98-NetJoin.vhd".into(), "Join.cfg".into()));
    assert_eq!(f("86box"), ("W98-C.vhd".into(), "W98-P.vhd".into(), "play.cfg".into()));
}

#[test]
fn launcher_dir_and_case_insensitive_lookup() {
    assert_eq!(
        conf_dir_of("eXo\\eXoWin9x\\!win9x\\1998\\Game\\Game.bat"),
        Some("eXo/eXoWin9x/!win9x/1998/Game".to_string())
    );
    assert_eq!(conf_dir_of("Game.bat"), None);
    let n = names(&["readme.txt", "PLAY.CONF", "play.conf"]);
    assert_eq!(find_name_ci(&n, "play.conf"), Some(1));
    assert_eq!(find_name_ci(&n, "other.conf"), None);
}

// ── ZIP mounts ───────────────────────────────────────────────────────────

#[test]
fn wrapped_zip_mounts_its_inner_directory() {
    // One top-level dir: the game's files sit one level too deep.
    assert_eq!(zip_wrapper_dir(&names(&["CC32/", "CC32/CCHECK11.EXE"])), Some("CC32".to_string()));
    // Files at the zip root are eXo's convention.
    assert_eq!(zip_wrapper_dir(&names(&["license.txt", "MPGDEC.DLL"])), None);
    // Two top-level dirs, or a Windows-style name under another dir.
    assert_eq!(zip_wrapper_dir(&names(&["A/x", "B/y"])), None);
    assert_eq!(zip_wrapper_dir(&names(&["A\\x", "A/y"])), Some("A".to_string()));
    assert_eq!(zip_wrapper_dir(&Vec::new()), None);

    let dir = "/tmp/exodium_zipmount";
    let wrapped = format!("{}/CC32.zip", dir);
    let conf = format!("MOUNT e \"{}\"", wrapped);
    let lines = zip_mount_lines(&conf, dir, false);
    assert_eq!(lines.len(), 1);
    assert_eq!(lines[0].zip_mount, Some(("e".to_string(), wrapped.clone())));
    let inner = format!("{}/CC32.exodium_mount/CC32", dir);
    let out = rewrite_zip_mounts(&lines, &vec![Some(inner)]);
    assert!(out.ends_with("CC32.exodium_mount/CC32\""), "{out}");
    assert_eq!(out, format!("MOUNT e \"{}/CC32.exodium_mount/CC32\"", dir));

    // A ZIP that is not unwrapped keeps its line verbatim.
    let flat = format!("MOUNT e \"{}/MpgDec20.zip\"", dir);
    let lines = zip_mount_lines(&flat, dir, false);
    assert_eq!(rewrite_zip_mounts(&lines, &vec![None]), flat);

    // Non-zip mounts and other lines are never touched.
    let conf = "IMGMOUNT c ./x.vhd\nMOUNT e \"./games\"\nBOOT -l c";
    let lines = zip_mount_lines(conf, dir, false);
    assert!(lines.iter().all(|l| l.zip_mount.is_none()));
    assert_eq!(rewrite_zip_mounts(&lines, &vec![None, None, None]), conf);
}

#[test]
fn zip_mount_parsing() {
    assert_eq!(
        parse_zip_mount("  mount d \"./games/Foo.ZIP\"  "),
        Some(("d".to_string(), "./games/Foo.ZIP".to_string()))
    );
    assert_eq!(parse_zip_mount("MOUNT e ./x.zip"), Some(("e".to_string(), "./x.zip".to_string())));
    assert_eq!(parse_zip_mount("MOUNT e ./games"), None);
    assert_eq!(parse_zip_mount("IMGMOUNT e ./x.zip"), None);
    assert_eq!(parse_zip_mount("MOUNT e"), None);
    assert_eq!(zip_mount_path("./././games/x.zip", "/data/eXo", false), "/data/eXo/games/x.zip");
    assert_eq!(zip_mount_path("/abs/x.zip", "/data/eXo", false), "/abs/x.zip");
    assert_eq!(zip_mount_path("C:\\g\\x.zip", "C:\\exo", true), "C:\\g\\x.zip");
    assert_eq!(zip_mount_path("C:\\g\\x.zip", "/exo", false), "/exo/C:\\g\\x.zip");
    assert_eq!(mount_line("e", "/d/CC32"), "MOUNT e \"/d/CC32\"");
}

// ── networking ───────────────────────────────────────────────────────────

#[test]
fn default_interface_from_route_output() {
    assert_eq!(
        interface_from_ip_route("1.1.1.1 via 192.168.1.1 dev wlp2s0 src 192.168.1.20 uid 1000 \\    cache"),
        Some("wlp2s0".to_string())
    );
    assert_eq!(interface_from_ip_route("unreachable"), None);
    assert_eq!(interface_from_ip_route("1.1.1.1 dev"), None);
    let mac = "   route to: default\ndestination: default\n    gateway: 192.168.1.1\n  interface: en0\n      flags: <UP>\n";
    assert_eq!(interface_from_route_get(mac), Some("en0".to_string()));
    assert_eq!(interface_from_route_get("route: writing to routing socket"), None);
}

#[test]
fn network_backend_fragment() {
    assert_eq!(
        ne2000_override(true, true, Some("eth0")),
        "[ne2000]\nbackend = pcap\n[ethernet, pcap]\nrealnic = eth0\n"
    );
    assert_eq!(ne2000_override(true, true, None), "[ne2000]\nbackend = slirp\n");
    assert_eq!(ne2000_override(true, false, Some("eth0")), "[ne2000]\nbackend = slirp\n");
    assert_eq!(ne2000_override(false, true, Some("eth0")), "");
}

#[test]
fn network_status_per_host() {
    let w = win9x_network_status(Host::Windows, false, false);
    assert!(w.enabled && !w.can_enable && w.manual_hint.is_none());
    let m = win9x_network_status(Host::MacOs, false, false);
    assert!(!m.enabled && m.can_enable && m.manual_hint.is_none());
    let l = win9x_network_status(Host::Linux, false, false);
    assert!(!l.enabled && !l.can_enable);
    assert_eq!(l.manual_hint, Some("sudo setcap cap_net_raw+ep $(which dosbox-x)".to_string()));
    let l = win9x_network_status(Host::Linux, false, true);
    assert!(l.can_enable && l.manual_hint.is_none());
    let l = win9x_network_status(Host::Linux, true, true);
    assert!(l.enabled && !l.can_enable);
    assert_eq!(l.detail, "Multiplayer games can reach eXo's IPX server.");
}

#[test]
fn multiplayer_prompt_conditions() {
    let conf = "IMGMOUNT c .\\parent\\W98-C-NET.vhd";
    assert!(win9x_prompt_needed(false, false, None, true, Some(conf)));
    assert!(!win9x_prompt_needed(true, false, None, true, Some(conf)));
    assert!(!win9x_prompt_needed(false, true, None, true, Some(conf)));
    assert!(!win9x_prompt_needed(false, false, Some("off"), true, Some(conf)));
    assert!(win9x_prompt_needed(false, false, Some("on"), true, Some(conf)));
    assert!(!win9x_prompt_needed(false, false, None, false, Some(conf)));
    assert!(!win9x_prompt_needed(false, false, None, true, Some("IMGMOUNT c W98-C.vhd")));
    assert!(!win9x_prompt_needed(false, false, None, true, None));
}

#[test]
fn dosbox_x_user_fragment() {
    assert_eq!(
        dosbox_x_overrides(true, "[ne2000]\nbackend = slirp\n", Some("  [cpu]\ncycles=max\n")),
        "[sdl]\nfullscreen = true\nwindowresolution = 1024x768\noutput = opengl\n[ne2000]\nbackend = slirp\n\n[cpu]\ncycles=max\n"
    );
    assert_eq!(
        dosbox_x_overrides(false, "", Some("   ")),
        "[sdl]\nfullscreen = false\nwindowresolution = 1024x768\noutput = opengl\n"
    );
}

#[test]
fn support_phases() {
    assert!(matches!(support_phase(false, true, true, true), SupportPhase::Missing));
    assert!(matches!(support_phase(true, true, false, false), SupportPhase::Ready));
    assert!(matches!(support_phase(true, false, true, true), SupportPhase::Downloading));
    assert!(matches!(support_phase(true, false, true, false), SupportPhase::Missing));
    assert!(matches!(support_phase(true, false, false, true), SupportPhase::Missing));
}

// ── watchers, engines, host ──────────────────────────────────────────────

use exodium::win9x::{
    after_extraction, box86_bundled, dosbox_x_bundled, mt32_watch_step, parent_vhd_aliases,
    pick_86box, pick_dosbox_x, rearm_wanted, support_watch_step, user_name_ok, EngineCmd,
    ExtractOutcome, WatchStep,
};

#[test]
fn support_watcher_steps() {
    assert!(matches!(support_watch_step(true, true, true, 10, Some(10)), WatchStep::Stop));
    assert!(matches!(support_watch_step(false, false, true, 10, Some(10)), WatchStep::Stop));
    assert!(matches!(support_watch_step(false, true, true, 0, None), WatchStep::Extract));
    assert!(matches!(support_watch_step(false, true, false, 10, Some(10)), WatchStep::Extract));
    assert!(matches!(support_watch_step(false, true, false, 10, Some(9)), WatchStep::Wait));
    assert!(matches!(support_watch_step(false, true, false, 0, Some(9)), WatchStep::Wait));
    assert!(matches!(support_watch_step(false, true, false, 10, None), WatchStep::Wait));
}

#[test]
fn support_watcher_gives_up_after_three_failures() {
    assert_eq!(after_extraction(0, ExtractOutcome::Failed), (1, false));
    assert_eq!(after_extraction(1, ExtractOutcome::Failed), (2, false));
    assert_eq!(after_extraction(2, ExtractOutcome::Failed), (3, true));
    assert_eq!(after_extraction(1, ExtractOutcome::Extracted), (1, true));
    assert_eq!(after_extraction(0, ExtractOutcome::AlreadyRunning), (0, true));
    assert_eq!(after_extraction(0, ExtractOutcome::Crashed), (0, true));
}

#[test]
fn support_watcher_rearm() {
    assert!(rearm_wanted(false, true, true, false));
    assert!(rearm_wanted(false, true, false, true));
    assert!(!rearm_wanted(false, true, false, false));
    assert!(!rearm_wanted(true, true, true, true));
    assert!(!rearm_wanted(false, false, true, true));
}

#[test]
fn mt32_watcher_steps() {
    assert!(matches!(mt32_watch_step(true, false, false, false, false, false, false), WatchStep::Stop));
    assert!(matches!(mt32_watch_step(true, true, false, false, true, true, false), WatchStep::Wait));
    assert!(matches!(mt32_watch_step(true, true, true, false, true, true, false), WatchStep::Stop));
    assert!(matches!(mt32_watch_step(false, false, false, true, true, true, false), WatchStep::Extract));
    assert!(matches!(mt32_watch_step(false, false, false, true, true, true, true), WatchStep::Stop));
    assert!(matches!(mt32_watch_step(false, false, false, true, false, true, false), WatchStep::Stop));
    assert!(matches!(mt32_watch_step(false, false, false, true, true, false, false), WatchStep::Stop));
    assert!(matches!(mt32_watch_step(false, false, false, false, true, true, false), WatchStep::Wait));
}

fn engine(e: Option<EngineCmd>) -> Option<(bool, String)> {
    e.map(|e| match e {
        EngineCmd::Direct(b) => (true, b),
        EngineCmd::Flatpak(id) => (false, id),
    })
}

#[test]
fn engine_resolution_order() {
    let exo = Some("C:\\d\\eXo\\emulators\\dosbox\\x98\\dosbox-x.exe".to_string());
    let bundled = Some("/res/dosbox-x-bin/dosbox-x.exe".to_string());
    assert_eq!(engine(pick_dosbox_x(Host::Windows, exo.clone(), bundled.clone(), true, false)), Some((true, exo.clone().unwrap())));
    // eXo's own build only counts on Windows.
    assert_eq!(engine(pick_dosbox_x(Host::Linux, exo.clone(), None, false, false)), None);
    assert_eq!(engine(pick_dosbox_x(Host::MacOs, None, bundled.clone(), true, false)), Some((true, bundled.unwrap())));
    assert_eq!(engine(pick_dosbox_x(Host::Linux, None, None, true, true)), Some((true, "dosbox-x".to_string())));
    assert_eq!(
        engine(pick_dosbox_x(Host::Linux, None, None, false, true)),
        Some((false, "com.dosbox_x.DOSBox-X".to_string()))
    );
    assert_eq!(engine(pick_dosbox_x(Host::MacOs, None, None, false, true)), None);
    assert_eq!(engine(pick_86box(Some("/r/86Box".to_string()), true)), Some((true, "/r/86Box".to_string())));
    assert_eq!(engine(pick_86box(None, true)), Some((true, "86Box".to_string())));
    assert_eq!(engine(pick_86box(None, false)), None);
}

#[test]
fn bundled_engine_locations() {
    assert_eq!(dosbox_x_bundled(Host::Windows), Some("dosbox-x-bin/dosbox-x.exe".to_string()));
    assert_eq!(dosbox_x_bundled(Host::MacOs), Some("dosbox-x/dosbox-x.app/Contents/MacOS/dosbox-x".to_string()));
    assert_eq!(dosbox_x_bundled(Host::Linux), None);
    assert_eq!(box86_bundled(Host::Linux), "86box/86Box.AppImage");
    assert_eq!(box86_bundled(Host::Windows), "86box-bin/86Box.exe");
}

#[test]
fn parent_image_aliases() {
    let a = parent_vhd_aliases();
    assert_eq!(a.len(), 5);
    assert_eq!(a[0], ("win98jap.vhd".to_string(), "win98Jap.vhd".to_string()));
    assert_eq!(a[4], ("win98chinese.vhd".to_string(), "Win98Chinese.vhd".to_string()));
}

#[test]
fn user_names_for_the_capture_helper() {
    assert!(user_name_ok("jdoe"));
    assert!(user_name_ok("j.doe-1_x"));
    assert!(user_name_ok("jöns"));
    assert!(!user_name_ok("j doe"));
    assert!(!user_name_ok("a;rm"));
    assert!(!user_name_ok("x'y"));
}

#[test]
fn win9x_launch_checks_come_in_order() {
    let all = Win9xProbe {
        x98_present: true,
        e86box_present: true,
        conf_dir_found: true,
        game_dir_found: true,
        zip_found: false,
    };
    let app = Some("eXo\\eXoWin9x\\!win9x\\1998\\Game (1998)\\Game (1998).bat");
    assert_eq!(win9x_launch_start(Some("pcbox"), app, true, all).err(), Some(Win9xRefusal::NeedsPcBox));
    let no_x98 = Win9xProbe { x98_present: false, ..all };
    assert_eq!(win9x_launch_start(None, app, true, no_x98).err(), Some(Win9xRefusal::SupportMissing));
    // An 86Box game needs only the 86Box tree.
    let r = win9x_launch_start(Some("86box"), app, true, no_x98).ok().unwrap();
    assert!(matches!(r.2, Win9xEngine::Box86));
    assert_eq!(win9x_launch_start(None, None, true, all).err(), Some(Win9xRefusal::NoLauncherPath));
    assert_eq!(win9x_launch_start(None, Some("Game.bat"), true, all).err(), Some(Win9xRefusal::BadLauncherPath));
    let no_conf = Win9xProbe { conf_dir_found: false, ..all };
    assert_eq!(win9x_launch_start(None, app, true, no_conf).err(), Some(Win9xRefusal::ConfDirMissing));
    let no_dir = Win9xProbe { game_dir_found: false, ..all };
    assert_eq!(win9x_launch_start(None, app, true, no_dir).err(), Some(Win9xRefusal::FilesMissing));
    let r = win9x_launch_start(None, app, true, Win9xProbe { zip_found: true, ..no_dir }).ok().unwrap();
    assert_eq!(r.0, "eXo/eXoWin9x/!win9x/1998/Game (1998)");
    assert!(r.1);
    assert!(matches!(r.2, Win9xEngine::DosboxX));
    // Without a shortcode nothing is extracted.
    let r = win9x_launch_start(None, app, false, no_dir).ok().unwrap();
    assert!(!r.1);
}
