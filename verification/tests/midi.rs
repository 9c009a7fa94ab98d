use exodium::midi::{conf_requests_midi, translate_midi_for_staging, util_zip_wanted};

#[test]
fn configs_that_request_midi() {
    assert!(conf_requests_midi("[midi]\nMidiDevice = mt32\n"));
    assert!(conf_requests_midi("[midi]\nMT32.romdir = .\\mt32\n"));
    assert!(conf_requests_midi("[midi]\nfluid.soundfont = x.sf2\n"));
    assert!(conf_requests_midi("[MT32]\nromdir = x\n"));
    assert!(conf_requests_midi("[FluidSynth]\nsoundfont = x\n"));
    assert!(!conf_requests_midi("[sdl]\nfullscreen = true\n[sblaster]\nirq = 7\n"));
}

#[test]
fn util_zip_queued_for_midi_or_ece_games() {
    let midi = "[midi]\nmididevice = mt32\n";
    assert!(util_zip_wanted(false, Some(midi), false, None, false));
    // Assets already extracted, or the config asks for no MIDI.
    assert!(!util_zip_wanted(true, Some(midi), false, None, false));
    assert!(!util_zip_wanted(false, Some("[sdl]\n"), false, None, false));
    assert!(!util_zip_wanted(false, None, false, None, false));
    // ECE games on Windows need the ECE builds from the same ZIP.
    assert!(util_zip_wanted(true, None, true, Some("ece4230"), false));
    assert!(!util_zip_wanted(true, None, true, Some("ece4230"), true));
    assert!(!util_zip_wanted(true, None, false, Some("ece4230"), false));
    assert!(!util_zip_wanted(true, None, true, Some("staging"), false));
}

#[test]
fn midi_translation_of_crlf_config() {
    let conf = "[midi]\r\nmt32.romdir = /x/mt32\r\nmididevice = mt32\r\n";
    let out = translate_midi_for_staging(conf);
    assert_eq!(out, "[midi]\nmididevice = mt32\n\n[mt32]\nromdir = /x/mt32\n");
}

#[test]
fn translated_config_is_a_midi_config() {
    // Whatever the translation changes, the download side also sees as MIDI.
    for conf in [
        "[midi]\nmididevice = default\n",
        "[midi]\nfluid.soundfont = a.sf2\n",
        "[sdl]\noutput = opengl\n",
    ] {
        if translate_midi_for_staging(conf) != conf {
            assert!(conf_requests_midi(conf));
        }
    }
}

#[test]
fn midi_translation_twice_is_translation_once() {
    for conf in [
        "[sdl]\nfullscreen = true\n[midi]\nmididevice = default\nmt32.romdir = /x/mt32\nfluid.soundfont = /x/sc.sf2\nfluid.gain = 0.4\n[autoexec]\nsq5\n",
        "[midi]\nmididevice = auto\n[mt32]\nromdir = /x\n",
        "[midi]\nMT32.ROMDIR = /x\n",
        "[sdl]\noutput = opengl\n",
        "[midi]\r\nmididevice = default\r\n",
    ] {
        let once = translate_midi_for_staging(conf);
        assert_eq!(translate_midi_for_staging(&once), once);
    }
}

#[test]
fn translated_midi_section_holds_no_ece_keys() {
    let conf = "[sdl]\nfullscreen=true\n[midi]\nmpu401=intelligent\nmididevice = default\nmt32.romdir = /eXo/mt32\nMT32.Reverse.Stereo = true\nfluid.soundfont = /eXo/sf2/gm.sf2\nfluid.gain = 0.5\n[autoexec]\n@echo off\n";
    let out = translate_midi_for_staging(conf);
    let mut section = String::new();
    for line in out.lines() {
        let t = line.trim();
        if t.starts_with('[') {
            section = t.to_lowercase();
            continue;
        }
        if section == "[midi]" {
            if let Some((k, v)) = t.split_once('=') {
                let key = k.trim().to_lowercase();
                assert!(!key.starts_with("mt32."), "{}", line);
                assert!(!key.starts_with("fluid."), "{}", line);
                assert!(!(key == "mididevice" && v.trim().eq_ignore_ascii_case("default")), "{}", line);
            }
        }
    }
    assert!(out.contains("mididevice = auto"));
    assert!(out.contains("[mt32]\nromdir = /eXo/mt32"));
    assert!(out.contains("[fluidsynth]\nsoundfont = /eXo/sf2/gm.sf2"));
}

#[test]
fn translation_adds_no_second_mt32_section() {
    let count = |s: &str, h: &str| s.lines().filter(|l| l.trim().to_lowercase() == h).count();
    // Already has [mt32]: the ECE key is dropped, no second section.
    let conf = "[midi]\nmt32.romdir = /eXo/mt32\n[mt32]\nromdir = /eXo/mt32\n";
    let out = translate_midi_for_staging(conf);
    assert_eq!(count(&out, "[mt32]"), 1);
    assert!(!out.contains("mt32.romdir"));
    // No [mt32] yet: exactly one is added.
    let conf = "[midi]\nmt32.romdir = /eXo/mt32\nfluid.soundfont = /eXo/gm.sf2\n";
    let out = translate_midi_for_staging(conf);
    assert_eq!(count(&out, "[mt32]"), 1);
    assert_eq!(count(&out, "[fluidsynth]"), 1);
    // Translating again adds nothing.
    let again = translate_midi_for_staging(&out);
    assert_eq!(count(&again, "[mt32]"), 1);
    assert_eq!(count(&again, "[fluidsynth]"), 1);
}

#[test]
fn crlf_config_translation_is_clean_and_stable() {
    let conf = "[midi]\r\nmididevice = default\r\nmt32.romdir = C:/eXo/mt32\r\nfluid.gain = 0.5\r\n[mt32]\r\nromdir = C:/eXo/mt32\r\n";
    let out = translate_midi_for_staging(conf);
    let count = |s: &str, h: &str| s.lines().filter(|l| l.trim().to_lowercase() == h).count();
    assert_eq!(count(&out, "[mt32]"), 1);
    assert!(!out.contains("mt32.romdir"));
    assert!(!out.contains("fluid.gain"));
    assert!(out.contains("mididevice = auto"));
    assert_eq!(translate_midi_for_staging(&out), out);
}
