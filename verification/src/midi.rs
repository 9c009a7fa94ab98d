//! DOSBox-ECE → DOSBox Staging translation of the `[midi]` settings.
use vstd::prelude::*;
use crate::text::{
    lacks, lemma_join_lacks, lemma_lacks_concat, lemma_lacks_contains, lemma_lacks_subrange,
    lemma_lines_lack, lemma_trim_lacks, trim_end, trim_start, chars_of, contains, copy_chars, contains_str, eq_str, find_from, find_from_exec, join, join_exec,
    lemma_find_from_bounds, lines, lines_exec, lower, lower_exec, push_all, slice_of,
    starts_with, starts_with_exec, starts_with_str, string_of, strip_cr, trim, trim_exec, views,
};

verus! {

/// State of the line-by-line scan of a config.
pub struct MidiScan {
    /// Lower-cased header of the section the scan is in (`[midi]`, ...).
    pub section: Seq<char>,
    /// Last `mt32.romdir` value seen in `[midi]`.
    pub romdir: Option<Seq<char>>,
    /// Last `fluid.soundfont` value seen in `[midi]`.
    pub soundfont: Option<Seq<char>>,
    /// Output lines so far.
    pub out: Seq<Seq<char>>,
}

/// One line of the scan: section headers switch the section, ECE keys in
/// `[midi]` are captured and dropped, `mididevice = default` becomes `auto`,
/// everything else is copied verbatim.
pub open spec fn midi_line(st: MidiScan, line: Seq<char>) -> MidiScan {
    let t = trim(line);
    if starts_with(t, "["@) {
        MidiScan { section: lower(t), out: st.out.push(line), ..st }
    } else if st.section == "[midi]"@ && !starts_with(t, "#"@) && find_from(t, "="@, 0) is Some {
        let i = find_from(t, "="@, 0)->0;
        let key = lower(trim(t.take(i)));
        let value = trim(t.skip(i + 1));
        if key == "mt32.romdir"@ {
            MidiScan { romdir: Some(value), ..st }
        } else if key == "fluid.soundfont"@ {
            MidiScan { soundfont: Some(value), ..st }
        } else if starts_with(key, "mt32."@) || starts_with(key, "fluid."@) {
            st
        } else if key == "mididevice"@ && lower(value) == lower("default"@) {
            MidiScan { out: st.out.push("mididevice = auto"@), ..st }
        } else {
            MidiScan { out: st.out.push(line), ..st }
        }
    } else {
        MidiScan { out: st.out.push(line), ..st }
    }
}

/// The scan over a sequence of lines, from the first to the last.
pub open spec fn midi_scan(ls: Seq<Seq<char>>) -> MidiScan
    decreases ls.len(),
{
    if ls.len() == 0 {
        MidiScan { section: seq![], romdir: None, soundfont: None, out: seq![] }
    } else {
        midi_line(midi_scan(ls.drop_last()), ls.last())
    }
}

/// Some line of `ls`, trimmed, is exactly `header`.
pub open spec fn has_header_line(ls: Seq<Seq<char>>, header: Seq<char>) -> bool {
    exists|i: int| 0 <= i < ls.len() && #[trigger] trim(ls[i]) == header
}

/// The config mentions ECE-style keys or a MIDI device at all.
pub open spec fn mentions_midi(conf: Seq<char>) -> bool {
    let lw = lower(conf);
    contains(lw, "mt32."@) || contains(lw, "fluid."@) || contains(lw, "mididevice"@)
}

/// A Staging section `[header]` with `key = value`, preceded by a blank line.
pub open spec fn section_lines(header: Seq<char>, key: Seq<char>, value: Seq<char>) -> Seq<
    Seq<char>,
> {
    seq![seq![], header, key + value]
}

/// The lines a config that mentions MIDI settings is translated to: the
/// scanned lines, then an `[mt32]` section for a captured `mt32.romdir`
/// and a `[fluidsynth]` section for a captured `fluid.soundfont`, each only
/// when the config has no such section yet.
pub open spec fn translated_lines(conf: Seq<char>) -> Seq<Seq<char>> {
    let lls = lines(lower(conf));
    let st = midi_scan(lines(conf));
    let with_mt32 = if !has_header_line(lls, "[mt32]"@) && st.romdir is Some {
        st.out + section_lines("[mt32]"@, "romdir = "@, st.romdir->0)
    } else {
        st.out
    };
    if !has_header_line(lls, "[fluidsynth]"@) && st.soundfont is Some {
        with_mt32 + section_lines("[fluidsynth]"@, "soundfont = "@, st.soundfont->0)
    } else {
        with_mt32
    }
}

/// What `translate_midi_for_staging` returns for `conf`.
pub open spec fn translate_midi(conf: Seq<char>) -> Seq<char> {
    if !mentions_midi(conf) {
        conf
    } else {
        join(translated_lines(conf), "\n"@) + "\n"@
    }
}

pub open spec fn opt_view(o: Option<Vec<char>>) -> Option<Seq<char>> {
    match o {
        Some(v) => Some(v@),
        None => None,
    }
}

/// Does some line of `ls`, trimmed, equal the literal `header`?
fn has_header_line_exec(ls: &Vec<Vec<char>>, header: &str) -> (r: bool)
    ensures
        r == has_header_line(views(ls@), header@),
{
    let mut i: usize = 0;
    while i < ls.len()
        invariant
            i <= ls@.len(),
            forall|k: int| 0 <= k < i ==> trim(#[trigger] views(ls@)[k]) != header@,
        decreases ls.len() - i,
    {
        let t = trim_exec(&ls[i]);
        if eq_str(&t, header) {
            assert(trim(views(ls@)[i as int]) == header@);
            return true;
        }
        i += 1;
    }
    false
}

/// `key = value` line with the given literal key prefix.
fn key_value_line(key: &str, value: &[char]) -> (r: Vec<char>)
    ensures
        r@ == key@ + value@,
{
    let mut r = chars_of(key);
    push_all(&mut r, value);
    r
}

/// Translate DOSBox-ECE MIDI settings to their DOSBox Staging equivalents.
///
/// eXoDOS configs written for ECE carry dotted keys in `[midi]`
/// (`mt32.romdir`, `fluid.soundfont`, `fluid.*`) that Staging ignores. This
/// captures the two path values, drops every dotted key, maps
/// `mididevice = default` to `auto`, and appends Staging's `[mt32]` /
/// `[fluidsynth]` sections unless the config already has them. A config that
/// mentions none of these keys is returned unchanged.
pub fn translate_midi_for_staging(conf: &str) -> (r: String)
    ensures
        r@ == translate_midi(conf@),
{
    let cv = chars_of(conf);
    let lw = lower_exec(&cv);
    let has_ece = contains_str(&lw, "mt32.") || contains_str(&lw, "fluid.");
    let has_dev = contains_str(&lw, "mididevice");
    if !has_ece && !has_dev {
        return conf.to_string();
    }
    let llines = lines_exec(&lw);
    let has_mt32 = has_header_line_exec(&llines, "[mt32]");
    let has_fluid = has_header_line_exec(&llines, "[fluidsynth]");

    let ls = lines_exec(&cv);
    let mut section: Vec<char> = Vec::new();
    let mut romdir: Option<Vec<char>> = None;
    let mut soundfont: Option<Vec<char>> = None;
    let mut out: Vec<Vec<char>> = Vec::new();
    let eq = chars_of("=");
    let mut i: usize = 0;
    while i < ls.len()
        invariant
            i <= ls@.len(),
            eq@ == "="@,
            ({
                let st = midi_scan(views(ls@).take(i as int));
                &&& st.section == section@
                &&& st.romdir == opt_view(romdir)
                &&& st.soundfont == opt_view(soundfont)
                &&& st.out == views(out@)
            }),
        decreases ls.len() - i,
    {
        let ghost prev = midi_scan(views(ls@).take(i as int));
        proof {
            assert(views(ls@).take(i + 1).drop_last() =~= views(ls@).take(i as int));
        }
        let line = &ls[i];
        let t = trim_exec(line);
        let tlen = t.len();
        let ghost before = out@;
        if starts_with_str(&t, "[") {
            section = lower_exec(&t);
            out.push(copy_chars(line));
            assert(views(out@) =~= views(before).push(line@));
        } else if eq_str(&section, "[midi]") && !starts_with_str(&t, "#") {
            match find_from_exec(&t, &eq, 0) {
                None => {
                    out.push(copy_chars(line));
                    assert(views(out@) =~= views(before).push(line@));
                },
                Some(k) => {
                    proof {
                        lemma_find_from_bounds(t@, eq@, 0);
                    }
                    let kt = slice_of(&t, 0, k);
                    let kt = trim_exec(&kt);
                    let key = lower_exec(&kt);
                    let vt = slice_of(&t, k + 1, tlen);
                    let value = trim_exec(&vt);
                    assert(kt@ == trim(t@.take(k as int))) by {
                        assert(t@.subrange(0, k as int) =~= t@.take(k as int));
                    }
                    assert(vt@ =~= t@.skip(k + 1));
                    if eq_str(&key, "mt32.romdir") {
                        romdir = Some(value);
                    } else if eq_str(&key, "fluid.soundfont") {
                        soundfont = Some(value);
                    } else if starts_with_str(&key, "mt32.") || starts_with_str(&key, "fluid.") {
                    } else if eq_str(&key, "mididevice") && {
                        let lv = lower_exec(&value);
                        let dflt = chars_of("default");
                        let ld = lower_exec(&dflt);
                        lv.len() == ld.len() && starts_with_exec(&lv, &ld) && {
                            proof {
                                assert(lv@ =~= lv@.take(ld@.len() as int));
                            }
                            true
                        }
                    } {
                        out.push(chars_of("mididevice = auto"));
                        assert(views(out@) =~= views(before).push("mididevice = auto"@));
                    } else {
                        proof {
                            if key@ == "mididevice"@ && lower(value@) == lower("default"@) {
                                assert(lower(value@).take(lower("default"@).len() as int)
                                    =~= lower(value@));
                            }
                        }
                        out.push(copy_chars(line));
                        assert(views(out@) =~= views(before).push(line@));
                    }
                },
            }
        } else {
            out.push(copy_chars(line));
            assert(views(out@) =~= views(before).push(line@));
        }
        i += 1;
    }
    assert(views(ls@).take(ls@.len() as int) =~= views(ls@));

    let ghost out_scan = views(out@);
    if !has_mt32 {
        if let Some(dir) = &romdir {
            let ghost before = out@;
            out.push(Vec::new());
            out.push(chars_of("[mt32]"));
            out.push(key_value_line("romdir = ", dir));
            assert(views(out@) =~= views(before) + section_lines(
                "[mt32]"@,
                "romdir = "@,
                dir@,
            ));
        }
    }
    let ghost out_mt32 = views(out@);
    if !has_fluid {
        if let Some(sf) = &soundfont {
            let ghost before = out@;
            out.push(Vec::new());
            out.push(chars_of("[fluidsynth]"));
            out.push(key_value_line("soundfont = ", sf));
            assert(views(out@) =~= views(before) + section_lines(
                "[fluidsynth]"@,
                "soundfont = "@,
                sf@,
            ));
        }
    }
    let nl = chars_of("\n");
    let mut result = join_exec(&out, &nl);
    push_all(&mut result, &nl);
    string_of(&result)
}

/// The config asks for MIDI music (MT-32 or General MIDI): its lower-cased
/// text mentions a MIDI device, an MT-32 or FluidSynth key, or one of their
/// sections.
pub open spec fn requests_midi(conf: Seq<char>) -> bool {
    let lw = lower(conf);
    ||| contains(lw, "mididevice"@)
    ||| contains(lw, "mt32."@)
    ||| contains(lw, "fluid."@)
    ||| contains(lw, "[mt32]"@)
    ||| contains(lw, "[fluidsynth]"@)
}

/// Does this game config ask for MIDI music? (See `requests_midi`.)
pub fn conf_requests_midi(conf: &str) -> (r: bool)
    ensures
        r == requests_midi(conf@),
{
    let lw = lower_exec(&chars_of(conf));
    contains_str(&lw, "mididevice") || contains_str(&lw, "mt32.") || contains_str(&lw, "fluid.")
        || contains_str(&lw, "[mt32]") || contains_str(&lw, "[fluidsynth]")
}

/// A config that mentions no MIDI device and no MT-32 or FluidSynth key comes
/// out of the translation unchanged.
pub proof fn translate_midi_passthrough(conf: Seq<char>)
    requires
        !mentions_midi(conf),
    ensures
        translate_midi(conf) == conf,
{
}

/// Every config whose translation changes it asks for MIDI music, so the
/// download decision and the launch-time translation agree.
pub proof fn translated_configs_request_midi(conf: Seq<char>)
    requires
        translate_midi(conf) != conf,
    ensures
        requests_midi(conf),
{
}

/// Whether queueing a game also queues `util.zip`: its config asks for
/// MIDI music (`conf` is `None` when there is none or it cannot be read)
/// and the MT-32 assets are not extracted yet, or, on Windows, it is a
/// DOSBox ECE game and the ECE builds are not there yet.
pub open spec fn util_zip_wanted_spec(
    mt32_present: bool,
    conf: Option<Seq<char>>,
    windows: bool,
    variant: Option<Seq<char>>,
    ece_present: bool,
) -> bool {
    let midi = !mt32_present && match conf {
        Some(c) => requests_midi(c),
        None => false,
    };
    let ece = windows && crate::launch::is_ece_variant(variant) && !ece_present;
    midi || ece
}

/// Does queueing this game also queue `util.zip` (see `util_zip_wanted_spec`)?
pub fn util_zip_wanted(
    mt32_present: bool,
    conf: Option<&str>,
    windows: bool,
    variant: Option<&str>,
    ece_present: bool,
) -> (r: bool)
    ensures
        r == util_zip_wanted_spec(
            mt32_present,
            match conf {
                Some(c) => Some(c@),
                None => None,
            },
            windows,
            match variant {
                Some(v) => Some(v@),
                None => None,
            },
            ece_present,
        ),
{
    let midi = !mt32_present && match conf {
        Some(c) => conf_requests_midi(c),
        None => false,
    };
    let ece = windows && match variant {
        Some(v) => starts_with_str(&chars_of(v), "ece"),
        None => false,
    } && !ece_present;
    midi || ece
}

/// The scan of lines lacking `c` outputs only lines lacking `c` and
/// captures only values lacking it, when the one line the scan writes
/// itself lacks `c` too.
proof fn lemma_scan_lacks(ls: Seq<Seq<char>>, c: char)
    requires
        forall|i: int| 0 <= i < ls.len() ==> lacks(#[trigger] ls[i], c),
        lacks("mididevice = auto"@, c),
    ensures
        forall|i: int| 0 <= i < midi_scan(ls).out.len() ==> lacks(#[trigger] midi_scan(ls).out[i], c),
        midi_scan(ls).romdir matches Some(v) ==> lacks(v, c),
        midi_scan(ls).soundfont matches Some(v) ==> lacks(v, c),
    decreases ls.len(),
{
    if ls.len() > 0 {
        let init = ls.drop_last();
        assert forall|i: int| 0 <= i < init.len() implies lacks(#[trigger] init[i], c) by {
            assert(init[i] == ls[i]);
        }
        lemma_scan_lacks(init, c);
        let st = midi_scan(init);
        let line = ls.last();
        assert(lacks(line, c));
        let t = trim(line);
        lemma_trim_lacks(line, c);
        lemma_find_from_bounds(t, "="@, 0);
        if let Some(k) = find_from(t, "="@, 0) {
            reveal_strlit("=");
            lemma_lacks_subrange(t, c, k + 1, t.len() as int);
            assert(t.skip(k + 1) =~= t.subrange(k + 1, t.len() as int));
            lemma_trim_lacks(t.skip(k + 1), c);
        }
        let next = midi_line(st, line);
        assert(midi_scan(ls) == next);
        assert forall|i: int| 0 <= i < next.out.len() implies lacks(#[trigger] next.out[i], c) by {
            if i < st.out.len() {
                assert(next.out[i] == st.out[i] || next.out == st.out);
            }
        }
    }
}

/// `l` ends with a carriage return.
pub open spec fn ends_with_cr(l: Seq<char>) -> bool {
    l.len() > 0 && l.last() == '\r'
}

proof fn lemma_trim_end_last(s: Seq<char>)
    ensures
        trim_end(s).len() > 0 ==> !crate::text::is_ws(trim_end(s).last()),
    decreases s.len(),
{
    if s.len() > 0 && crate::text::is_ws(s.last()) {
        lemma_trim_end_last(s.drop_last());
    }
}

/// No line the scan writes or value it captures ends with a carriage
/// return when no scanned line does.
proof fn lemma_scan_cr_end(ls: Seq<Seq<char>>)
    requires
        forall|i: int| 0 <= i < ls.len() ==> !ends_with_cr(#[trigger] ls[i]),
    ensures
        forall|i: int| 0 <= i < midi_scan(ls).out.len() ==> !ends_with_cr(#[trigger] midi_scan(ls).out[i]),
        midi_scan(ls).romdir matches Some(v) ==> v.len() == 0 || !crate::text::is_ws(v.last()),
        midi_scan(ls).soundfont matches Some(v) ==> v.len() == 0 || !crate::text::is_ws(v.last()),
    decreases ls.len(),
{
    if ls.len() > 0 {
        let init = ls.drop_last();
        assert forall|i: int| 0 <= i < init.len() implies !ends_with_cr(#[trigger] init[i]) by {
            assert(init[i] == ls[i]);
        }
        lemma_scan_cr_end(init);
        let st = midi_scan(init);
        let line = ls.last();
        assert(!ends_with_cr(line));
        let t = trim(line);
        if let Some(k) = find_from(t, "="@, 0) {
            lemma_trim_end_last(trim_start(t.skip(k + 1)));
        }
        reveal_strlit("mididevice = auto");
        let y = "mididevice = auto"@;
        assert(y.last() == 'o');
        let next = midi_line(st, line);
        assert(midi_scan(ls) == next);
        assert forall|i: int| 0 <= i < next.out.len() implies !ends_with_cr(#[trigger] next.out[i]) by {
            if i < st.out.len() {
                assert(next.out[i] == st.out[i] || next.out == st.out);
            }
        }
    }
}

/// Translating a config that has no backslash gives one without a
/// backslash.
pub proof fn translation_adds_no_backslash(conf: Seq<char>)
    requires
        !conf.contains('\\'),
    ensures
        !translate_midi(conf).contains('\\'),
{
    let c = '\\';
    lemma_lacks_contains(conf, c);
    if mentions_midi(conf) {
        reveal_strlit("mididevice = auto");
        reveal_strlit("[mt32]");
        reveal_strlit("romdir = ");
        reveal_strlit("[fluidsynth]");
        reveal_strlit("soundfont = ");
        reveal_strlit("\n");
        lemma_lines_lack(conf, seq![], c);
        lemma_scan_lacks(lines(conf), c);
        let st = midi_scan(lines(conf));
        let with_mt32 = if !has_header_line(lines(lower(conf)), "[mt32]"@) && st.romdir is Some {
            st.out + section_lines("[mt32]"@, "romdir = "@, st.romdir->0)
        } else {
            st.out
        };
        let with_fluid = if !has_header_line(lines(lower(conf)), "[fluidsynth]"@) && st.soundfont is Some {
            with_mt32 + section_lines("[fluidsynth]"@, "soundfont = "@, st.soundfont->0)
        } else {
            with_mt32
        };
        assert forall|i: int| 0 <= i < with_mt32.len() implies lacks(#[trigger] with_mt32[i], c) by {
            if i >= st.out.len() {
                let v = st.romdir->0;
                lemma_lacks_concat("romdir = "@, v, c);
                assert(with_mt32[i] == section_lines("[mt32]"@, "romdir = "@, v)[i - st.out.len()]);
            }
        }
        assert forall|i: int| 0 <= i < with_fluid.len() implies lacks(#[trigger] with_fluid[i], c) by {
            if i >= with_mt32.len() {
                let v = st.soundfont->0;
                lemma_lacks_concat("soundfont = "@, v, c);
                assert(with_fluid[i] == section_lines("[fluidsynth]"@, "soundfont = "@, v)[i
                    - with_mt32.len()]);
            }
        }
        lemma_join_lacks(with_fluid, "\n"@, c);
        lemma_lacks_concat(join(with_fluid, "\n"@), "\n"@, c);
        assert(translate_midi(conf) == join(with_fluid, "\n"@) + "\n"@);
    }
    lemma_lacks_contains(translate_midi(conf), c);
}

/// The line the translation writes for `mididevice = default` is kept as
/// it is when scanned again.
proof fn lemma_auto_line(st: MidiScan)
    ensures
        midi_line(st, "mididevice = auto"@) == (MidiScan { out: st.out.push("mididevice = auto"@), ..st }),
        !ece_midi_line(st.section, "mididevice = auto"@),
{
    reveal_strlit("mididevice = auto");
    reveal_strlit("[");
    reveal_strlit("#");
    reveal_strlit("=");
    reveal_strlit("mt32.romdir");
    reveal_strlit("fluid.soundfont");
    reveal_strlit("mt32.");
    reveal_strlit("fluid.");
    reveal_strlit("mididevice");
    reveal_strlit("default");
    let y = "mididevice = auto"@;
    assert(y.len() == 17);
    assert(trim_start(y) == y);
    assert(trim_end(y) == y);
    let t = trim(y);
    assert(t == y);
    assert(!starts_with(t, "["@)) by {
        assert(t.take(1)[0] == 'm');
    }
    assert(!starts_with(t, "#"@)) by {
        assert(t.take(1)[0] == 'm');
    }
    lemma_find_from_bounds(t, "="@, 0);
    if let Some(i) = find_from(t, "="@, 0) {
        assert(t.subrange(i, i + 1)[0] == t[i]);
        assert(t[i] == '=');
        assert(i == 11);
        let k0 = t.take(11);
        assert(k0.len() == 11 && k0[10] == ' ');
        assert(trim_start(k0) == k0);
        assert(trim_end(k0.drop_last()) == k0.drop_last());
        assert(trim_end(k0) == k0.drop_last());
        let key = lower(trim(k0));
        assert(key.len() == 10);
        assert(key[0] == 'm' && key[1] == 'i');
        assert(key != "mt32.romdir"@);
        assert(key != "fluid.soundfont"@);
        assert(!starts_with(key, "mt32."@)) by {
            assert(key.take(5)[1] == 'i');
        }
        assert(!starts_with(key, "fluid."@)) by {
            assert(key.take(6)[0] == 'm');
        }
        let v0 = t.skip(12);
        assert(v0.len() == 5 && v0[0] == ' ');
        assert(trim_start(v0.drop_first()) == v0.drop_first());
        assert(trim_start(v0) == v0.drop_first());
        assert(trim_end(v0.drop_first()) == v0.drop_first());
        let value = trim(t.skip(i + 1));
        assert(value.len() == 4);
        assert(lower(value).len() == 4);
        assert(lower("default"@).len() == 7);
    }
}

/// Scanning the scan's own output again reproduces it and captures nothing.
proof fn lemma_rescan(ls: Seq<Seq<char>>)
    ensures
        ({
            let s1 = midi_scan(ls);
            let s2 = midi_scan(s1.out);
            &&& s2.out == s1.out
            &&& s2.section == s1.section
            &&& s2.romdir is None
            &&& s2.soundfont is None
        }),
    decreases ls.len(),
{
    if ls.len() == 0 {
        assert(midi_scan(ls).out.len() == 0);
        assert(midi_scan(ls).out =~= Seq::<Seq<char>>::empty());
    } else {
        let init = ls.drop_last();
        let x = ls.last();
        lemma_rescan(init);
        let s1 = midi_scan(init);
        let s2 = midi_scan(s1.out);
        let n1 = midi_line(s1, x);
        assert(midi_scan(ls) == n1);
        let n2 = midi_line(s2, x);
        if n1.out == s1.out {
            assert(n1.section == s1.section);
        } else if n1.out == s1.out.push(x) {
            assert(s1.out.push(x).drop_last() =~= s1.out);
            assert(s1.out.push(x).last() == x);
            assert(midi_scan(s1.out.push(x)) == n2);
            assert(n2.out == s2.out.push(x));
            assert(n2.section == n1.section);
        } else {
            let y = "mididevice = auto"@;
            assert(n1.out == s1.out.push(y));
            assert(s1.out.push(y).drop_last() =~= s1.out);
            assert(s1.out.push(y).last() == y);
            assert(midi_scan(s1.out.push(y)) == midi_line(s2, y));
            lemma_auto_line(s2);
            assert(n1.section == s1.section);
        }
    }
}

/// A blank line, a header and a key line appended after a scan are kept
/// as they are and capture nothing, when the header is not `[midi]`.
proof fn lemma_scan_section(ls: Seq<Seq<char>>, header: Seq<char>, key: Seq<char>, value: Seq<char>)
    requires
        midi_scan(ls).romdir is None,
        midi_scan(ls).soundfont is None,
        header.len() > 0,
        header[0] == '[',
        !crate::text::is_ws(header[0]),
        !crate::text::is_ws(header.last()),
        lower(header) != "[midi]"@,
    ensures
        midi_scan(ls + section_lines(header, key, value)).out == midi_scan(ls).out + section_lines(
            header,
            key,
            value,
        ),
        midi_scan(ls + section_lines(header, key, value)).romdir is None,
        midi_scan(ls + section_lines(header, key, value)).soundfont is None,
{
    reveal_strlit("[");
    reveal_strlit("=");
    let sl = section_lines(header, key, value);
    let a = ls.push(seq![]);
    let b = a.push(header);
    let c = b.push(key + value);
    assert(ls + sl =~= c);
    assert(a.drop_last() =~= ls);
    assert(b.drop_last() =~= a);
    assert(c.drop_last() =~= b);
    let e: Seq<char> = seq![];
    assert(trim(e) =~= e);
    assert(crate::text::find_from(e, "="@, 0) is None);
    assert(!starts_with(e, "["@));
    assert(trim_start(header) == header);
    assert(trim_end(header) == header);
    assert(starts_with(header, "["@)) by {
        assert(header.take(1) =~= "["@);
    }
    let s0 = midi_scan(ls);
    assert(trim(header) == header);
    let sa = midi_line(s0, e);
    assert(midi_scan(a) == sa);
    assert(sa.out == s0.out.push(e) && sa.romdir is None && sa.soundfont is None);
    let sb = midi_line(sa, header);
    assert(midi_scan(b) == sb);
    assert(sb.out == sa.out.push(header) && sb.section == lower(header));
    assert(sb.romdir is None && sb.soundfont is None);
    let sc = midi_line(sb, key + value);
    assert(midi_scan(c) == sc);
    assert(sc.out == sb.out.push(key + value));
    assert(sc.romdir is None && sc.soundfont is None);
    assert(midi_scan(ls).out + sl =~= midi_scan(ls).out.push(e).push(header).push(key + value));
}

/// The scan of a non-empty sequence of lines outputs at least one line.
proof fn lemma_scan_out_nonempty(ls: Seq<Seq<char>>)
    requires
        ls.len() > 0,
    ensures
        midi_scan(ls).out.len() > 0,
    decreases ls.len(),
{
    if ls.len() == 1 {
        assert(ls.drop_last().len() == 0);
        assert(midi_scan(ls.drop_last()).section.len() == 0);
        reveal_strlit("[midi]");
    } else {
        lemma_scan_out_nonempty(ls.drop_last());
    }
}

/// The lines of a translated config are what the scan wrote (and the
/// appended sections): scanning them again keeps every one and captures
/// nothing.
proof fn lemma_translated_lines(conf: Seq<char>)
    requires
        mentions_midi(conf),
    ensures
        midi_scan(translated_lines(conf)).out == translated_lines(conf),
        midi_scan(translated_lines(conf)).romdir is None,
        midi_scan(translated_lines(conf)).soundfont is None,
        lines(translate_midi(conf)) == translated_lines(conf).map_values(|l: Seq<char>| strip_cr(l)),
{
    let out1 = translate_midi(conf);
    {
        reveal_strlit("mididevice = auto");
        reveal_strlit("[mt32]");
        reveal_strlit("[fluidsynth]");
        reveal_strlit("[midi]");
        reveal_strlit("romdir = ");
        reveal_strlit("soundfont = ");
        reveal_strlit("\n");
        reveal_strlit("mt32.");
        let ls = lines(conf);
        let st = midi_scan(ls);
        let with_mt32 = if !has_header_line(lines(lower(conf)), "[mt32]"@) && st.romdir is Some {
            st.out + section_lines("[mt32]"@, "romdir = "@, st.romdir->0)
        } else {
            st.out
        };
        let with_fluid = if !has_header_line(lines(lower(conf)), "[fluidsynth]"@)
            && st.soundfont is Some {
            with_mt32 + section_lines("[fluidsynth]"@, "soundfont = "@, st.soundfont->0)
        } else {
            with_mt32
        };
        assert(out1 == join(with_fluid, "\n"@) + "\n"@);
        // Rescanning reproduces the lines and captures nothing.
        lemma_rescan(ls);
        assert(lower("[mt32]"@)[2] == 't');
        assert(lower("[fluidsynth]"@)[2] == 'l');
        if !has_header_line(lines(lower(conf)), "[mt32]"@) && st.romdir is Some {
            lemma_scan_section(st.out, "[mt32]"@, "romdir = "@, st.romdir->0);
        }
        if !has_header_line(lines(lower(conf)), "[fluidsynth]"@) && st.soundfont is Some {
            lemma_scan_section(with_mt32, "[fluidsynth]"@, "soundfont = "@, st.soundfont->0);
        }
        let st2 = midi_scan(with_fluid);
        assert(st2.out == with_fluid && st2.romdir is None && st2.soundfont is None);
        // The lines of the output are the parts it was joined from.
        assert(conf.len() > 0) by {
            if conf.len() == 0 {
                assert(lower(conf).len() == 0);
                crate::text::lemma_find_from_bounds(lower(conf), "mt32."@, 0);
                crate::text::lemma_find_from_bounds(lower(conf), "fluid."@, 0);
                crate::text::lemma_find_from_bounds(lower(conf), "mididevice"@, 0);
            }
        }
        crate::text::lemma_lines_nonempty(conf, seq![]);
        lemma_scan_out_nonempty(ls);
        crate::text::lemma_lines_no_break(conf, seq![]);
        assert forall|i: int| 0 <= i < ls.len() implies lacks(#[trigger] ls[i], '\n') by {}
        lemma_scan_lacks(ls, '\n');
        assert forall|i: int| 0 <= i < with_fluid.len() implies lacks(#[trigger] with_fluid[i], '\n') by {
            if i >= st.out.len() {
                if st.romdir is Some {
                    lemma_lacks_concat("romdir = "@, st.romdir->0, '\n');
                }
                if st.soundfont is Some {
                    lemma_lacks_concat("soundfont = "@, st.soundfont->0, '\n');
                }
                if i < with_mt32.len() {
                    assert(with_mt32[i] == section_lines("[mt32]"@, "romdir = "@, st.romdir->0)[i
                        - st.out.len()]);
                } else {
                    assert(with_fluid[i] == section_lines(
                        "[fluidsynth]"@,
                        "soundfont = "@,
                        st.soundfont->0,
                    )[i - with_mt32.len()]);
                }
            }
        }
        crate::text::lemma_lines_of_join_stripped(with_fluid);
    }
}

/// Translating twice gives what translating once gives, for a config
/// none of whose lines ends with a carriage return once its line break
/// (`\n` or `\r\n`) is taken off (CRLF configs among them).
pub proof fn translation_is_idempotent(conf: Seq<char>)
    requires
        forall|i: int| 0 <= i < lines(conf).len() ==> !ends_with_cr(#[trigger] lines(conf)[i]),
    ensures
        translate_midi(translate_midi(conf)) == translate_midi(conf),
{
    let out1 = translate_midi(conf);
    if mentions_midi(conf) && mentions_midi(out1) {
        reveal_strlit("[mt32]");
        reveal_strlit("[fluidsynth]");
        reveal_strlit("romdir = ");
        reveal_strlit("soundfont = ");
        lemma_translated_lines(conf);
        let tl = translated_lines(conf);
        let st = midi_scan(lines(conf));
        lemma_scan_cr_end(lines(conf));
        let with_mt32 = if !has_header_line(lines(lower(conf)), "[mt32]"@) && st.romdir is Some {
            st.out + section_lines("[mt32]"@, "romdir = "@, st.romdir->0)
        } else {
            st.out
        };
        assert forall|i: int| 0 <= i < tl.len() implies !ends_with_cr(#[trigger] tl[i]) by {
            if i >= st.out.len() {
                if i < with_mt32.len() {
                    let v = st.romdir->0;
                    let sl = section_lines("[mt32]"@, "romdir = "@, v);
                    assert(tl[i] == sl[i - st.out.len()]);
                    assert(("romdir = "@ + v).last() == if v.len() > 0 { v.last() } else { ' ' });
                } else {
                    let v = st.soundfont->0;
                    let sl = section_lines("[fluidsynth]"@, "soundfont = "@, v);
                    assert(tl[i] == sl[i - with_mt32.len()]);
                    assert(("soundfont = "@ + v).last() == if v.len() > 0 { v.last() } else { ' ' });
                }
            }
        }
        assert(tl.map_values(|l: Seq<char>| strip_cr(l)) =~= tl);
        assert(out1 == join(lines(out1), "\n"@) + "\n"@);
    }
}

/// The section a line sits in after the lines `ls`: the lower-cased last
/// header among them (empty before any header).
pub open spec fn current_section(ls: Seq<Seq<char>>) -> Seq<char>
    decreases ls.len(),
{
    if ls.len() == 0 {
        seq![]
    } else if starts_with(trim(ls.last()), "["@) {
        lower(trim(ls.last()))
    } else {
        current_section(ls.drop_last())
    }
}

/// `line`, read in section `section`, is one the translation rewrites or
/// drops: in `[midi]`, a setting whose key starts with `mt32.` or `fluid.`,
/// or `mididevice = default`.
pub open spec fn ece_midi_line(section: Seq<char>, line: Seq<char>) -> bool {
    let t = trim(line);
    &&& section == "[midi]"@
    &&& !starts_with(t, "["@)
    &&& !starts_with(t, "#"@)
    &&& find_from(t, "="@, 0) is Some
    &&& ({
        let i = find_from(t, "="@, 0)->0;
        let key = lower(trim(t.take(i)));
        let value = trim(t.skip(i + 1));
        ||| starts_with(key, "mt32."@)
        ||| starts_with(key, "fluid."@)
        ||| (key == "mididevice"@ && lower(value) == lower("default"@))
    })
}

proof fn lemma_scan_section_is_current(ls: Seq<Seq<char>>)
    ensures
        midi_scan(ls).section == current_section(ls),
        midi_scan(ls).out.len() <= ls.len(),
    decreases ls.len(),
{
    if ls.len() > 0 {
        lemma_scan_section_is_current(ls.drop_last());
    }
}

/// A line the scan copies as it is was no ECE-style `[midi]` setting.
proof fn lemma_step_keeps(st: MidiScan, line: Seq<char>)
    requires
        midi_line(st, line).out == st.out.push(line),
    ensures
        !ece_midi_line(st.section, line),
{
    reveal_strlit("mt32.romdir");
    reveal_strlit("fluid.soundfont");
    reveal_strlit("mt32.");
    reveal_strlit("fluid.");
    let t = trim(line);
    if ece_midi_line(st.section, line) {
        let i = find_from(t, "="@, 0)->0;
        let key = lower(trim(t.take(i)));
        if key == "mt32.romdir"@ || key == "fluid.soundfont"@ || starts_with(key, "mt32."@)
            || starts_with(key, "fluid."@) {
            assert(midi_line(st, line).out.len() == st.out.len());
        } else {
            assert(midi_line(st, line).out == st.out.push("mididevice = auto"@));
            assert(st.out.push(line).last() == line);
            assert(line == "mididevice = auto"@);
            lemma_auto_line(st);
        }
    }
}

proof fn lemma_fixed_scan_clean(ls: Seq<Seq<char>>)
    requires
        midi_scan(ls).out == ls,
    ensures
        forall|i: int|
            0 <= i < ls.len() ==> !ece_midi_line(current_section(ls.take(i)), #[trigger] ls[i]),
    decreases ls.len(),
{
    if ls.len() > 0 {
        let init = ls.drop_last();
        let x = ls.last();
        let s = midi_scan(init);
        lemma_scan_section_is_current(init);
        let n = midi_line(s, x);
        assert(n == midi_scan(ls));
        if n.out == s.out {
            assert(false);
        } else if n.out == s.out.push(x) {
            assert(s.out =~= s.out.push(x).drop_last());
            assert(s.out == init);
            lemma_fixed_scan_clean(init);
            lemma_step_keeps(s, x);
            assert forall|i: int| 0 <= i < ls.len() implies !ece_midi_line(
                current_section(ls.take(i)),
                #[trigger] ls[i],
            ) by {
                assert(ls.take(i) =~= init.take(i)) by {
                    if i < init.len() {
                    }
                };
                if i < init.len() {
                    assert(ls[i] == init[i]);
                } else {
                    assert(init.take(i) =~= init);
                }
            }
        } else {
            let y = "mididevice = auto"@;
            assert(n.out == s.out.push(y));
            assert(s.out =~= s.out.push(y).drop_last());
            assert(s.out == init);
            assert(x == y);
            lemma_fixed_scan_clean(init);
            lemma_step_keeps(s, x);
            assert forall|i: int| 0 <= i < ls.len() implies !ece_midi_line(
                current_section(ls.take(i)),
                #[trigger] ls[i],
            ) by {
                assert(ls.take(i) =~= init.take(i));
                if i < init.len() {
                    assert(ls[i] == init[i]);
                } else {
                    assert(init.take(i) =~= init);
                }
            }
        }
    }
}

/// Taking one trailing carriage return off each line keeps the sections.
proof fn lemma_section_strip(ls: Seq<Seq<char>>)
    ensures
        current_section(ls.map_values(|l: Seq<char>| strip_cr(l))) == current_section(ls),
    decreases ls.len(),
{
    if ls.len() > 0 {
        let m = ls.map_values(|l: Seq<char>| strip_cr(l));
        assert(m.drop_last() =~= ls.drop_last().map_values(|l: Seq<char>| strip_cr(l)));
        lemma_section_strip(ls.drop_last());
        assert(m.last() == strip_cr(ls.last()));
        crate::text::lemma_trim_strip_cr(ls.last());
    }
}

/// Taking one trailing carriage return off each line keeps the header count.
proof fn lemma_header_strip(ls: Seq<Seq<char>>, h: Seq<char>)
    ensures
        header_count(ls.map_values(|l: Seq<char>| strip_cr(l)), h) == header_count(ls, h),
    decreases ls.len(),
{
    if ls.len() > 0 {
        let m = ls.map_values(|l: Seq<char>| strip_cr(l));
        assert(m.drop_last() =~= ls.drop_last().map_values(|l: Seq<char>| strip_cr(l)));
        lemma_header_strip(ls.drop_last(), h);
        assert(m.last() == strip_cr(ls.last()));
        crate::text::lemma_trim_strip_cr(ls.last());
    }
}

/// A config with an ECE-style `[midi]` line mentions MIDI settings.
proof fn lemma_ece_line_mentions(conf: Seq<char>, section: Seq<char>, i: int)
    requires
        0 <= i < lines(conf).len(),
        ece_midi_line(section, lines(conf)[i]),
    ensures
        mentions_midi(conf),
{
    reveal_strlit("mt32.");
    reveal_strlit("fluid.");
    reveal_strlit("mididevice");
    let l = lines(conf)[i];
    crate::text::lemma_lines_occur(conf, seq![]);
    assert(seq![] + conf =~= conf);
    let t = trim(l);
    let k = find_from(t, "="@, 0)->0;
    lemma_find_from_bounds(t, "="@, 0);
    let tk = t.take(k);
    let x = trim(tk);
    let key = lower(x);
    crate::text::lemma_trim_occurs(l);
    assert(t.subrange(0, k) =~= tk);
    assert(crate::text::occurs_at(t, tk, 0));
    crate::text::lemma_trim_occurs(tk);
    crate::text::lemma_occurs_trans(conf, l, t);
    crate::text::lemma_occurs_trans(conf, t, tk);
    crate::text::lemma_occurs_trans(conf, tk, x);
    crate::text::lemma_occurs_lower(conf, x);
    let lw = lower(conf);
    let p = if starts_with(key, "mt32."@) {
        "mt32."@
    } else if starts_with(key, "fluid."@) {
        "fluid."@
    } else {
        "mididevice"@
    };
    assert(starts_with(key, p)) by {
        if !starts_with(key, "mt32."@) && !starts_with(key, "fluid."@) {
            assert(key == "mididevice"@);
            assert(key.take(key.len() as int) =~= key);
        }
    }
    assert(crate::text::occurs_in(key, p)) by {
        assert(key.subrange(0, p.len() as int) =~= key.take(p.len() as int));
        assert(crate::text::occurs_at(key, p, 0));
    }
    crate::text::lemma_occurs_trans(lw, key, p);
    let a = choose|a: int| crate::text::occurs_at(lw, p, a);
    crate::text::lemma_occurs_found(lw, p, 0, a);
}

/// The translation cleans `[midi]`: in a translated config no line inside
/// a `[midi]` section sets an `mt32.*` or `fluid.*` key or
/// `mididevice = default`.
pub proof fn translated_midi_section_is_clean(conf: Seq<char>)
    ensures
        forall|i: int|
            0 <= i < lines(translate_midi(conf)).len() ==> !ece_midi_line(
                current_section(lines(translate_midi(conf)).take(i)),
                #[trigger] lines(translate_midi(conf))[i],
            ),
{
    if mentions_midi(conf) {
        lemma_translated_lines(conf);
        let tl = translated_lines(conf);
        let out = lines(translate_midi(conf));
        lemma_fixed_scan_clean(tl);
        assert forall|i: int| 0 <= i < out.len() implies !ece_midi_line(
            current_section(out.take(i)),
            #[trigger] out[i],
        ) by {
            assert(out.take(i) =~= tl.take(i).map_values(|l: Seq<char>| strip_cr(l)));
            lemma_section_strip(tl.take(i));
            assert(out[i] == strip_cr(tl[i]));
            crate::text::lemma_trim_strip_cr(tl[i]);
            assert(!ece_midi_line(current_section(tl.take(i)), tl[i]));
        }
    } else {
        assert(translate_midi(conf) == conf);
        assert forall|i: int| 0 <= i < lines(conf).len() implies !ece_midi_line(
            current_section(lines(conf).take(i)),
            #[trigger] lines(conf)[i],
        ) by {
            if ece_midi_line(current_section(lines(conf).take(i)), lines(conf)[i]) {
                lemma_ece_line_mentions(conf, current_section(lines(conf).take(i)), i);
            }
        }
    }
}

/// How many of the lines `ls` are the section header `h` (trimmed and
/// lower-cased).
pub open spec fn header_count(ls: Seq<Seq<char>>, h: Seq<char>) -> nat
    decreases ls.len(),
{
    if ls.len() == 0 {
        0
    } else {
        header_count(ls.drop_last(), h) + if lower(trim(ls.last())) == h {
            1nat
        } else {
            0nat
        }
    }
}

proof fn lemma_header_count_concat(a: Seq<Seq<char>>, b: Seq<Seq<char>>, h: Seq<char>)
    ensures
        header_count(a + b, h) == header_count(a, h) + header_count(b, h),
    decreases b.len(),
{
    if b.len() > 0 {
        lemma_header_count_concat(a, b.drop_last(), h);
        assert((a + b).drop_last() =~= a + b.drop_last());
        assert((a + b).last() == b.last());
    } else {
        assert(a + b =~= a);
    }
}

/// A line whose trimmed form does not start with `[` is no header `[..`.
proof fn lemma_not_header(line: Seq<char>, h: Seq<char>)
    requires
        h.len() > 0,
        h[0] == '[',
        !starts_with(trim(line), "["@),
    ensures
        lower(trim(line)) != h,
{
    reveal_strlit("[");
    let t = trim(line);
    if lower(t) == h {
        assert(t.len() > 0);
        assert(lower(t)[0] == crate::text::lower_char(t[0]));
        assert(t[0] == '[');
        assert(t.take(1) =~= "["@);
    }
}

/// The scan keeps every section header and adds none.
proof fn lemma_scan_headers(ls: Seq<Seq<char>>, h: Seq<char>)
    requires
        h.len() > 0,
        h[0] == '[',
    ensures
        header_count(midi_scan(ls).out, h) == header_count(ls, h),
    decreases ls.len(),
{
    if ls.len() > 0 {
        let init = ls.drop_last();
        let x = ls.last();
        lemma_scan_headers(init, h);
        let s0 = midi_scan(init);
        let s1 = midi_line(s0, x);
        assert(midi_scan(ls) == s1);
        if starts_with(trim(x), "["@) {
            assert(s1.out == s0.out.push(x));
        } else {
            lemma_not_header(x, h);
            if s1.out == s0.out {
            } else if s1.out == s0.out.push(x) {
            } else {
                let y = "mididevice = auto"@;
                assert(s1.out == s0.out.push(y));
                lemma_auto_line(s0);
                reveal_strlit("mididevice = auto");
                reveal_strlit("[");
                assert(trim(y) == y) by {
                    assert(trim_start(y) == y);
                    assert(trim_end(y) == y);
                }
                assert(!starts_with(trim(y), "["@)) by {
                    assert(y.take(1)[0] == 'm');
                }
                lemma_not_header(y, h);
            }
        }
        if s1.out != s0.out {
            assert(s1.out.drop_last() =~= s0.out);
        }
    }
}

/// The header count of an appended section `header`, `key value`.
proof fn lemma_section_headers(header: Seq<char>, key: Seq<char>, value: Seq<char>, h: Seq<char>)
    requires
        h.len() > 0,
        h[0] == '[',
        key.len() > 0,
        key[0] != '[',
        !crate::text::is_ws(key[0]),
    ensures
        header_count(section_lines(header, key, value), h) == if lower(trim(header)) == h {
            1nat
        } else {
            0nat
        },
{
    reveal_strlit("[");
    let sl = section_lines(header, key, value);
    let e: Seq<char> = seq![];
    assert(trim(e) =~= e);
    assert(lower(e) =~= e);
    assert(sl.drop_last().drop_last().drop_last() =~= Seq::<Seq<char>>::empty());
    assert(sl.drop_last().drop_last().last() == e);
    assert(sl.drop_last().last() == header);
    let kv = key + value;
    assert(sl.last() == kv);
    assert(kv[0] == key[0]);
    assert(trim_start(kv) == kv);
    assert(!starts_with(trim(kv), "["@)) by {
        if starts_with(trim(kv), "["@) {
            assert(trim(kv) == trim_end(kv));
            assert(trim_end(kv).len() > 0);
            lemma_trim_end_first(kv);
            assert(trim(kv).take(1)[0] == trim(kv)[0]);
        }
    }
    lemma_not_header(kv, h);
    let d1 = sl.drop_last();
    let d2 = d1.drop_last();
    let d3 = d2.drop_last();
    assert(header_count(d3, h) == 0);
    assert(header_count(d2, h) == header_count(d3, h));
    assert(header_count(d1, h) == header_count(d2, h) + if lower(trim(header)) == h {
        1nat
    } else {
        0nat
    });
    assert(header_count(sl, h) == header_count(d1, h));
}

proof fn lemma_trim_end_first(s: Seq<char>)
    requires
        trim_end(s).len() > 0,
    ensures
        trim_end(s)[0] == s[0],
    decreases s.len(),
{
    if s.len() > 0 && crate::text::is_ws(s.last()) {
        lemma_trim_end_first(s.drop_last());
    }
}

/// The translation never gives a config a second `[mt32]` or
/// `[fluidsynth]` section: it adds at most one such header, and none to a
/// config that already has one.
pub proof fn translation_adds_no_second_section(conf: Seq<char>, h: Seq<char>)
    requires
        h == "[mt32]"@ || h == "[fluidsynth]"@,
    ensures
        header_count(lines(translate_midi(conf)), h) <= header_count(lines(conf), h) + 1,
        has_header_line(lines(lower(conf)), h) ==> header_count(lines(translate_midi(conf)), h)
            == header_count(lines(conf), h),
{
    reveal_strlit("[mt32]");
    reveal_strlit("[fluidsynth]");
    reveal_strlit("romdir = ");
    reveal_strlit("soundfont = ");
    if mentions_midi(conf) {
        lemma_translated_lines(conf);
        lemma_header_strip(translated_lines(conf), h);
        let lls = lines(lower(conf));
        let st = midi_scan(lines(conf));
        lemma_scan_headers(lines(conf), h);
        let m = "[mt32]"@;
        let f = "[fluidsynth]"@;
        assert(trim(m) == m) by {
            assert(trim_start(m) == m);
            assert(trim_end(m) == m);
        }
        assert(lower(m) =~= m);
        assert(trim(f) == f) by {
            assert(trim_start(f) == f);
            assert(trim_end(f) == f);
        }
        assert(lower(f) =~= f);
        assert(m != f) by {
            assert(m.len() != f.len());
        }
        let with_mt32 = if !has_header_line(lls, m) && st.romdir is Some {
            st.out + section_lines(m, "romdir = "@, st.romdir->0)
        } else {
            st.out
        };
        if !has_header_line(lls, m) && st.romdir is Some {
            lemma_header_count_concat(st.out, section_lines(m, "romdir = "@, st.romdir->0), h);
            lemma_section_headers(m, "romdir = "@, st.romdir->0, h);
        }
        if !has_header_line(lls, f) && st.soundfont is Some {
            lemma_header_count_concat(with_mt32, section_lines(f, "soundfont = "@, st.soundfont->0), h);
            lemma_section_headers(f, "soundfont = "@, st.soundfont->0, h);
        }
    }
}

} // verus!
