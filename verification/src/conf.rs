//! Rewriting an eXoDOS DOSBox config so that it runs from the launcher's
//! working directory (and, for language-pack games, against the LP files).
use vstd::prelude::*;
use crate::autoexec::{autoexec_exec, autoexec_of, eq_ignore_case, eq_ignore_case_exec, has_launch_cmd};
use crate::lp_launch::{find_lp_launch, launch_result_view, lp_launch, GameDirSnap};
use crate::midi::{translate_midi, translate_midi_for_staging};
use crate::text::{
    chars_of, copy_chars, ends_with, ends_with_str, find_from, find_from_exec,
    lemma_find_from_bounds, lower, lower_exec, push_all, replace_all, replace_str, slice_of,
    split_first, split_first_exec, string_of, trim_end,
};

verus! {

/// `content.replace(".\\", abs_prefix).replace('\\', "/")`: relative
/// Windows paths become absolute paths under the working dir, and every
/// backslash a forward slash.
pub open spec fn rewrite_paths(content: Seq<char>, abs_prefix: Seq<char>) -> Seq<char> {
    replace_all(replace_all(content, ".\\"@, abs_prefix), "\\"@, "/"@)
}

/// The overlay rewrite: references to the eXoDOS root (`.\<game_folder>`)
/// go to the overlay staging dir, then the usual path rewrite.
pub open spec fn overlay_rewrite(
    content: Seq<char>,
    game_folder: Seq<char>,
    staging_fwd: Seq<char>,
    abs_prefix: Seq<char>,
) -> Seq<char> {
    rewrite_paths(
        replace_all(
            replace_all(content, ".\\"@ + game_folder + "\\"@, staging_fwd + "/"@),
            ".\\"@ + game_folder,
            staging_fwd,
        ),
        abs_prefix,
    )
}

/// The commands that run an LP launch `(subdir, cmd)` from the current
/// directory: optional `cd <subdir>`, `cls`, the command.
pub open spec fn launch_lines(sub: Seq<char>, cmd: Seq<char>) -> Seq<char> {
    (if sub.len() > 0 {
        "cd "@ + sub + "\n"@
    } else {
        seq![]
    }) + "cls\n"@ + cmd + "\n"@
}

/// `text` with a final `exit` (ignoring trailing whitespace and case)
/// replaced by a line break; otherwise `text` itself.
pub open spec fn drop_final_exit(text: Seq<char>) -> Seq<char> {
    let t = trim_end(text);
    if ends_with(lower(t), "exit"@) {
        t.take(t.len() - 4) + "\n"@
    } else {
        text
    }
}

/// The overlay config, with a launch appended when its autoexec has none.
pub open spec fn overlay_conf(
    content: Seq<char>,
    game_folder: Seq<char>,
    staging_fwd: Seq<char>,
    abs_prefix: Seq<char>,
    shortcode: Seq<char>,
    launch: Option<(Seq<char>, Seq<char>)>,
) -> Seq<char> {
    let r = overlay_rewrite(content, game_folder, staging_fwd, abs_prefix);
    if has_launch_cmd(r) {
        r
    } else {
        match launch {
            None => r,
            Some((sub, cmd)) => drop_final_exit(r) + "cd "@ + shortcode + "\n"@ + launch_lines(
                sub,
                cmd,
            ) + "exit\n"@,
        }
    }
}

/// The generated config for an LP layout the EN autoexec cannot run
/// against: the EN settings, then an autoexec that mounts the LP game dir
/// and runs the launch found in it.
pub open spec fn generated_conf(
    content: Seq<char>,
    abs_prefix: Seq<char>,
    game_dir_abs: Seq<char>,
    launch: Option<(Seq<char>, Seq<char>)>,
) -> Seq<char> {
    rewrite_paths(split_first(content, "[autoexec]"@), abs_prefix) + "[autoexec]\n"@
        + "@mount c \""@ + game_dir_abs + "\"\n"@ + "c:\n"@ + match launch {
        Some((sub, cmd)) => launch_lines(sub, cmd),
        None => seq![],
    } + "exit\n"@
}

/// What is known of an LP game when its config is patched.
pub struct LpConf {
    /// The game's shortcode (its directory name).
    pub shortcode: String,
    /// The eXoDOS root folder the configs reference (`eXoDOS`).
    pub game_folder: String,
    /// Absolute path of the LP game dir.
    pub game_dir: String,
    /// Snapshot of the LP game dir.
    pub snapshot: GameDirSnap,
    /// The overlay staging dir, when the overlay was built.
    pub staging: Option<String>,
}

/// The config text `patch_dosbox_conf` writes, before MIDI translation.
pub open spec fn patched_text(content: Seq<char>, working_dir: Seq<char>, lp: Option<LpConf>) -> Seq<
    char,
> {
    let abs_prefix = working_dir + "/"@;
    match lp {
        None => rewrite_paths(content, abs_prefix),
        Some(info) => {
            let launch = lp_launch(info.snapshot, Some(content));
            match info.staging {
                Some(st) => overlay_conf(
                    content,
                    info.game_folder@,
                    replace_all(st@, "\\"@, "/"@),
                    abs_prefix,
                    info.shortcode@,
                    launch,
                ),
                None => generated_conf(content, abs_prefix, info.game_dir@, launch),
            }
        },
    }
}

/// The config `patch_dosbox_conf` writes.
pub open spec fn patched_conf(
    content: Seq<char>,
    working_dir: Seq<char>,
    lp: Option<LpConf>,
    translate_for_staging: bool,
) -> Seq<char> {
    let p = patched_text(content, working_dir, lp);
    if translate_for_staging {
        translate_midi(p)
    } else {
        p
    }
}

/// Relative Windows paths made absolute under `abs_prefix`, every backslash a slash (see `rewrite_paths`).
pub fn rewrite_paths_exec(content: &[char], abs_prefix: &[char]) -> (r: Vec<char>)
    ensures
        r@ == rewrite_paths(content@, abs_prefix@),
{
    let dot = chars_of(".\\");
    proof {
        reveal_strlit(".\\");
        reveal_strlit("\\");
    }
    let a = crate::text::replace_exec(content, &dot, abs_prefix);
    replace_str(&a, "\\", "/")
}

fn concat3(a: &[char], b: &[char], c: &[char]) -> (r: Vec<char>)
    ensures
        r@ == a@ + b@ + c@,
{
    let mut r = copy_chars(a);
    push_all(&mut r, b);
    push_all(&mut r, c);
    r
}

fn overlay_rewrite_exec(
    content: &[char],
    game_folder: &[char],
    staging_fwd: &[char],
    abs_prefix: &[char],
) -> (r: Vec<char>)
    ensures
        r@ == overlay_rewrite(content@, game_folder@, staging_fwd@, abs_prefix@),
{
    proof {
        reveal_strlit(".\\");
    }
    let dot = chars_of(".\\");
    let bs = chars_of("\\");
    let slash = chars_of("/");
    let p1 = concat3(&dot, game_folder, &bs);
    let r1 = concat3(staging_fwd, &slash, &[]);
    assert(r1@ =~= staging_fwd@ + "/"@);
    let a = crate::text::replace_exec(content, &p1, &r1);
    let p2 = concat3(&dot, game_folder, &[]);
    assert(p2@ =~= ".\\"@ + game_folder@);
    let b = crate::text::replace_exec(&a, &p2, staging_fwd);
    rewrite_paths_exec(&b, abs_prefix)
}

fn launch_lines_exec(sub: &[char], cmd: &[char]) -> (r: Vec<char>)
    ensures
        r@ == launch_lines(sub@, cmd@),
{
    let mut r: Vec<char> = Vec::new();
    if sub.len() > 0 {
        push_all(&mut r, &chars_of("cd "));
        push_all(&mut r, sub);
        push_all(&mut r, &chars_of("\n"));
    }
    push_all(&mut r, &chars_of("cls\n"));
    push_all(&mut r, cmd);
    push_all(&mut r, &chars_of("\n"));
    assert(r@ =~= launch_lines(sub@, cmd@));
    r
}

fn drop_final_exit_exec(text: &[char]) -> (r: Vec<char>)
    ensures
        r@ == drop_final_exit(text@),
{
    let t = crate::text::trim_end_exec(text);
    let tl = lower_exec(&t);
    if ends_with_str(&tl, "exit") {
        proof {
            reveal_strlit("exit");
        }
        let mut r = slice_of(&t, 0, t.len() - 4);
        push_all(&mut r, &chars_of("\n"));
        assert(r@ =~= t@.take(t@.len() - 4) + "\n"@);
        r
    } else {
        copy_chars(text)
    }
}

fn overlay_conf_exec(
    content: &[char],
    game_folder: &[char],
    staging_fwd: &[char],
    abs_prefix: &[char],
    shortcode: &[char],
    snapshot: &GameDirSnap,
    content_str: &str,
) -> (r: Vec<char>)
    requires
        content_str@ == content@,
    ensures
        r@ == overlay_conf(
            content@,
            game_folder@,
            staging_fwd@,
            abs_prefix@,
            shortcode@,
            lp_launch(*snapshot, Some(content@)),
        ),
{
    let r = overlay_rewrite_exec(content, game_folder, staging_fwd, abs_prefix);
    if crate::autoexec::autoexec_has_launch_cmd_chars(&r) {
        return r;
    }
    let launch = find_lp_launch(snapshot, Some(content_str));
    match launch {
        None => r,
        Some((sub, cmd)) => {
            let mut out = drop_final_exit_exec(&r);
            push_all(&mut out, &chars_of("cd "));
            push_all(&mut out, shortcode);
            push_all(&mut out, &chars_of("\n"));
            let sv = chars_of(sub.as_str());
            let cv = chars_of(cmd.as_str());
            let ll = launch_lines_exec(&sv, &cv);
            push_all(&mut out, &ll);
            push_all(&mut out, &chars_of("exit\n"));
            out
        },
    }
}

fn generated_conf_exec(
    content: &[char],
    abs_prefix: &[char],
    game_dir_abs: &[char],
    snapshot: &GameDirSnap,
    content_str: &str,
) -> (r: Vec<char>)
    requires
        content_str@ == content@,
    ensures
        r@ == generated_conf(
            content@,
            abs_prefix@,
            game_dir_abs@,
            lp_launch(*snapshot, Some(content@)),
        ),
{
    proof {
        reveal_strlit("[autoexec]");
    }
    let marker = chars_of("[autoexec]");
    let settings = split_first_exec(content, &marker);
    let mut out = rewrite_paths_exec(&settings, abs_prefix);
    push_all(&mut out, &chars_of("[autoexec]\n"));
    push_all(&mut out, &chars_of("@mount c \""));
    push_all(&mut out, game_dir_abs);
    push_all(&mut out, &chars_of("\"\n"));
    push_all(&mut out, &chars_of("c:\n"));
    let ghost head = out@;
    match find_lp_launch(snapshot, Some(content_str)) {
        Some((sub, cmd)) => {
            let sv = chars_of(sub.as_str());
            let cv = chars_of(cmd.as_str());
            let ll = launch_lines_exec(&sv, &cv);
            push_all(&mut out, &ll);
        },
        None => {
            assert(out@ =~= head + Seq::<char>::empty());
        },
    }
    push_all(&mut out, &chars_of("exit\n"));
    out
}

/// The text of the patched config (see `patch_dosbox_conf`): for an EN game,
/// relative Windows paths made absolute under `working_dir`; for an LP game
/// whose overlay was built, eXoDOS-root references routed through the
/// overlay (with a launch appended when the autoexec has none); for other LP
/// games a generated autoexec that mounts the LP game dir. DOSBox-ECE MIDI
/// keys are translated when `translate_for_staging` is set.
pub fn patch_conf_text(content: &str, working_dir: &str, lp: Option<&LpConf>, translate_for_staging: bool) -> (r: String)
    ensures
        r@ == patched_conf(
            content@,
            working_dir@,
            match lp {
                Some(i) => Some(*i),
                None => None,
            },
            translate_for_staging,
        ),
{
    let cv = chars_of(content);
    let mut abs_prefix = chars_of(working_dir);
    push_all(&mut abs_prefix, &chars_of("/"));
    let patched = match lp {
        None => rewrite_paths_exec(&cv, &abs_prefix),
        Some(info) => {
            let sc = chars_of(info.shortcode.as_str());
            match &info.staging {
                Some(st) => {
                    let gf = chars_of(info.game_folder.as_str());
                    let stv = chars_of(st.as_str());
                    proof {
                        reveal_strlit("\\");
                    }
                    let st_fwd = replace_str(&stv, "\\", "/");
                    overlay_conf_exec(&cv, &gf, &st_fwd, &abs_prefix, &sc, &info.snapshot, content)
                },
                None => {
                    let gd = chars_of(info.game_dir.as_str());
                    generated_conf_exec(&cv, &abs_prefix, &gd, &info.snapshot, content)
                },
            }
        },
    };
    let ps = string_of(&patched);
    if translate_for_staging {
        translate_midi_for_staging(ps.as_str())
    } else {
        ps
    }
}

// ───────────────────── LP overlay layout ─────────────────────

/// `s.trim_start_matches('!')`.
pub open spec fn trim_bangs(s: Seq<char>) -> Seq<char>
    decreases s.len(),
{
    if s.len() > 0 && s[0] == '!' {
        trim_bangs(s.drop_first())
    } else {
        s
    }
}

/// Name of the overlay staging dir of an LP game, under
/// `<working_dir>/.exodium_lp/`: `<language>_<shortcode>`.
pub open spec fn overlay_dir_name(lang_dir: Seq<char>, shortcode: Seq<char>) -> Seq<char> {
    trim_bangs(lang_dir) + "_"@ + shortcode
}

/// Name of the overlay staging dir of an LP game (`german_SQ5` for
/// `!german` / `SQ5`).
pub fn overlay_dir_name_exec(lang_dir: &str, shortcode: &str) -> (r: String)
    ensures
        r@ == overlay_dir_name(lang_dir@, shortcode@),
{
    let l = chars_of(lang_dir);
    let mut i: usize = 0;
    assert(l@.skip(0) =~= l@);
    while i < l.len() && l[i] == '!'
        invariant
            i <= l@.len(),
            trim_bangs(l@) == trim_bangs(l@.skip(i as int)),
        decreases l.len() - i,
    {
        assert(l@.skip(i as int).drop_first() =~= l@.skip(i + 1));
        i += 1;
    }
    let mut r = slice_of(&l, i, l.len());
    assert(r@ =~= l@.skip(i as int));
    push_all(&mut r, &chars_of("_"));
    push_all(&mut r, &chars_of(shortcode));
    string_of(&r)
}

/// A character that ends an eXoDOS-root entry name in an autoexec.
pub open spec fn entry_stop(c: char) -> bool {
    c == '\\' || c == '/' || c == '"' || c == ' ' || c == '\t' || c == '\r' || c == '\n'
}

/// End of the entry name that starts at `i`.
pub open spec fn entry_end(s: Seq<char>, i: int) -> int
    decreases s.len() - i,
{
    if i < 0 || i >= s.len() || entry_stop(s[i]) {
        i
    } else {
        entry_end(s, i + 1)
    }
}

/// The eXoDOS-root entries named after each occurrence of `needle` from
/// position `i` on, other than the game's own directory.
pub open spec fn root_entries_from(
    a: Seq<char>,
    needle: Seq<char>,
    shortcode: Seq<char>,
    i: int,
) -> Seq<Seq<char>>
    decreases a.len() - i,
{
    if i < 0 || i > a.len() {
        seq![]
    } else {
        match find_from(a, needle, i) {
            None => seq![],
            Some(k) => {
                proof {
                    lemma_find_from_bounds(a, needle, i);
                }
                let start = k + needle.len();
                let e = a.subrange(start, entry_end(a, start));
                let rest = root_entries_from(a, needle, shortcode, start);
                if e.len() == 0 || eq_ignore_case(e, shortcode) {
                    rest
                } else {
                    seq![e] + rest
                }
            },
        }
    }
}

/// Entries of the eXoDOS root that the EN autoexec references as
/// `<game_folder>\<entry>`, other than the game's own directory: the
/// overlay gives each of them a pass-through link.
pub open spec fn overlay_passthrough(
    en_conf: Seq<char>,
    game_folder: Seq<char>,
    shortcode: Seq<char>,
) -> Seq<Seq<char>> {
    let a = match autoexec_of(en_conf) {
        Some(a) => a,
        None => seq![],
    };
    root_entries_from(a, game_folder + "\\"@, shortcode, 0)
}

proof fn lemma_entry_end_bounds(s: Seq<char>, i: int)
    requires
        0 <= i <= s.len(),
    ensures
        i <= entry_end(s, i) <= s.len(),
    decreases s.len() - i,
{
    if i < s.len() && !entry_stop(s[i]) {
        lemma_entry_end_bounds(s, i + 1);
    }
}

/// The eXoDOS-root entries the overlay links through (see
/// `overlay_passthrough`), in autoexec order.
pub fn overlay_passthrough_entries(en_conf: &str, game_folder: &str, shortcode: &str) -> (r: Vec<
    String,
>)
    ensures
        crate::autoexec::string_views(r@) == overlay_passthrough(
            en_conf@,
            game_folder@,
            shortcode@,
        ),
{
    let cv = chars_of(en_conf);
    let a = match autoexec_exec(&cv) {
        Some(a) => a,
        None => Vec::new(),
    };
    let sc = chars_of(shortcode);
    let needle = concat3(&chars_of(game_folder), &chars_of("\\"), &[]);
    assert(needle@ =~= game_folder@ + "\\"@);
    let mut r: Vec<String> = Vec::new();
    let mut i: usize = 0;
    let alen = a.len();
    assert(crate::autoexec::string_views(r@) =~= Seq::<Seq<char>>::empty());
    loop
        invariant
            i <= a@.len(),
            alen == a@.len(),
            sc@ == shortcode@,
            needle@ == game_folder@ + "\\"@,
            overlay_passthrough(en_conf@, game_folder@, shortcode@) == crate::autoexec::string_views(r@)
                + root_entries_from(a@, needle@, sc@, i as int),
            autoexec_of(en_conf@) == match autoexec_of(cv@) { Some(x) => Some(x), None => None },
            cv@ == en_conf@,
            (autoexec_of(cv@) is Some ==> autoexec_of(cv@) == Some(a@)),
            (autoexec_of(cv@) is None ==> a@ == Seq::<char>::empty()),
        decreases a@.len() - i,
    {
        match find_from_exec(&a, &needle, i) {
            None => {
                assert(crate::autoexec::string_views(r@) + root_entries_from(a@, needle@, sc@, i as int)
                    =~= crate::autoexec::string_views(r@));
                return r;
            },
            Some(k) => {
                proof {
                    lemma_find_from_bounds(a@, needle@, i as int);
                }
                let start = k + needle.len();
                proof {
                    lemma_entry_end_bounds(a@, start as int);
                }
                let mut j = start;
                while j < alen && !(a[j] == '\\' || a[j] == '/' || a[j] == '"' || a[j] == ' '
                    || a[j] == '\t' || a[j] == '\r' || a[j] == '\n')
                    invariant
                        start <= j <= a@.len(),
                        alen == a@.len(),
                        entry_end(a@, start as int) == entry_end(a@, j as int),
                    decreases a@.len() - j,
                {
                    j += 1;
                }
                let e = slice_of(&a, start, j);
                let skip = e.len() == 0 || eq_ignore_case_exec(&e, &sc);
                let ghost before = r@;
                if !skip {
                    r.push(string_of(&e));
                    assert(crate::autoexec::string_views(r@) =~= crate::autoexec::string_views(
                        before,
                    ) + seq![e@]);
                }
                assert(crate::autoexec::string_views(r@) + root_entries_from(
                    a@,
                    needle@,
                    sc@,
                    start as int,
                ) =~= crate::autoexec::string_views(before) + root_entries_from(
                    a@,
                    needle@,
                    sc@,
                    i as int,
                ));
                i = start;
            },
        }
    }
}

/// An EN game's patched config holds no backslash: every Windows path
/// separator, and any in the working dir itself, becomes a `/`, and the
/// MIDI translation for DOSBox Staging adds none.
pub proof fn patched_en_config_has_no_backslash(
    content: Seq<char>,
    working_dir: Seq<char>,
    translate_for_staging: bool,
)
    ensures
        !patched_conf(content, working_dir, None, translate_for_staging).contains('\\'),
{
    reveal_strlit("\\");
    reveal_strlit("/");
    let a = replace_all(content, ".\\"@, working_dir + "/"@);
    crate::text::lemma_replace_clears(a, "\\"@, "/"@);
    crate::midi::translation_adds_no_backslash(rewrite_paths(content, working_dir + "/"@));
}

/// eXo's configs run as authored: an EN config with no Windows path in it
/// (no backslash at all) is launched exactly as written, apart from the
/// MIDI translation for DOSBox Staging.
pub proof fn configs_without_windows_paths_run_verbatim(
    content: Seq<char>,
    working_dir: Seq<char>,
    translate_for_staging: bool,
)
    requires
        !content.contains('\\'),
    ensures
        patched_conf(content, working_dir, None, translate_for_staging) == if translate_for_staging {
            translate_midi(content)
        } else {
            content
        },
{
    reveal_strlit("\\");
    reveal_strlit(".\\");
    crate::text::lemma_replace_absent(content, ".\\"@, working_dir + "/"@);
    crate::text::lemma_replace_absent(content, "\\"@, "/"@);
}

/// An LP launch runs in the directory it was found in: when the launch
/// found for an LP game is `(sub, cmd)` and the patched config's autoexec
/// runs it (a generated autoexec, or an overlay autoexec that had no launch
/// of its own), the patched config (without MIDI translation) ends with the
/// lines `cd <sub>` (when `sub` is not the game dir itself), `cls`, `<cmd>`
/// and `exit`, each on a line of its own. An overlay autoexec first enters
/// the game dir (`cd <shortcode>`); a generated one mounts the LP game dir
/// as `C:` and switches to it.
pub proof fn lp_launch_runs_in_its_directory(
    content: Seq<char>,
    working_dir: Seq<char>,
    info: LpConf,
    sub: Seq<char>,
    cmd: Seq<char>,
)
    requires
        lp_launch(info.snapshot, Some(content)) == Some((sub, cmd)),
        info.staging matches Some(st) ==> !has_launch_cmd(
            overlay_rewrite(
                content,
                info.game_folder@,
                replace_all(st@, "\\"@, "/"@),
                working_dir + "/"@,
            ),
        ),
    ensures
        sub.len() > 0 ==> ends_with(
            patched_conf(content, working_dir, Some(info), false),
            "cd "@ + sub + "\n"@ + "cls\n"@ + cmd + "\n"@ + "exit\n"@,
        ),
        sub.len() == 0 ==> ends_with(
            patched_conf(content, working_dir, Some(info), false),
            "\n"@ + "cls\n"@ + cmd + "\n"@ + "exit\n"@,
        ),
        info.staging is Some ==> ends_with(
            patched_conf(content, working_dir, Some(info), false),
            "cd "@ + info.shortcode@ + "\n"@ + if sub.len() > 0 {
                "cd "@ + sub + "\n"@ + "cls\n"@ + cmd + "\n"@ + "exit\n"@
            } else {
                "cls\n"@ + cmd + "\n"@ + "exit\n"@
            },
        ),
        info.staging is None ==> ends_with(
            patched_conf(content, working_dir, Some(info), false),
            "[autoexec]\n@mount c \""@ + info.game_dir@ + "\"\nc:\n"@ + if sub.len() > 0 {
                "cd "@ + sub + "\n"@ + "cls\n"@ + cmd + "\n"@ + "exit\n"@
            } else {
                "cls\n"@ + cmd + "\n"@ + "exit\n"@
            },
        ),
{
    let out = patched_conf(content, working_dir, Some(info), false);
    let ll = launch_lines(sub, cmd);
    let tail = ll + "exit\n"@;
    let pre = match info.staging {
        Some(st) => {
            let r = overlay_rewrite(
                content,
                info.game_folder@,
                replace_all(st@, "\\"@, "/"@),
                working_dir + "/"@,
            );
            drop_final_exit(r) + "cd "@ + info.shortcode@ + "\n"@
        },
        None => rewrite_paths(split_first(content, "[autoexec]"@), working_dir + "/"@)
            + "[autoexec]\n"@ + "@mount c \""@ + info.game_dir@ + "\"\n"@ + "c:\n"@,
    };
    assert(out =~= pre + tail);
    assert(out.skip(out.len() - tail.len()) =~= tail);
    let tl2 = if sub.len() > 0 {
        "cd "@ + sub + "\n"@ + "cls\n"@ + cmd + "\n"@ + "exit\n"@
    } else {
        "cls\n"@ + cmd + "\n"@ + "exit\n"@
    };
    assert(tail =~= tl2);
    match info.staging {
        Some(st) => {
            let r = overlay_rewrite(
                content,
                info.game_folder@,
                replace_all(st@, "\\"@, "/"@),
                working_dir + "/"@,
            );
            let t3 = "cd "@ + info.shortcode@ + "\n"@ + tl2;
            assert(out =~= drop_final_exit(r) + t3);
            assert(out.skip(out.len() - t3.len()) =~= t3);
        },
        None => {
            reveal_strlit("[autoexec]\n");
            reveal_strlit("@mount c \"");
            reveal_strlit("\"\n");
            reveal_strlit("c:\n");
            reveal_strlit("[autoexec]\n@mount c \"");
            reveal_strlit("\"\nc:\n");
            let t3 = "[autoexec]\n@mount c \""@ + info.game_dir@ + "\"\nc:\n"@ + tl2;
            let head = rewrite_paths(split_first(content, "[autoexec]"@), working_dir + "/"@);
            assert(out =~= head + t3);
            assert(out.skip(out.len() - t3.len()) =~= t3);
        },
    }
    if sub.len() > 0 {
        assert(tail =~= "cd "@ + sub + "\n"@ + "cls\n"@ + cmd + "\n"@ + "exit\n"@);
    } else {
        reveal_strlit("\n");
        let t2 = "\n"@ + "cls\n"@ + cmd + "\n"@ + "exit\n"@;
        assert(tail =~= "cls\n"@ + cmd + "\n"@ + "exit\n"@);
        match info.staging {
            Some(_) => {
                assert(pre.last() == '\n');
            },
            None => {
                reveal_strlit("c:\n");
                assert(pre.last() == '\n');
            },
        }
        assert(out.skip(out.len() - t2.len()) =~= t2);
    }
}

} // verus!
