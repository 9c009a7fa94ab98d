//! Reading the `[autoexec]` section of a DOSBox config.
use vstd::prelude::*;
use crate::text::{
    chars_of, contains, contains_str, copy_chars, eq_str, ends_with, first_token,
    first_token_exec, is_ascii_alpha, is_ascii_alpha_exec, lines, lines_exec, lower, lower_exec,
    split_second, split_second_exec, starts_with, starts_with_str, stem, stem_exec,
    strip_prefix, strip_prefix_str, trim, trim_exec, views,
};

verus! {

/// The `[autoexec]` section: the text after the first `[autoexec]` marker.
pub open spec fn autoexec_of(conf: Seq<char>) -> Option<Seq<char>> {
    split_second(conf, "[autoexec]"@)
}

/// `[autoexec]` section of a config, if it has one.
pub fn autoexec_exec(conf: &[char]) -> (r: Option<Vec<char>>)
    ensures
        match r {
            Some(v) => autoexec_of(conf@) == Some(v@),
            None => autoexec_of(conf@) is None,
        },
{
    let marker = chars_of("[autoexec]");
    proof {
        reveal_strlit("[autoexec]");
    }
    split_second_exec(conf, &marker)
}

/// A lower-cased line of at least two characters that starts with a drive
/// letter and a colon (`c:`, `d:\`).
pub open spec fn starts_drive(l: Seq<char>) -> bool {
    l.len() >= 2 && l[1] == ':' && is_ascii_alpha(l[0])
}

/// Exactly a drive switch (`c:`).
pub open spec fn is_drive_switch(l: Seq<char>) -> bool {
    l.len() == 2 && starts_drive(l)
}

fn starts_drive_exec(l: &[char]) -> (r: bool)
    ensures
        r == starts_drive(l@),
{
    l.len() >= 2 && l[1] == ':' && is_ascii_alpha_exec(l[0])
}

/// A lower-cased, trimmed autoexec line that launches something (not a
/// comment, drive switch, echo, mount, exit or cls, with or without a
/// leading `@`).
pub open spec fn is_launch_line(l: Seq<char>) -> bool {
    &&& l.len() != 0
    &&& !starts_with(l, "#"@)
    &&& !starts_with(l, "rem "@)
    &&& !starts_drive(l)
    &&& !starts_with(l, "@echo"@)
    &&& !starts_with(l, "@exit"@)
    &&& !starts_with(l, "echo "@)
    &&& !starts_with(l, "mount "@)
    &&& !starts_with(l, "@mount "@)
    &&& !starts_with(l, "imgmount"@)
    &&& !starts_with(l, "@imgmount"@)
    &&& !starts_with(l, "exit"@)
    &&& !starts_with(l, "cls"@)
}

fn is_launch_line_exec(l: &[char]) -> (r: bool)
    ensures
        r == is_launch_line(l@),
{
    l.len() != 0 && !starts_with_str(l, "#") && !starts_with_str(l, "rem ") && !starts_drive_exec(
        l,
    ) && !starts_with_str(l, "@echo") && !starts_with_str(l, "@exit") && !starts_with_str(
        l,
        "echo ",
    ) && !starts_with_str(l, "mount ") && !starts_with_str(l, "@mount ") && !starts_with_str(
        l,
        "imgmount",
    ) && !starts_with_str(l, "@imgmount") && !starts_with_str(
        l,
        "exit",
    ) && !starts_with_str(l, "cls")
}

/// The config's `[autoexec]` section holds at least one line that launches
/// something.
pub open spec fn has_launch_cmd(conf: Seq<char>) -> bool {
    match autoexec_of(conf) {
        None => false,
        Some(a) => any_launch_line(a),
    }
}

/// Some line of `a` launches something.
pub open spec fn any_launch_line(a: Seq<char>) -> bool {
    exists|i: int| 0 <= i < lines(a).len() && is_launch_line(lower(trim(#[trigger] lines(a)[i])))
}

/// Returns true if the `[autoexec]` section of a DOSBox config contains at
/// least one line that looks like an actual game launch command (not just
/// mounts, drive switches, comments or housekeeping).
pub fn autoexec_has_launch_cmd(conf: &str) -> (r: bool)
    ensures
        r == has_launch_cmd(conf@),
{
    let cv = chars_of(conf);
    autoexec_has_launch_cmd_chars(&cv)
}

/// `autoexec_has_launch_cmd` on the characters of a config.
pub fn autoexec_has_launch_cmd_chars(cv: &[char]) -> (r: bool)
    ensures
        r == has_launch_cmd(cv@),
{
    let a = match autoexec_exec(cv) {
        None => return false,
        Some(a) => a,
    };
    let ls = lines_exec(&a);
    let mut i: usize = 0;
    while i < ls.len()
        invariant
            i <= ls@.len(),
            views(ls@) == lines(a@),
            autoexec_of(cv@) == Some(a@),
            forall|k: int| 0 <= k < i ==> !is_launch_line(lower(trim(#[trigger] lines(a@)[k]))),
        decreases ls.len() - i,
    {
        let t = trim_exec(&ls[i]);
        let l = lower_exec(&t);
        if is_launch_line_exec(&l) {
            assert(views(ls@)[i as int] == ls@[i as int]@);
            assert(t@ == trim(ls@[i as int]@));
            assert(is_launch_line(lower(trim(lines(a@)[i as int]))));
            assert(any_launch_line(a@));
            return true;
        }
        i += 1;
    }
    false
}

/// A lower-cased, trimmed autoexec line that only sets up or tidies up:
/// blank, a comment, a mount (`mount` or `imgmount`, with or without `@`),
/// a drive switch, an echo, `cls` or an exit.
pub open spec fn setup_only_line(m: Seq<char>) -> bool {
    ||| m.len() == 0
    ||| starts_with(m, "#"@)
    ||| starts_with(m, "rem "@)
    ||| starts_with(m, "mount "@)
    ||| starts_with(m, "@mount "@)
    ||| starts_with(m, "imgmount"@)
    ||| starts_with(m, "@imgmount"@)
    ||| (m.len() >= 2 && m[1] == ':' && ('a' <= m[0] <= 'z' || 'A' <= m[0] <= 'Z'))
    ||| starts_with(m, "echo "@)
    ||| starts_with(m, "@echo"@)
    ||| starts_with(m, "cls"@)
    ||| starts_with(m, "exit"@)
    ||| starts_with(m, "@exit"@)
}

/// Mounts, drive switches, echoes, `cls` and exits launch nothing: no such
/// line is a launch line (a line starting with `imgmount` in particular).
pub proof fn setup_lines_launch_nothing(m: Seq<char>)
    requires
        setup_only_line(m),
    ensures
        !is_launch_line(m),
{
}

/// A bare program name is a launch: a line that is only letters and
/// digits, and not an `imgmount`, `exit` or `cls` command, launches
/// something (`sq5`, `game`).
pub proof fn program_names_launch(m: Seq<char>)
    requires
        plain_name(m),
        !starts_with(m, "imgmount"@),
        !starts_with(m, "exit"@),
        !starts_with(m, "cls"@),
    ensures
        is_launch_line(m),
{
    reveal_strlit("#");
    reveal_strlit("rem ");
    reveal_strlit("@echo");
    reveal_strlit("@exit");
    reveal_strlit("echo ");
    reveal_strlit("mount ");
    reveal_strlit("@mount ");
    reveal_strlit("@imgmount");
    assert(!starts_with(m, "#"@)) by {
        if starts_with(m, "#"@) {
            assert(m.take(1)[0] == m[0]);
        }
    }
    assert(!starts_with(m, "@echo"@) && !starts_with(m, "@exit"@) && !starts_with(m, "@mount "@)
        && !starts_with(m, "@imgmount"@)) by {
        if m.len() > 0 {
            assert(m.take(1)[0] == m[0]);
        }
        if starts_with(m, "@echo"@) {
            assert(m.take(5)[0] == m[0]);
        }
        if starts_with(m, "@exit"@) {
            assert(m.take(5)[0] == m[0]);
        }
        if starts_with(m, "@mount "@) {
            assert(m.take(7)[0] == m[0]);
        }
        if starts_with(m, "@imgmount"@) {
            assert(m.take(9)[0] == m[0]);
        }
    }
    assert(!starts_with(m, "rem "@)) by {
        if starts_with(m, "rem "@) {
            assert(m.take(4)[3] == m[3]);
        }
    }
    assert(!starts_with(m, "echo "@)) by {
        if starts_with(m, "echo "@) {
            assert(m.take(5)[4] == m[4]);
        }
    }
    assert(!starts_with(m, "mount "@)) by {
        if starts_with(m, "mount "@) {
            assert(m.take(6)[5] == m[5]);
        }
    }
    assert(!starts_drive(m)) by {
        if m.len() >= 2 {
            assert(m[1] != ':');
        }
    }
}

/// An autoexec made only of mounts, drive switches, echoes, comments,
/// `cls` and exits has no launch command, so an LP overlay of it gets the
/// launch appended.
pub proof fn setup_only_autoexec_has_no_launch(conf: Seq<char>)
    requires
        autoexec_of(conf) matches Some(a) && forall|i: int|
            0 <= i < lines(a).len() ==> setup_only_line(lower(trim(#[trigger] lines(a)[i]))),
    ensures
        !has_launch_cmd(conf),
{
    let a = autoexec_of(conf)->0;
    assert forall|i: int| 0 <= i < lines(a).len() implies !is_launch_line(
        lower(trim(#[trigger] lines(a)[i])),
    ) by {
        setup_lines_launch_nothing(lower(trim(lines(a)[i])));
    }
}

// ───────────────────── LP overlay compatibility ─────────────────────

/// `Path::join` on a POSIX host: an absolute `rel` replaces `base`.
pub open spec fn path_join(base: Seq<char>, rel: Seq<char>) -> Seq<char> {
    if starts_with(rel, "/"@) || base.len() == 0 {
        rel
    } else if ends_with(base, "/"@) {
        base + rel
    } else {
        base + "/"@ + rel
    }
}

/// `Path::join` on a POSIX host (see `path_join`).
pub fn path_join_exec(base: &[char], rel: &[char]) -> (r: Vec<char>)
    ensures
        r@ == path_join(base@, rel@),
{
    if starts_with_str(rel, "/") || base.len() == 0 {
        copy_chars(rel)
    } else {
        let mut r = copy_chars(base);
        if !crate::text::ends_with_str(base, "/") {
            crate::text::push_all(&mut r, &chars_of("/"));
        }
        crate::text::push_all(&mut r, rel);
        r
    }
}

/// `s.trim_start_matches('"')`.
pub open spec fn trim_quotes_start(s: Seq<char>) -> Seq<char>
    decreases s.len(),
{
    if s.len() > 0 && s[0] == '"' {
        trim_quotes_start(s.drop_first())
    } else {
        s
    }
}

/// `s.trim_end_matches('"')`.
pub open spec fn trim_quotes_end(s: Seq<char>) -> Seq<char>
    decreases s.len(),
{
    if s.len() > 0 && s.last() == '"' {
        trim_quotes_end(s.drop_last())
    } else {
        s
    }
}

/// `s.trim_matches('"')`.
pub open spec fn trim_quotes(s: Seq<char>) -> Seq<char> {
    trim_quotes_end(trim_quotes_start(s))
}

/// `s.trim_matches('"')` (see `trim_quotes`).
pub fn trim_quotes_exec(s: &[char]) -> (r: Vec<char>)
    ensures
        r@ == trim_quotes(s@),
{
    let mut i: usize = 0;
    assert(s@.skip(0) =~= s@);
    while i < s.len() && s[i] == '"'
        invariant
            i <= s@.len(),
            trim_quotes_start(s@) == trim_quotes_start(s@.skip(i as int)),
        decreases s.len() - i,
    {
        assert(s@.skip(i as int).drop_first() =~= s@.skip(i + 1));
        i += 1;
    }
    let ghost t = s@.skip(i as int);
    let mut j: usize = s.len();
    assert(t.take(t.len() as int) =~= t);
    while j > i && s[j - 1] == '"'
        invariant
            i <= j <= s@.len(),
            t == s@.skip(i as int),
            trim_quotes_end(t) == trim_quotes_end(t.take(j - i)),
        decreases j,
    {
        assert(t.take(j - i).drop_last() =~= t.take(j - i - 1));
        j -= 1;
    }
    assert(t.take(j - i) =~= s@.subrange(i as int, j as int));
    crate::text::slice_of(s, i, j)
}

/// `s.eq_ignore_ascii_case(t)`.
pub open spec fn eq_ignore_case(s: Seq<char>, t: Seq<char>) -> bool {
    lower(s) == lower(t)
}

/// `s.eq_ignore_ascii_case(t)`.
pub fn eq_ignore_case_exec(s: &[char], t: &[char]) -> (r: bool)
    ensures
        r == eq_ignore_case(s@, t@),
{
    let a = lower_exec(s);
    let b = lower_exec(t);
    if a.len() != b.len() {
        return false;
    }
    let mut k: usize = 0;
    while k < a.len()
        invariant
            a@.len() == b@.len(),
            a@ == lower(s@),
            b@ == lower(t@),
            k <= a@.len(),
            forall|m: int| 0 <= m < k ==> a@[m] == b@[m],
        decreases a.len() - k,
    {
        if a[k] != b[k] {
            assert(a@[k as int] != b@[k as int]);
            return false;
        }
        k += 1;
    }
    assert(a@ =~= b@);
    true
}

/// What the EN launch line needs from the LP layout.
pub enum LaunchCheck {
    /// Nothing to check: the line names a path, runs at the mount root, or
    /// there is no launch line at all.
    Trusted,
    /// The program `program` (lower-cased) must exist in directory `dir`.
    InDir { dir: String, program: String },
}

/// Plan for checking whether the EN autoexec runs against the LP overlay:
/// every directory in `cd_dirs` must exist (in order), then `launch` must
/// hold.
pub struct LpPlan {
    pub cd_dirs: Vec<String>,
    pub launch: LaunchCheck,
}

/// Spec form of [`LaunchCheck`].
pub enum LaunchCheckSpec {
    Trusted,
    InDir { dir: Seq<char>, program: Seq<char> },
}

/// A line with its leading `@` and surrounding whitespace removed.
pub open spec fn unprefixed(line: Seq<char>) -> Seq<char> {
    let t = trim(line);
    match strip_prefix(t, "@"@) {
        Some(r) => trim(r),
        None => trim(t),
    }
}

/// The part of a lower-cased line that names a `cd` target, and whether the
/// `cd` starts from the mount root (`cd\FOO`).
pub open spec fn cd_target(lower_line: Seq<char>) -> Option<(bool, Seq<char>)> {
    match strip_prefix(lower_line, "cd "@) {
        Some(r) => Some((false, r)),
        None => match strip_prefix(lower_line, "cd\\"@) {
            Some(r) => Some((true, r)),
            None => None,
        },
    }
}

/// Autoexec housekeeping that never launches anything.
pub open spec fn is_housekeeping(l: Seq<char>) -> bool {
    ||| is_drive_switch(l)
    ||| starts_with(l, "mount "@)
    ||| starts_with(l, "imgmount "@)
    ||| starts_with(l, "echo "@)
    ||| starts_with(l, "rem "@)
    ||| starts_with(l, "set "@)
    ||| starts_with(l, "config "@)
    ||| l == "cls"@
    ||| l == "exit"@
    ||| l == "pause"@
    ||| l == "echo"@
    ||| l == "echo."@
}

/// The program named by a launch line (after `call` / `loadfix`).
pub open spec fn launch_program(t: Seq<char>) -> Seq<char> {
    let base = match strip_prefix(t, "call "@) {
        Some(r) => r,
        None => match strip_prefix(t, "CALL "@) {
            Some(r) => r,
            None => match strip_prefix(t, "loadfix "@) {
                Some(r) => r,
                None => t,
            },
        },
    };
    first_token(base)
}

/// The program names a location (drive or path) rather than a bare name.
pub open spec fn names_location(base: Seq<char>) -> bool {
    contains(base, ":"@) || contains(base, "\\"@) || contains(base, "/"@)
}

/// Plan for the remaining lines `ls`, with current directory `cwd` (None:
/// the overlay mount root) and the directories already required.
pub open spec fn plan_lines(
    ls: Seq<Seq<char>>,
    cwd: Option<Seq<char>>,
    cds: Seq<Seq<char>>,
    shortcode: Seq<char>,
    lp_game_dir: Seq<char>,
    real_root: Seq<char>,
) -> (Seq<Seq<char>>, LaunchCheckSpec)
    decreases ls.len(),
{
    if ls.len() == 0 {
        (cds, LaunchCheckSpec::Trusted)
    } else {
        let rest = ls.drop_first();
        let t = unprefixed(ls[0]);
        let l = lower(t);
        if t.len() == 0 || starts_with(t, "#"@) || l == "cd"@ || l == "cd."@ || l == "cd.."@ {
            plan_lines(rest, cwd, cds, shortcode, lp_game_dir, real_root)
        } else if cd_target(l) is Some {
            let (from_root, raw) = cd_target(l)->0;
            let cwd0 = if from_root {
                None
            } else {
                cwd
            };
            let target = trim_quotes(trim(raw));
            if target.len() == 0 || target == "\\"@ || target == "/"@ || target == ".."@ {
                plan_lines(rest, None, cds, shortcode, lp_game_dir, real_root)
            } else {
                let next = match cwd0 {
                    None => if eq_ignore_case(target, shortcode) {
                        lp_game_dir
                    } else {
                        path_join(real_root, target)
                    },
                    Some(d) => path_join(d, target),
                };
                plan_lines(rest, Some(next), cds.push(next), shortcode, lp_game_dir, real_root)
            }
        } else if is_housekeeping(l) {
            plan_lines(rest, cwd, cds, shortcode, lp_game_dir, real_root)
        } else {
            let base = launch_program(t);
            if names_location(base) || cwd is None {
                (cds, LaunchCheckSpec::Trusted)
            } else {
                (cds, LaunchCheckSpec::InDir { dir: cwd->0, program: lower(base) })
            }
        }
    }
}

/// Plan for an EN config against an LP layout; None when the config has no
/// `[autoexec]` section (never compatible).
pub open spec fn lp_plan(
    en_conf: Seq<char>,
    shortcode: Seq<char>,
    lp_game_dir: Seq<char>,
    real_root: Seq<char>,
) -> Option<(Seq<Seq<char>>, LaunchCheckSpec)> {
    match autoexec_of(en_conf) {
        None => None,
        Some(a) => Some(plan_lines(lines(a), None, seq![], shortcode, lp_game_dir, real_root)),
    }
}

pub open spec fn string_views(v: Seq<String>) -> Seq<Seq<char>> {
    v.map_values(|x: String| x@)
}

pub open spec fn launch_view(l: LaunchCheck) -> LaunchCheckSpec {
    match l {
        LaunchCheck::Trusted => LaunchCheckSpec::Trusted,
        LaunchCheck::InDir { dir, program } => LaunchCheckSpec::InDir {
            dir: dir@,
            program: program@,
        },
    }
}

fn unprefixed_exec(line: &[char]) -> (r: Vec<char>)
    ensures
        r@ == unprefixed(line@),
{
    let t = trim_exec(line);
    match strip_prefix_str(&t, "@") {
        Some(r) => trim_exec(&r),
        None => trim_exec(&t),
    }
}

fn cd_target_exec(l: &[char]) -> (r: Option<(bool, Vec<char>)>)
    ensures
        match r {
            Some((b, v)) => cd_target(l@) == Some((b, v@)),
            None => cd_target(l@) is None,
        },
{
    match strip_prefix_str(l, "cd ") {
        Some(r) => Some((false, r)),
        None => match strip_prefix_str(l, "cd\\") {
            Some(r) => Some((true, r)),
            None => None,
        },
    }
}

fn is_housekeeping_exec(l: &[char]) -> (r: bool)
    ensures
        r == is_housekeeping(l@),
{
    (l.len() == 2 && starts_drive_exec(l)) || starts_with_str(l, "mount ") || starts_with_str(
        l,
        "imgmount ",
    ) || starts_with_str(l, "echo ") || starts_with_str(l, "rem ") || starts_with_str(l, "set ")
        || starts_with_str(l, "config ") || eq_str(l, "cls") || eq_str(l, "exit") || eq_str(
        l,
        "pause",
    ) || eq_str(l, "echo") || eq_str(l, "echo.")
}

fn launch_program_exec(t: &[char]) -> (r: Vec<char>)
    ensures
        r@ == launch_program(t@),
{
    let base = match strip_prefix_str(t, "call ") {
        Some(r) => r,
        None => match strip_prefix_str(t, "CALL ") {
            Some(r) => r,
            None => match strip_prefix_str(t, "loadfix ") {
                Some(r) => r,
                None => copy_chars(t),
            },
        },
    };
    first_token_exec(&base)
}

/// Which directories the EN autoexec `cd`s into and which program its launch
/// line runs, when the config runs against the overlay mount of an LP game:
/// a root-level `cd <shortcode>` lands in `lp_game_dir`, any other root-level
/// `cd` resolves under `real_root`. None when the config has no
/// `[autoexec]` section.
pub fn lp_autoexec_plan(en_conf: &str, shortcode: &str, lp_game_dir: &str, real_root: &str) -> (r:
    Option<LpPlan>)
    ensures
        match r {
            Some(p) => lp_plan(en_conf@, shortcode@, lp_game_dir@, real_root@) == Some(
                (string_views(p.cd_dirs@), launch_view(p.launch)),
            ),
            None => lp_plan(en_conf@, shortcode@, lp_game_dir@, real_root@) is None,
        },
{
    let cv = chars_of(en_conf);
    let sc = chars_of(shortcode);
    let lp = chars_of(lp_game_dir);
    let root = chars_of(real_root);
    let a = match autoexec_exec(&cv) {
        None => return None,
        Some(a) => a,
    };
    let ls = lines_exec(&a);
    let mut cwd: Option<Vec<char>> = None;
    let mut cds: Vec<String> = Vec::new();
    let mut i: usize = 0;
    assert(views(ls@).skip(0) =~= views(ls@));
    assert(string_views(cds@) =~= Seq::<Seq<char>>::empty());
    while i < ls.len()
        invariant
            i <= ls@.len(),
            views(ls@) == lines(a@),
            autoexec_of(cv@) == Some(a@),
            cv@ == en_conf@,
            sc@ == shortcode@,
            lp@ == lp_game_dir@,
            root@ == real_root@,
            plan_lines(lines(a@), None, seq![], sc@, lp@, root@) == plan_lines(
                views(ls@).skip(i as int),
                crate::midi::opt_view(cwd),
                string_views(cds@),
                sc@,
                lp@,
                root@,
            ),
        decreases ls.len() - i,
    {
        let ghost rest_before = views(ls@).skip(i as int);
        assert(rest_before.drop_first() =~= views(ls@).skip(i + 1));
        assert(rest_before[0] == ls@[i as int]@);
        let t = unprefixed_exec(&ls[i]);
        let l = lower_exec(&t);
        if t.len() == 0 || starts_with_str(&t, "#") || eq_str(&l, "cd") || eq_str(&l, "cd.")
            || eq_str(&l, "cd..") {
            i += 1;
            continue;
        }
        match cd_target_exec(&l) {
            Some((from_root, raw)) => {
                if from_root {
                    cwd = None;
                }
                let tr = trim_exec(&raw);
                let target = trim_quotes_exec(&tr);
                if target.len() == 0 || eq_str(&target, "\\") || eq_str(&target, "/") || eq_str(
                    &target,
                    "..",
                ) {
                    cwd = None;
                    i += 1;
                    continue;
                }
                let next = match &cwd {
                    None => if eq_ignore_case_exec(&target, &sc) {
                        copy_chars(&lp)
                    } else {
                        path_join_exec(&root, &target)
                    },
                    Some(d) => path_join_exec(d, &target),
                };
                let ghost before = cds@;
                cds.push(crate::text::string_of(&next));
                assert(string_views(cds@) =~= string_views(before).push(next@));
                cwd = Some(next);
                i += 1;
            },
            None => {
                if is_housekeeping_exec(&l) {
                    i += 1;
                    continue;
                }
                let base = launch_program_exec(&t);
                let located = contains_str(&base, ":") || contains_str(&base, "\\")
                    || contains_str(&base, "/");
                match cwd {
                    None => {
                        return Some(LpPlan { cd_dirs: cds, launch: LaunchCheck::Trusted });
                    },
                    Some(d) => {
                        if located {
                            return Some(LpPlan { cd_dirs: cds, launch: LaunchCheck::Trusted });
                        }
                        let prog = lower_exec(&base);
                        return Some(
                            LpPlan {
                                cd_dirs: cds,
                                launch: LaunchCheck::InDir {
                                    dir: crate::text::string_of(&d),
                                    program: crate::text::string_of(&prog),
                                },
                            },
                        );
                    },
                }
            },
        }
    }
    Some(LpPlan { cd_dirs: cds, launch: LaunchCheck::Trusted })
}

/// A plain directory name: non-empty ASCII letters and digits (eXoDOS
/// shortcodes are such names).
pub open spec fn plain_name(x: Seq<char>) -> bool {
    x.len() > 0 && forall|i: int|
        0 <= i < x.len() ==> ('a' <= #[trigger] x[i] <= 'z' || 'A' <= x[i] <= 'Z' || '0' <= x[i]
            <= '9')
}

proof fn lemma_plan_keeps_required(
    ls: Seq<Seq<char>>,
    cwd: Option<Seq<char>>,
    cds: Seq<Seq<char>>,
    shortcode: Seq<char>,
    lp_game_dir: Seq<char>,
    real_root: Seq<char>,
)
    ensures
        plan_lines(ls, cwd, cds, shortcode, lp_game_dir, real_root).0.len() >= cds.len(),
        plan_lines(ls, cwd, cds, shortcode, lp_game_dir, real_root).0.take(cds.len() as int) == cds,
    decreases ls.len(),
{
    if ls.len() > 0 {
        let rest = ls.drop_first();
        let t = unprefixed(ls[0]);
        let l = lower(t);
        if t.len() == 0 || starts_with(t, "#"@) || l == "cd"@ || l == "cd."@ || l == "cd.."@ {
            lemma_plan_keeps_required(rest, cwd, cds, shortcode, lp_game_dir, real_root);
        } else if cd_target(l) is Some {
            let (from_root, raw) = cd_target(l)->0;
            let cwd0 = if from_root {
                None
            } else {
                cwd
            };
            let target = trim_quotes(trim(raw));
            if target.len() == 0 || target == "\\"@ || target == "/"@ || target == ".."@ {
                lemma_plan_keeps_required(rest, None, cds, shortcode, lp_game_dir, real_root);
            } else {
                let next = match cwd0 {
                    None => if eq_ignore_case(target, shortcode) {
                        lp_game_dir
                    } else {
                        path_join(real_root, target)
                    },
                    Some(d) => path_join(d, target),
                };
                lemma_plan_keeps_required(
                    rest,
                    Some(next),
                    cds.push(next),
                    shortcode,
                    lp_game_dir,
                    real_root,
                );
                let r = plan_lines(rest, Some(next), cds.push(next), shortcode, lp_game_dir, real_root).0;
                assert(r.take(cds.len() as int) =~= r.take(cds.len() + 1int).take(cds.len() as int));
                assert(cds.push(next).take(cds.len() as int) =~= cds);
            }
        } else if is_housekeeping(l) {
            lemma_plan_keeps_required(rest, cwd, cds, shortcode, lp_game_dir, real_root);
        } else {
            assert(cds.take(cds.len() as int) =~= cds);
        }
    } else {
        assert(cds.take(cds.len() as int) =~= cds);
    }
}

proof fn lemma_plain_lower(x: Seq<char>)
    requires
        plain_name(x),
    ensures
        plain_name(lower(x)),
        lower(lower(x)) == lower(x),
        trim(lower(x)) == lower(x),
        trim_quotes(lower(x)) == lower(x),
        lower(x) != "\\"@,
        lower(x) != "/"@,
        lower(x) != ".."@,
{
    reveal_strlit("\\");
    reveal_strlit("/");
    reveal_strlit("..");
    let y = lower(x);
    assert(lower(y) =~= y);
    assert(!crate::text::is_ws(y[0]));
    assert(!crate::text::is_ws(y.last()));
    assert(crate::text::trim_start(y) == y);
    assert(crate::text::trim_end(y) == y);
    assert(y[0] != '.');
}

/// A `cd` from the mount root: from the overlay root (no current
/// directory), a line `cd <x>` (or, from anywhere, `cd\\<x>`) makes the
/// next directory the plan requires the LP game dir when `x` is the
/// shortcode in any letter case, and `<real_root>/<x lower-cased>`
/// otherwise, whatever lines come before or after.
pub proof fn root_cd_to_shortcode_lands_in_lp_dir(
    first: Seq<char>,
    x: Seq<char>,
    rest: Seq<Seq<char>>,
    cwd: Option<Seq<char>>,
    cds: Seq<Seq<char>>,
    shortcode: Seq<char>,
    lp_game_dir: Seq<char>,
    real_root: Seq<char>,
)
    requires
        plain_name(x),
        (first == "cd "@ + x && cwd is None) || first == "cd\\"@ + x,
    ensures
        plan_lines(seq![first] + rest, cwd, cds, shortcode, lp_game_dir, real_root).0.len() > cds.len(),
        plan_lines(seq![first] + rest, cwd, cds, shortcode, lp_game_dir, real_root).0[cds.len() as int]
            == if lower(x) == lower(shortcode) {
            lp_game_dir
        } else {
            path_join(real_root, lower(x))
        },
{
    reveal_strlit("cd ");
    reveal_strlit("cd\\");
    reveal_strlit("@");
    reveal_strlit("#");
    reveal_strlit("cd");
    reveal_strlit("cd.");
    reveal_strlit("cd..");
    let ls = seq![first] + rest;
    assert(ls[0] == first);
    assert(ls.drop_first() =~= rest);
    lemma_plain_lower(x);
    let y = lower(x);
    assert(first[0] == 'c');
    assert(first.last() == x.last());
    assert(!crate::text::is_ws(first[0]));
    assert(!crate::text::is_ws(first.last()));
    assert(crate::text::trim_start(first) == first);
    assert(crate::text::trim_end(first) == first);
    assert(trim(first) == first);
    assert(!starts_with(first, "@"@)) by {
        assert(first.take(1)[0] == 'c');
    }
    assert(unprefixed(first) == first);
    let l = lower(first);
    assert(first.len() >= 4);
    assert(!starts_with(first, "#"@)) by {
        assert(first.take(1)[0] == 'c');
    }
    assert(l != "cd"@ && l != "cd."@ && l != "cd.."@) by {
        assert(l.len() >= 4);
        assert(l[2] == ' ' || l[2] == '\\');
    }
    if first == "cd "@ + x {
        assert(l =~= "cd "@ + y);
        assert(starts_with(l, "cd "@)) by {
            assert(l.take(3) =~= "cd "@);
        }
        assert(l.skip(3) =~= y);
        assert(cd_target(l) == Some((false, y)));
        assert(cwd is None) by {
            if first == "cd\\"@ + x {
                assert(first[2] == '\\');
                assert(first[2] == ' ');
            }
        }
    } else {
        assert(l =~= "cd\\"@ + y);
        assert(!starts_with(l, "cd "@)) by {
            assert(l.take(3)[2] == '\\');
        }
        assert(starts_with(l, "cd\\"@)) by {
            assert(l.take(3) =~= "cd\\"@);
        }
        assert(l.skip(3) =~= y);
        assert(cd_target(l) == Some((true, y)));
    }
    assert(unprefixed(ls[0]) == first);
    assert(lower(unprefixed(ls[0])) == l);
    assert(cd_target(l) is Some);
    assert(!(first.len() == 0 || starts_with(first, "#"@) || l == "cd"@ || l == "cd."@ || l == "cd.."@));
    assert(trim_quotes(trim(y)) == y);
    assert(eq_ignore_case(y, shortcode) == (lower(x) == lower(shortcode)));
    assert(y.len() > 0);
    let next = if lower(x) == lower(shortcode) {
        lp_game_dir
    } else {
        path_join(real_root, y)
    };
    assert(plan_lines(ls, cwd, cds, shortcode, lp_game_dir, real_root) == plan_lines(
        rest,
        Some(next),
        cds.push(next),
        shortcode,
        lp_game_dir,
        real_root,
    ));
    lemma_plan_keeps_required(rest, Some(next), cds.push(next), shortcode, lp_game_dir, real_root);
    let r = plan_lines(rest, Some(next), cds.push(next), shortcode, lp_game_dir, real_root).0;
    assert(r.take(cds.len() + 1int)[cds.len() as int] == r[cds.len() as int]);
}

/// For an EN config whose autoexec opens with `cd <x>`, `x` the shortcode
/// in any letter case, the first directory `lp_autoexec_plan` requires is
/// the LP game dir.
pub proof fn lp_plan_cd_to_shortcode(
    en_conf: Seq<char>,
    x: Seq<char>,
    shortcode: Seq<char>,
    lp_game_dir: Seq<char>,
    real_root: Seq<char>,
)
    requires
        plain_name(x),
        lower(x) == lower(shortcode),
        autoexec_of(en_conf) matches Some(a) && lines(a).len() > 0 && lines(a)[0] == "cd "@ + x,
    ensures
        lp_plan(en_conf, shortcode, lp_game_dir, real_root) matches Some((cds, _)) && cds.len() > 0
            && cds[0] == lp_game_dir,
{
    let ls = lines(autoexec_of(en_conf)->0);
    assert(ls =~= seq![ls[0]] + ls.drop_first());
    root_cd_to_shortcode_lands_in_lp_dir(
        ls[0],
        x,
        ls.drop_first(),
        None,
        seq![],
        shortcode,
        lp_game_dir,
        real_root,
    );
}

/// Some directory entry, by its lower-cased name or stem, is `program`.
pub open spec fn dir_has_program(names: Seq<Seq<char>>, program: Seq<char>) -> bool {
    exists|i: int|
        0 <= i < names.len() && (stem(lower(#[trigger] names[i])) == program || lower(names[i])
            == program)
}

/// Does a directory holding `names` contain `program` (lower-cased, with or
/// without its extension)?
pub fn dir_has_program_exec(names: &Vec<String>, program: &str) -> (r: bool)
    ensures
        r == dir_has_program(string_views(names@), program@),
{
    let p = chars_of(program);
    let mut i: usize = 0;
    while i < names.len()
        invariant
            i <= names@.len(),
            p@ == program@,
            forall|k: int|
                0 <= k < i ==> !(stem(lower(#[trigger] string_views(names@)[k])) == p@ || lower(
                    string_views(names@)[k],
                ) == p@),
        decreases names.len() - i,
    {
        let n = chars_of(names[i].as_str());
        let nl = lower_exec(&n);
        let st = stem_exec(&nl);
        let hit = crate::text::eq_chars(&st, &p) || crate::text::eq_chars(&nl, &p);
        assert(string_views(names@)[i as int] == n@);
        if hit {
            return true;
        }
        i += 1;
    }
    false
}

/// The plan holds: every planned `cd` directory exists and, when the
/// launch line must be checked, its directory (listed as
/// `launch_dir_names`) holds the program.
pub fn lp_plan_holds(plan: &LpPlan, dirs_exist: &[bool], launch_dir_names: &Vec<String>) -> (r:
    bool)
    requires
        dirs_exist@.len() == plan.cd_dirs@.len(),
    ensures
        r == ((forall|i: int| 0 <= i < dirs_exist@.len() ==> dirs_exist@[i]) && match launch_view(
            plan.launch,
        ) {
            LaunchCheckSpec::Trusted => true,
            LaunchCheckSpec::InDir { dir, program } => dir_has_program(
                string_views(launch_dir_names@),
                program,
            ),
        }),
{
    let mut i: usize = 0;
    while i < dirs_exist.len()
        invariant
            i <= dirs_exist@.len(),
            forall|k: int| 0 <= k < i ==> dirs_exist@[k],
        decreases dirs_exist.len() - i,
    {
        if !dirs_exist[i] {
            return false;
        }
        i += 1;
    }
    match &plan.launch {
        LaunchCheck::Trusted => true,
        LaunchCheck::InDir { dir, program } => dir_has_program_exec(launch_dir_names, program.as_str()),
    }
}

} // verus!
