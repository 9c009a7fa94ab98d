//! Finding the launch command of a language-pack (LP) game from a snapshot of
//! its directory.
use vstd::prelude::*;
use crate::autoexec::{is_drive_switch, string_views};
use crate::text::{
    chars_of, contains, contains_str, copy_chars, ends_with, ends_with_str, eq_chars, eq_str,
    first_token, first_token_exec, lines, lines_exec, lower, lower_exec, starts_with,
    starts_with_str, stem, stem_exec, string_of, strip_prefix, strip_prefix_str, trim, trim_exec,
    views,
};

verus! {

/// `str::to_lowercase`: the full Unicode lowercase mapping. Its result is
/// a function of the text alone.
pub uninterp spec fn unicode_lower(s: Seq<char>) -> Seq<char>;

/// Calls `str::to_lowercase`; the contract claims only that the result is
/// the Unicode lowercase mapping of the argument, named `unicode_lower`.
#[verifier::external_body]
fn to_lowercase(s: &str) -> (r: String)
    ensures
        r@ == unicode_lower(s@),
{
    s.to_lowercase()
}

/// One entry of a listed directory.
pub struct EntrySnap {
    /// The entry's file name (`file_name().to_string_lossy()`).
    pub name: String,
    /// The file's text, for entries whose lower-cased name ends in `.bat`
    /// and that could be read as UTF-8.
    pub text: Option<String>,
}

/// A listed directory.
pub struct DirSnap {
    /// The directory's own file name (empty when it has none).
    pub name: String,
    /// Its entries, in listing order (empty when it cannot be listed).
    pub entries: Vec<EntrySnap>,
    /// The text of its `run.bat`, when that reads as UTF-8.
    pub run_bat: Option<String>,
}

/// A game directory and, in listing order, each of its subdirectories.
pub struct GameDirSnap {
    pub root: DirSnap,
    pub subdirs: Vec<DirSnap>,
}

/// Number of directories searched: the game dir, then each subdirectory.
pub open spec fn n_search(g: GameDirSnap) -> int {
    g.subdirs@.len() + 1int
}

/// The `i`-th searched directory.
pub open spec fn search_dir(g: GameDirSnap, i: int) -> DirSnap {
    if i == 0 {
        g.root
    } else {
        g.subdirs@[i - 1]
    }
}

/// Its path relative to the game dir (empty for the game dir itself).
pub open spec fn search_subdir(g: GameDirSnap, i: int) -> Seq<char> {
    if i == 0 {
        seq![]
    } else {
        g.subdirs@[i - 1].name@
    }
}

fn search_at(g: &GameDirSnap, i: usize) -> (r: (Vec<char>, &DirSnap))
    requires
        i < n_search(*g),
    ensures
        r.0@ == search_subdir(*g, i as int),
        *r.1 == search_dir(*g, i as int),
{
    if i == 0 {
        (Vec::new(), &g.root)
    } else {
        (chars_of(g.subdirs[i - 1].name.as_str()), &g.subdirs[i - 1])
    }
}

pub open spec fn entry_names(d: DirSnap) -> Seq<Seq<char>> {
    d.entries@.map_values(|e: EntrySnap| e.name@)
}

// ───────────── strategy 0: the EN autoexec's launch command ─────────────

/// A line after `@` and `call` prefixes are removed.
pub open spec fn en_command(line: Seq<char>) -> Seq<char> {
    let t = trim(line);
    let t = match strip_prefix(t, "@"@) {
        Some(r) => trim(r),
        None => trim(t),
    };
    match strip_prefix(t, "call "@) {
        Some(r) => trim(r),
        None => match strip_prefix(t, "CALL "@) {
            Some(r) => trim(r),
            None => trim(t),
        },
    }
}

/// Housekeeping as the EN-command scan sees it (lower-cased command).
pub open spec fn en_housekeeping(l: Seq<char>) -> bool {
    ||| is_drive_switch(l)
    ||| starts_with(l, "#"@)
    ||| starts_with(l, "mount "@)
    ||| starts_with(l, "imgmount "@)
    ||| starts_with(l, "echo "@)
    ||| starts_with(l, "rem "@)
    ||| starts_with(l, "cd "@)
    ||| starts_with(l, "cd\\"@)
    ||| starts_with(l, "set "@)
    ||| l == "cls"@
    ||| l == "cd"@
    ||| l == "exit"@
    ||| l == "pause"@
    ||| l == "echo"@
    ||| l == "echo."@
}

/// A lower-cased file name of a DOS program (`.exe`, `.com`, `.bat`).
pub open spec fn runnable(n: Seq<char>) -> bool {
    ends_with(n, ".exe"@) || ends_with(n, ".com"@) || ends_with(n, ".bat"@)
}

/// The directory holds a runnable file whose name or stem is `base_lower`.
pub open spec fn has_runnable(names: Seq<Seq<char>>, base_lower: Seq<char>) -> bool {
    exists|i: int|
        0 <= i < names.len() && runnable(lower(#[trigger] names[i])) && (stem(lower(names[i]))
            == base_lower || lower(names[i]) == base_lower)
}

/// Strategy 0 over autoexec lines `ls` from line `k`: the first command that
/// is not housekeeping, if the game dir holds its program.
pub open spec fn en_scan(ls: Seq<Seq<char>>, k: int, names: Seq<Seq<char>>) -> Option<Seq<char>>
    decreases ls.len() - k,
{
    if k < 0 || k >= ls.len() {
        None
    } else {
        let t = en_command(ls[k]);
        if t.len() == 0 || en_housekeeping(lower(t)) {
            en_scan(ls, k + 1, names)
        } else if has_runnable(names, lower(first_token(t))) {
            Some(t)
        } else {
            None
        }
    }
}

pub open spec fn strategy_en(g: GameDirSnap, en_conf: Option<Seq<char>>) -> Option<Seq<char>> {
    match en_conf {
        None => None,
        Some(c) => match crate::autoexec::autoexec_of(c) {
            None => None,
            Some(a) => en_scan(lines(a), 0, entry_names(g.root)),
        },
    }
}

fn en_command_exec(line: &[char]) -> (r: Vec<char>)
    ensures
        r@ == en_command(line@),
{
    let t = trim_exec(line);
    let t = match strip_prefix_str(&t, "@") {
        Some(r) => trim_exec(&r),
        None => trim_exec(&t),
    };
    match strip_prefix_str(&t, "call ") {
        Some(r) => trim_exec(&r),
        None => match strip_prefix_str(&t, "CALL ") {
            Some(r) => trim_exec(&r),
            None => trim_exec(&t),
        },
    }
}

fn en_housekeeping_exec(l: &[char]) -> (r: bool)
    ensures
        r == en_housekeeping(l@),
{
    (l.len() == 2 && l[1] == ':' && crate::text::is_ascii_alpha_exec(l[0])) || starts_with_str(
        l,
        "#",
    ) || starts_with_str(l, "mount ") || starts_with_str(l, "imgmount ") || starts_with_str(
        l,
        "echo ",
    ) || starts_with_str(l, "rem ") || starts_with_str(l, "cd ") || starts_with_str(l, "cd\\")
        || starts_with_str(l, "set ") || eq_str(l, "cls") || eq_str(l, "cd") || eq_str(l, "exit")
        || eq_str(l, "pause") || eq_str(l, "echo") || eq_str(l, "echo.")
}

fn runnable_exec(n: &[char]) -> (r: bool)
    ensures
        r == runnable(n@),
{
    ends_with_str(n, ".exe") || ends_with_str(n, ".com") || ends_with_str(n, ".bat")
}

fn has_runnable_exec(d: &DirSnap, base_lower: &[char]) -> (r: bool)
    ensures
        r == has_runnable(entry_names(*d), base_lower@),
{
    let mut i: usize = 0;
    while i < d.entries.len()
        invariant
            i <= d.entries@.len(),
            forall|k: int|
                0 <= k < i ==> !(runnable(lower(#[trigger] entry_names(*d)[k])) && (stem(
                    lower(entry_names(*d)[k]),
                ) == base_lower@ || lower(entry_names(*d)[k]) == base_lower@)),
        decreases d.entries.len() - i,
    {
        let n = chars_of(d.entries[i].name.as_str());
        let nl = lower_exec(&n);
        let st = stem_exec(&nl);
        assert(entry_names(*d)[i as int] == n@);
        if runnable_exec(&nl) && (eq_chars(&st, base_lower) || eq_chars(&nl, base_lower)) {
            return true;
        }
        i += 1;
    }
    false
}

fn strategy_en_exec(g: &GameDirSnap, en_conf: Option<&str>) -> (r: Option<Vec<char>>)
    ensures
        crate::midi::opt_view(r) == strategy_en(
            *g,
            match en_conf {
                Some(c) => Some(c@),
                None => None,
            },
        ),
{
    let c = match en_conf {
        None => return None,
        Some(c) => c,
    };
    let cv = chars_of(c);
    let a = match crate::autoexec::autoexec_exec(&cv) {
        None => return None,
        Some(a) => a,
    };
    let ls = lines_exec(&a);
    let mut k: usize = 0;
    while k < ls.len()
        invariant
            k <= ls@.len(),
            views(ls@) == lines(a@),
            en_conf == Some(c),
            crate::autoexec::autoexec_of(c@) == Some(a@),
            en_scan(lines(a@), 0, entry_names(g.root)) == en_scan(
                lines(a@),
                k as int,
                entry_names(g.root),
            ),
        decreases ls.len() - k,
    {
        assert(views(ls@)[k as int] == ls@[k as int]@);
        let t = en_command_exec(&ls[k]);
        let l = lower_exec(&t);
        if t.len() == 0 || en_housekeeping_exec(&l) {
            k += 1;
            continue;
        }
        let base = first_token_exec(&t);
        let bl = lower_exec(&base);
        if has_runnable_exec(&g.root, &bl) {
            return Some(t);
        }
        return None;
    }
    None
}

// ───────────── strategy 1: the program `run.bat` calls ─────────────

/// The command of a `run.bat` line.
pub open spec fn bat_command(line: Seq<char>) -> Seq<char> {
    let t = trim(line);
    let c = match strip_prefix(t, "@call "@) {
        Some(r) => r,
        None => match strip_prefix(t, "@CALL "@) {
            Some(r) => r,
            None => match strip_prefix(t, "@"@) {
                Some(r) => r,
                None => t,
            },
        },
    };
    trim(c)
}

/// `run.bat` lines that never name the game's program.
pub open spec fn bat_skipped(l: Seq<char>) -> bool {
    ||| starts_with(l, ":"@)
    ||| starts_with(l, "echo"@)
    ||| starts_with(l, "cls"@)
    ||| starts_with(l, "copy"@)
    ||| starts_with(l, "config"@)
    ||| starts_with(l, "choice"@)
    ||| starts_with(l, "if "@)
    ||| starts_with(l, "goto"@)
    ||| starts_with(l, "exit"@)
    ||| starts_with(l, "rem "@)
    ||| starts_with(l, "set "@)
    ||| starts_with(l, "pause"@)
}

/// Some entry's lower-cased name or stem is `base_lower`.
pub open spec fn has_named(names: Seq<Seq<char>>, base_lower: Seq<char>) -> bool {
    exists|i: int|
        0 <= i < names.len() && (stem(lower(#[trigger] names[i])) == base_lower || lower(names[i])
            == base_lower)
}

/// The first `run.bat` line from `k` on whose program is in the directory.
pub open spec fn bat_scan(ls: Seq<Seq<char>>, k: int, names: Seq<Seq<char>>) -> Option<Seq<char>>
    decreases ls.len() - k,
{
    if k < 0 || k >= ls.len() {
        None
    } else {
        let c = bat_command(ls[k]);
        if c.len() == 0 || bat_skipped(lower(c)) {
            bat_scan(ls, k + 1, names)
        } else if has_named(names, lower(first_token(c))) {
            Some(first_token(c))
        } else {
            bat_scan(ls, k + 1, names)
        }
    }
}

pub open spec fn run_bat_of(d: DirSnap) -> Option<Seq<char>> {
    match d.run_bat {
        Some(t) => bat_scan(lines(t@), 0, entry_names(d)),
        None => None,
    }
}

/// Strategy 1 over the searched directories from `i`.
pub open spec fn strategy_run_bat(g: GameDirSnap, i: int) -> Option<(Seq<char>, Seq<char>)>
    decreases n_search(g) - i,
{
    if i < 0 || i >= n_search(g) {
        None
    } else {
        match run_bat_of(search_dir(g, i)) {
            Some(c) => Some((search_subdir(g, i), c)),
            None => strategy_run_bat(g, i + 1),
        }
    }
}

fn bat_command_exec(line: &[char]) -> (r: Vec<char>)
    ensures
        r@ == bat_command(line@),
{
    let t = trim_exec(line);
    let c = match strip_prefix_str(&t, "@call ") {
        Some(r) => r,
        None => match strip_prefix_str(&t, "@CALL ") {
            Some(r) => r,
            None => match strip_prefix_str(&t, "@") {
                Some(r) => r,
                None => copy_chars(&t),
            },
        },
    };
    trim_exec(&c)
}

fn bat_skipped_exec(l: &[char]) -> (r: bool)
    ensures
        r == bat_skipped(l@),
{
    starts_with_str(l, ":") || starts_with_str(l, "echo") || starts_with_str(l, "cls")
        || starts_with_str(l, "copy") || starts_with_str(l, "config") || starts_with_str(
        l,
        "choice",
    ) || starts_with_str(l, "if ") || starts_with_str(l, "goto") || starts_with_str(l, "exit")
        || starts_with_str(l, "rem ") || starts_with_str(l, "set ") || starts_with_str(l, "pause")
}

fn has_named_exec(d: &DirSnap, base_lower: &[char]) -> (r: bool)
    ensures
        r == has_named(entry_names(*d), base_lower@),
{
    let mut i: usize = 0;
    while i < d.entries.len()
        invariant
            i <= d.entries@.len(),
            forall|k: int|
                0 <= k < i ==> !(stem(lower(#[trigger] entry_names(*d)[k])) == base_lower@ || lower(
                    entry_names(*d)[k],
                ) == base_lower@),
        decreases d.entries.len() - i,
    {
        let n = chars_of(d.entries[i].name.as_str());
        let nl = lower_exec(&n);
        let st = stem_exec(&nl);
        assert(entry_names(*d)[i as int] == n@);
        if eq_chars(&st, base_lower) || eq_chars(&nl, base_lower) {
            return true;
        }
        i += 1;
    }
    false
}

fn run_bat_of_exec(d: &DirSnap) -> (r: Option<Vec<char>>)
    ensures
        crate::midi::opt_view(r) == run_bat_of(*d),
{
    let text = match &d.run_bat {
        None => return None,
        Some(t) => t,
    };
    let tv = chars_of(text.as_str());
    let ls = lines_exec(&tv);
    let mut k: usize = 0;
    while k < ls.len()
        invariant
            k <= ls@.len(),
            views(ls@) == lines(text@),
            d.run_bat == Some(*text),
            bat_scan(lines(text@), 0, entry_names(*d)) == bat_scan(
                lines(text@),
                k as int,
                entry_names(*d),
            ),
        decreases ls.len() - k,
    {
        assert(views(ls@)[k as int] == ls@[k as int]@);
        let c = bat_command_exec(&ls[k]);
        let cl = lower_exec(&c);
        if c.len() == 0 || bat_skipped_exec(&cl) {
            k += 1;
            continue;
        }
        let base = first_token_exec(&c);
        let bl = lower_exec(&base);
        if has_named_exec(d, &bl) {
            return Some(base);
        }
        k += 1;
    }
    None
}

fn strategy_run_bat_exec(g: &GameDirSnap) -> (r: Option<(Vec<char>, Vec<char>)>)
    ensures
        pair_view(r) == strategy_run_bat(*g, 0),
{
    let mut i: usize = 0;
    while i <= g.subdirs.len()
        invariant
            i <= n_search(*g),
            strategy_run_bat(*g, 0) == strategy_run_bat(*g, i as int),
        decreases n_search(*g) - i,
    {
        let (sub, d) = search_at(g, i);
        match run_bat_of_exec(d) {
            Some(c) => {
                return Some((sub, c));
            },
            None => {},
        }
        if i == g.subdirs.len() {
            assert(strategy_run_bat(*g, i + 1) is None);
            return None;
        }
        i += 1;
    }
    None
}

pub open spec fn pair_view(r: Option<(Vec<char>, Vec<char>)>) -> Option<(Seq<char>, Seq<char>)> {
    match r {
        Some((a, b)) => Some((a@, b@)),
        None => None,
    }
}

// ───────────── strategy 2: a launcher .bat that calls a program ─────────────

/// Lower-cased name prefixes of batch files that are not launchers.
pub open spec fn skip_bat(n: Seq<char>) -> bool {
    ||| starts_with(n, "anleit"@)
    ||| starts_with(n, "readme"@)
    ||| starts_with(n, "install"@)
    ||| starts_with(n, "setup"@)
    ||| starts_with(n, "help"@)
    ||| starts_with(n, "manual"@)
    ||| starts_with(n, "problem"@)
    ||| starts_with(n, "config"@)
    ||| starts_with(n, "uninstal"@)
    ||| starts_with(n, "uninst"@)
}

/// A candidate launcher batch file.
pub open spec fn bat_candidate(e: EntrySnap) -> bool {
    let n = unicode_lower(e.name@);
    ends_with(n, ".bat"@) && n != "run.bat"@ && !skip_bat(n)
}

/// Its stem matches the directory's name (such candidates go first).
pub open spec fn stem_matches(e: EntrySnap, dir_stem: Seq<char>) -> bool {
    unicode_lower(stem(e.name@)) == dir_stem
}

/// The batch text has a line calling an `.exe` or `.com`.
pub open spec fn calls_program(text: Seq<char>) -> bool {
    exists|i: int|
        0 <= i < lines(text).len() && ({
            let l = lower(trim(#[trigger] lines(text)[i]));
            &&& l.len() != 0
            &&& !starts_with(l, ":"@)
            &&& !starts_with(l, "rem "@)
            &&& (contains(l, ".exe"@) || contains(l, ".com"@))
        })
}

/// A launcher: a candidate whose text calls a program.
pub open spec fn launcher(e: EntrySnap) -> bool {
    match e.text {
        Some(t) => calls_program(t@),
        None => false,
    }
}

/// Lower-cased name prefixes of executables that are not the game itself
/// (installers, utilities, DOS extenders).
pub open spec fn skip_exe(n: Seq<char>) -> bool {
    ||| starts_with(n, "install"@)
    ||| starts_with(n, "setup"@)
    ||| starts_with(n, "uninst"@)
    ||| starts_with(n, "config"@)
    ||| starts_with(n, "cdtest"@)
    ||| starts_with(n, "showtext"@)
    ||| starts_with(n, "rtm"@)
    ||| starts_with(n, "dos4gw"@)
    ||| starts_with(n, "dpmi"@)
    ||| starts_with(n, "cwsdpmi"@)
}

/// A candidate game executable.
pub open spec fn exe_candidate(e: EntrySnap) -> bool {
    let n = unicode_lower(e.name@);
    ends_with(n, ".exe"@) && !skip_exe(n)
}

/// A launcher candidate of the given kind (`exe`: executables, otherwise
/// batch files).
pub open spec fn candidate(exe: bool, e: EntrySnap) -> bool {
    if exe {
        exe_candidate(e)
    } else {
        bat_candidate(e)
    }
}

/// The candidates of `d` in preference order: stem matching the directory's
/// name first, listing order otherwise (a stable sort on that key).
pub open spec fn ordered_candidates(d: DirSnap, exe: bool) -> Seq<EntrySnap> {
    let dir_stem = unicode_lower(d.name@);
    let cands = d.entries@.filter(|e: EntrySnap| candidate(exe, e));
    cands.filter(|e: EntrySnap| stem_matches(e, dir_stem) == true) + cands.filter(
        |e: EntrySnap| stem_matches(e, dir_stem) == false,
    )
}

pub open spec fn ordered_bats(d: DirSnap) -> Seq<EntrySnap> {
    ordered_candidates(d, false)
}

/// Name of the first entry of `es` from `k` that is a launcher.
pub open spec fn first_launcher(es: Seq<EntrySnap>, k: int) -> Option<Seq<char>>
    decreases es.len() - k,
{
    if k < 0 || k >= es.len() {
        None
    } else if launcher(es[k]) {
        Some(es[k].name@)
    } else {
        first_launcher(es, k + 1)
    }
}

pub open spec fn strategy_bat(g: GameDirSnap, i: int) -> Option<(Seq<char>, Seq<char>)>
    decreases n_search(g) - i,
{
    if i < 0 || i >= n_search(g) {
        None
    } else {
        match first_launcher(ordered_bats(search_dir(g, i)), 0) {
            Some(b) => Some((search_subdir(g, i), b)),
            None => strategy_bat(g, i + 1),
        }
    }
}

fn skip_bat_exec(n: &[char]) -> (r: bool)
    ensures
        r == skip_bat(n@),
{
    starts_with_str(n, "anleit") || starts_with_str(n, "readme") || starts_with_str(n, "install")
        || starts_with_str(n, "setup") || starts_with_str(n, "help") || starts_with_str(
        n,
        "manual",
    ) || starts_with_str(n, "problem") || starts_with_str(n, "config") || starts_with_str(
        n,
        "uninstal",
    ) || starts_with_str(n, "uninst")
}

fn bat_candidate_exec(e: &EntrySnap) -> (r: bool)
    ensures
        r == bat_candidate(*e),
{
    let n = to_lowercase(e.name.as_str());
    let nv = chars_of(n.as_str());
    ends_with_str(&nv, ".bat") && !eq_str(&nv, "run.bat") && !skip_bat_exec(&nv)
}

fn skip_exe_exec(n: &[char]) -> (r: bool)
    ensures
        r == skip_exe(n@),
{
    starts_with_str(n, "install") || starts_with_str(n, "setup") || starts_with_str(n, "uninst")
        || starts_with_str(n, "config") || starts_with_str(n, "cdtest") || starts_with_str(
        n,
        "showtext",
    ) || starts_with_str(n, "rtm") || starts_with_str(n, "dos4gw") || starts_with_str(n, "dpmi")
        || starts_with_str(n, "cwsdpmi")
}

fn exe_candidate_exec(e: &EntrySnap) -> (r: bool)
    ensures
        r == exe_candidate(*e),
{
    let n = to_lowercase(e.name.as_str());
    let nv = chars_of(n.as_str());
    ends_with_str(&nv, ".exe") && !skip_exe_exec(&nv)
}

fn candidate_exec(exe: bool, e: &EntrySnap) -> (r: bool)
    ensures
        r == candidate(exe, *e),
{
    if exe {
        exe_candidate_exec(e)
    } else {
        bat_candidate_exec(e)
    }
}

fn stem_matches_exec(e: &EntrySnap, dir_stem: &[char]) -> (r: bool)
    ensures
        r == stem_matches(*e, dir_stem@),
{
    let nv = chars_of(e.name.as_str());
    let st = stem_exec(&nv);
    let sts = string_of(&st);
    let l = to_lowercase(sts.as_str());
    let lv = chars_of(l.as_str());
    eq_chars(&lv, dir_stem)
}

fn calls_program_exec(text: &str) -> (r: bool)
    ensures
        r == calls_program(text@),
{
    let tv = chars_of(text);
    let ls = lines_exec(&tv);
    let mut i: usize = 0;
    while i < ls.len()
        invariant
            i <= ls@.len(),
            views(ls@) == lines(text@),
            forall|k: int|
                0 <= k < i ==> !({
                    let l = lower(trim(#[trigger] lines(text@)[k]));
                    &&& l.len() != 0
                    &&& !starts_with(l, ":"@)
                    &&& !starts_with(l, "rem "@)
                    &&& (contains(l, ".exe"@) || contains(l, ".com"@))
                }),
        decreases ls.len() - i,
    {
        assert(views(ls@)[i as int] == ls@[i as int]@);
        let t = trim_exec(&ls[i]);
        let l = lower_exec(&t);
        if l.len() != 0 && !starts_with_str(&l, ":") && !starts_with_str(&l, "rem ") && (
        contains_str(&l, ".exe") || contains_str(&l, ".com")) {
            return true;
        }
        i += 1;
    }
    false
}

fn launcher_exec(e: &EntrySnap) -> (r: bool)
    ensures
        r == launcher(*e),
{
    match &e.text {
        Some(t) => calls_program_exec(t.as_str()),
        None => false,
    }
}

/// Indices of the entries of `d` that are candidates with (`matching`) or
/// without a stem matching `dir_stem`, in listing order.
fn candidate_group(d: &DirSnap, exe: bool, dir_stem: &[char], matching: bool) -> (r: Vec<usize>)
    ensures
        forall|k: int| 0 <= k < r@.len() ==> r@[k] < d.entries@.len(),
        r@.map_values(|k: usize| d.entries@[k as int]) == d.entries@.filter(
            |e: EntrySnap| candidate(exe, e),
        ).filter(|e: EntrySnap| stem_matches(e, dir_stem@) == matching),
{
    let mut r: Vec<usize> = Vec::new();
    let mut i: usize = 0;
    while i < d.entries.len()
        invariant
            i <= d.entries@.len(),
            forall|k: int| 0 <= k < r@.len() ==> r@[k] < d.entries@.len(),
            r@.map_values(|k: usize| d.entries@[k as int]) == d.entries@.take(i as int).filter(
                |e: EntrySnap| candidate(exe, e),
            ).filter(|e: EntrySnap| stem_matches(e, dir_stem@) == matching),
        decreases d.entries.len() - i,
    {
        let ghost es = d.entries@;
        let ghost before = r@;
        proof {
            lemma_filter_take_step(es, i as int, |e: EntrySnap| candidate(exe, e));
        }
        if candidate_exec(exe, &d.entries[i]) && stem_matches_exec(&d.entries[i], dir_stem)
            == matching {
            r.push(i);
        }
        proof {
            let f1 = |e: EntrySnap| candidate(exe, e);
            let f2 = |e: EntrySnap| stem_matches(e, dir_stem@) == matching;
            let a = es.take(i as int).filter(f1);
            let b = es.take(i + 1).filter(f1);
            if f1(es[i as int]) {
                assert(b == a.push(es[i as int]));
                assert(a.push(es[i as int]).drop_last() =~= a);
                assert(a.push(es[i as int]).filter(f2) == a.filter(f2) + (if f2(es[i as int]) {
                    seq![es[i as int]]
                } else {
                    seq![]
                })) by {
                    lemma_filter_push(a, es[i as int], f2);
                }
            } else {
                assert(b == a);
            }
            assert(r@.map_values(|k: usize| d.entries@[k as int]) =~= b.filter(f2));
        }
        i += 1;
    }
    assert(d.entries@.take(d.entries@.len() as int) =~= d.entries@);
    r
}

proof fn lemma_filter_push<A>(s: Seq<A>, x: A, f: spec_fn(A) -> bool)
    ensures
        s.push(x).filter(f) == s.filter(f) + (if f(x) {
            seq![x]
        } else {
            seq![]
        }),
{
    reveal(Seq::filter);
    assert(s.push(x).drop_last() =~= s);
    if f(x) {
        assert(s.push(x).filter(f) =~= s.filter(f).push(x));
    } else {
        assert(s.filter(f) + Seq::<A>::empty() =~= s.filter(f));
    }
}

proof fn lemma_filter_take_step<A>(s: Seq<A>, i: int, f: spec_fn(A) -> bool)
    requires
        0 <= i < s.len(),
    ensures
        s.take(i + 1).filter(f) == if f(s[i]) {
            s.take(i).filter(f).push(s[i])
        } else {
            s.take(i).filter(f)
        },
{
    assert(s.take(i + 1) =~= s.take(i).push(s[i]));
    lemma_filter_push(s.take(i), s[i], f);
    if f(s[i]) {
        assert(s.take(i).filter(f) + seq![s[i]] =~= s.take(i).filter(f).push(s[i]));
    } else {
        assert(s.take(i).filter(f) + Seq::<A>::empty() =~= s.take(i).filter(f));
    }
}

/// Indices of the candidates of `d` in preference order.
fn ordered_indices(d: &DirSnap, exe: bool) -> (r: Vec<usize>)
    ensures
        forall|k: int| 0 <= k < r@.len() ==> r@[k] < d.entries@.len(),
        r@.map_values(|k: usize| d.entries@[k as int]) == ordered_candidates(*d, exe),
{
    let dn = to_lowercase(d.name.as_str());
    let ds = chars_of(dn.as_str());
    let g1 = candidate_group(d, exe, &ds, true);
    let g2 = candidate_group(d, exe, &ds, false);
    let mut r = g1.clone();
    let mut i: usize = 0;
    while i < g2.len()
        invariant
            i <= g2@.len(),
            r@ == g1@ + g2@.take(i as int),
            forall|k: int| 0 <= k < g1@.len() ==> g1@[k] < d.entries@.len(),
            forall|k: int| 0 <= k < g2@.len() ==> g2@[k] < d.entries@.len(),
        decreases g2.len() - i,
    {
        r.push(g2[i]);
        i += 1;
        assert(r@ =~= g1@ + g2@.take(i as int));
    }
    assert(g2@.take(g2@.len() as int) =~= g2@);
    assert(r@.map_values(|k: usize| d.entries@[k as int]) =~= g1@.map_values(
        |k: usize| d.entries@[k as int],
    ) + g2@.map_values(|k: usize| d.entries@[k as int]));
    r
}

fn first_launcher_exec(d: &DirSnap) -> (r: Option<Vec<char>>)
    ensures
        crate::midi::opt_view(r) == first_launcher(ordered_bats(*d), 0),
{
    let order = ordered_indices(d, false);
    let ghost es = ordered_bats(*d);
    let mut k: usize = 0;
    while k < order.len()
        invariant
            k <= order@.len(),
            forall|m: int| 0 <= m < order@.len() ==> order@[m] < d.entries@.len(),
            order@.map_values(|m: usize| d.entries@[m as int]) == es,
            es == ordered_bats(*d),
            first_launcher(es, 0) == first_launcher(es, k as int),
        decreases order.len() - k,
    {
        let e = &d.entries[order[k]];
        assert(es[k as int] == *e);
        if launcher_exec(e) {
            return Some(chars_of(e.name.as_str()));
        }
        k += 1;
    }
    None
}

fn strategy_bat_exec(g: &GameDirSnap) -> (r: Option<(Vec<char>, Vec<char>)>)
    ensures
        pair_view(r) == strategy_bat(*g, 0),
{
    let mut i: usize = 0;
    while i <= g.subdirs.len()
        invariant
            i <= n_search(*g),
            strategy_bat(*g, 0) == strategy_bat(*g, i as int),
        decreases n_search(*g) - i,
    {
        let (sub, d) = search_at(g, i);
        match first_launcher_exec(d) {
            Some(b) => {
                return Some((sub, b));
            },
            None => {},
        }
        if i == g.subdirs.len() {
            assert(strategy_bat(*g, i + 1) is None);
            return None;
        }
        i += 1;
    }
    None
}

// ───────────── strategy 3: a .com program ─────────────

/// A `.com` file that is not a mouse driver.
pub open spec fn com_entry(e: EntrySnap) -> bool {
    let n = unicode_lower(e.name@);
    ends_with(n, ".com"@) && !contains(n, "mouse"@)
}

pub open spec fn first_com(es: Seq<EntrySnap>, k: int) -> Option<Seq<char>>
    decreases es.len() - k,
{
    if k < 0 || k >= es.len() {
        None
    } else if com_entry(es[k]) {
        Some(es[k].name@)
    } else {
        first_com(es, k + 1)
    }
}

pub open spec fn strategy_com(g: GameDirSnap, i: int) -> Option<(Seq<char>, Seq<char>)>
    decreases n_search(g) - i,
{
    if i < 0 || i >= n_search(g) {
        None
    } else {
        match first_com(search_dir(g, i).entries@, 0) {
            Some(n) => Some((search_subdir(g, i), n)),
            None => strategy_com(g, i + 1),
        }
    }
}

fn com_entry_exec(e: &EntrySnap) -> (r: bool)
    ensures
        r == com_entry(*e),
{
    let n = to_lowercase(e.name.as_str());
    let nv = chars_of(n.as_str());
    ends_with_str(&nv, ".com") && !contains_str(&nv, "mouse")
}

fn first_com_exec(d: &DirSnap) -> (r: Option<Vec<char>>)
    ensures
        crate::midi::opt_view(r) == first_com(d.entries@, 0),
{
    let mut k: usize = 0;
    while k < d.entries.len()
        invariant
            k <= d.entries@.len(),
            first_com(d.entries@, 0) == first_com(d.entries@, k as int),
        decreases d.entries.len() - k,
    {
        if com_entry_exec(&d.entries[k]) {
            return Some(chars_of(d.entries[k].name.as_str()));
        }
        k += 1;
    }
    None
}

fn strategy_com_exec(g: &GameDirSnap) -> (r: Option<(Vec<char>, Vec<char>)>)
    ensures
        pair_view(r) == strategy_com(*g, 0),
{
    let mut i: usize = 0;
    while i <= g.subdirs.len()
        invariant
            i <= n_search(*g),
            strategy_com(*g, 0) == strategy_com(*g, i as int),
        decreases n_search(*g) - i,
    {
        let (sub, d) = search_at(g, i);
        match first_com_exec(d) {
            Some(b) => {
                return Some((sub, b));
            },
            None => {},
        }
        if i == g.subdirs.len() {
            assert(strategy_com(*g, i + 1) is None);
            return None;
        }
        i += 1;
    }
    None
}

// ───────────── strategy 4: an executable ─────────────

/// The preferred executable of a directory.
pub open spec fn first_exe(d: DirSnap) -> Option<Seq<char>> {
    let es = ordered_candidates(d, true);
    if es.len() == 0 {
        None
    } else {
        Some(es[0].name@)
    }
}

/// Strategy 4 over the searched directories from `i` whose subdirectory
/// name is empty (`root_pass`) or not.
pub open spec fn strategy_exe(g: GameDirSnap, i: int, root_pass: bool) -> Option<
    (Seq<char>, Seq<char>),
>
    decreases n_search(g) - i,
{
    if i < 0 || i >= n_search(g) {
        None
    } else if (search_subdir(g, i).len() == 0) == root_pass && first_exe(search_dir(g, i)) is Some {
        Some((search_subdir(g, i), first_exe(search_dir(g, i))->0))
    } else {
        strategy_exe(g, i + 1, root_pass)
    }
}

fn first_exe_exec(d: &DirSnap) -> (r: Option<Vec<char>>)
    ensures
        crate::midi::opt_view(r) == first_exe(*d),
{
    let order = ordered_indices(d, true);
    if order.len() == 0 {
        None
    } else {
        let ghost es = ordered_candidates(*d, true);
        assert(es[0] == d.entries@[order@[0] as int]);
        Some(chars_of(d.entries[order[0]].name.as_str()))
    }
}

fn strategy_exe_exec(g: &GameDirSnap, root_pass: bool) -> (r: Option<(Vec<char>, Vec<char>)>)
    ensures
        pair_view(r) == strategy_exe(*g, 0, root_pass),
{
    let mut i: usize = 0;
    while i <= g.subdirs.len()
        invariant
            i <= n_search(*g),
            strategy_exe(*g, 0, root_pass) == strategy_exe(*g, i as int, root_pass),
        decreases n_search(*g) - i,
    {
        let (sub, d) = search_at(g, i);
        if (sub.len() == 0) == root_pass {
            match first_exe_exec(d) {
                Some(b) => {
                    return Some((sub, b));
                },
                None => {},
            }
        }
        if i == g.subdirs.len() {
            assert(strategy_exe(*g, i + 1, root_pass) is None);
            return None;
        }
        i += 1;
    }
    None
}

// ───────────── all strategies ─────────────

/// What `find_lp_launch` returns: the first strategy that finds something,
/// in the order EN autoexec command, `run.bat`, launcher batch file, `.com`
/// program, executable in a subdirectory, executable in the game dir.
pub open spec fn lp_launch(g: GameDirSnap, en_conf: Option<Seq<char>>) -> Option<
    (Seq<char>, Seq<char>),
> {
    match strategy_en(g, en_conf) {
        Some(t) => Some((seq![], t)),
        None => match strategy_run_bat(g, 0) {
            Some(r) => Some(r),
            None => match strategy_bat(g, 0) {
                Some(r) => Some(r),
                None => match strategy_com(g, 0) {
                    Some(r) => Some(r),
                    None => match strategy_exe(g, 0, false) {
                        Some(r) => Some(r),
                        None => strategy_exe(g, 0, true),
                    },
                },
            },
        },
    }
}

pub open spec fn opt_str(o: Option<&str>) -> Option<Seq<char>> {
    match o {
        Some(c) => Some(c@),
        None => None,
    }
}

pub open spec fn launch_result_view(r: Option<(String, String)>) -> Option<(Seq<char>, Seq<char>)> {
    match r {
        Some((a, b)) => Some((a@, b@)),
        None => None,
    }
}

/// Find the launch command of an LP game from a snapshot of its directory.
/// Returns `(subdir, command)`: the subdirectory of the game dir to change
/// into (empty for the game dir itself) and the command to run there.
///
/// Prefers the launch command of the EN config's autoexec when its program
/// is in the game dir, then the program `run.bat` calls, a launcher batch
/// file, a `.com` program, and finally an executable (subdirectories before
/// the game dir; installers and utilities skipped).
pub fn find_lp_launch(game_dir: &GameDirSnap, en_conf: Option<&str>) -> (r: Option<(String, String)>)
    ensures
        launch_result_view(r) == lp_launch(*game_dir, opt_str(en_conf)),
{
    let pick = match strategy_en_exec(game_dir, en_conf) {
        Some(t) => Some((Vec::new(), t)),
        None => match strategy_run_bat_exec(game_dir) {
            Some(r) => Some(r),
            None => match strategy_bat_exec(game_dir) {
                Some(r) => Some(r),
                None => match strategy_com_exec(game_dir) {
                    Some(r) => Some(r),
                    None => match strategy_exe_exec(game_dir, false) {
                        Some(r) => Some(r),
                        None => strategy_exe_exec(game_dir, true),
                    },
                },
            },
        },
    };
    match pick {
        Some((a, b)) => Some((string_of(&a), string_of(&b))),
        None => None,
    }
}

// ───────────── never a broken command ─────────────

/// `cmd` runs a file of a directory that lists `names`: it is one of the
/// names, or its lower-cased text or program (first word) is a name or a
/// name's stem.
pub open spec fn runs_listed(names: Seq<Seq<char>>, cmd: Seq<char>) -> bool {
    ||| names.contains(cmd)
    ||| has_named(names, lower(cmd))
    ||| has_named(names, lower(first_token(cmd)))
}

/// `cmd` runs a file listed in the `i`-th searched directory, whose path is
/// `sub`.
pub open spec fn runs_in(g: GameDirSnap, i: int, sub: Seq<char>, cmd: Seq<char>) -> bool {
    0 <= i < n_search(g) && search_subdir(g, i) == sub && runs_listed(entry_names(search_dir(g, i)), cmd)
}

proof fn lemma_entry_listed(d: DirSnap, e: EntrySnap)
    requires
        d.entries@.contains(e),
    ensures
        entry_names(d).contains(e.name@),
{
    let m = choose|m: int| 0 <= m < d.entries@.len() && d.entries@[m] == e;
    assert(entry_names(d)[m] == e.name@);
}

proof fn lemma_ordered_listed(d: DirSnap, exe: bool, m: int)
    requires
        0 <= m < ordered_candidates(d, exe).len(),
    ensures
        entry_names(d).contains(ordered_candidates(d, exe)[m].name@),
{
    let dir_stem = unicode_lower(d.name@);
    let pc = |e: EntrySnap| candidate(exe, e);
    let ps1 = |e: EntrySnap| stem_matches(e, dir_stem) == true;
    let ps2 = |e: EntrySnap| stem_matches(e, dir_stem) == false;
    let cands = d.entries@.filter(pc);
    let a = cands.filter(ps1);
    let b = cands.filter(ps2);
    let e = ordered_candidates(d, exe)[m];
    assert(ordered_candidates(d, exe) == a + b);
    if m < a.len() {
        assert(e == a[m]);
        assert(a.contains(e));
        cands.lemma_filter_contains_rev(ps1, e);
    } else {
        assert(e == b[m - a.len()]);
        assert(b.contains(e));
        cands.lemma_filter_contains_rev(ps2, e);
    }
    d.entries@.lemma_filter_contains_rev(pc, e);
    lemma_entry_listed(d, e);
}

proof fn lemma_en_scan_listed(ls: Seq<Seq<char>>, k: int, names: Seq<Seq<char>>)
    ensures
        en_scan(ls, k, names) matches Some(t) ==> has_named(names, lower(first_token(t))),
    decreases ls.len() - k,
{
    if 0 <= k < ls.len() {
        let t = en_command(ls[k]);
        if t.len() == 0 || en_housekeeping(lower(t)) {
            lemma_en_scan_listed(ls, k + 1, names);
        } else if has_runnable(names, lower(first_token(t))) {
            let i = choose|i: int|
                0 <= i < names.len() && runnable(lower(#[trigger] names[i])) && (stem(
                    lower(names[i]),
                ) == lower(first_token(t)) || lower(names[i]) == lower(first_token(t)));
            assert(stem(lower(names[i])) == lower(first_token(t)) || lower(names[i]) == lower(
                first_token(t),
            ));
        }
    }
}

proof fn lemma_bat_scan_listed(ls: Seq<Seq<char>>, k: int, names: Seq<Seq<char>>)
    ensures
        bat_scan(ls, k, names) matches Some(c) ==> has_named(names, lower(c)),
    decreases ls.len() - k,
{
    if 0 <= k < ls.len() {
        let c = bat_command(ls[k]);
        if !(c.len() == 0 || bat_skipped(lower(c))) && has_named(names, lower(first_token(c))) {
        } else {
            lemma_bat_scan_listed(ls, k + 1, names);
        }
    }
}

proof fn lemma_run_bat_listed(g: GameDirSnap, i: int) -> (j: int)
    ensures
        strategy_run_bat(g, i) is Some ==> runs_in(
            g,
            j,
            (strategy_run_bat(g, i)->0).0,
            (strategy_run_bat(g, i)->0).1,
        ),
    decreases n_search(g) - i,
{
    if 0 <= i < n_search(g) {
        let d = search_dir(g, i);
        match d.run_bat {
            Some(t) => lemma_bat_scan_listed(lines(t@), 0, entry_names(d)),
            None => {},
        }
        if run_bat_of(d) is Some {
            i
        } else {
            lemma_run_bat_listed(g, i + 1)
        }
    } else {
        i
    }
}

proof fn lemma_first_launcher_listed(d: DirSnap, k: int)
    ensures
        first_launcher(ordered_bats(d), k) matches Some(n) ==> entry_names(d).contains(n),
    decreases ordered_bats(d).len() - k,
{
    let es = ordered_bats(d);
    if 0 <= k < es.len() {
        if launcher(es[k]) {
            lemma_ordered_listed(d, false, k);
        } else {
            lemma_first_launcher_listed(d, k + 1);
        }
    }
}

proof fn lemma_bat_listed(g: GameDirSnap, i: int) -> (j: int)
    ensures
        strategy_bat(g, i) is Some ==> runs_in(g, j, (strategy_bat(g, i)->0).0, (strategy_bat(g, i)->0).1),
    decreases n_search(g) - i,
{
    if 0 <= i < n_search(g) {
        let d = search_dir(g, i);
        lemma_first_launcher_listed(d, 0);
        if first_launcher(ordered_bats(d), 0) is Some {
            i
        } else {
            lemma_bat_listed(g, i + 1)
        }
    } else {
        i
    }
}

proof fn lemma_first_com_listed(d: DirSnap, k: int)
    ensures
        first_com(d.entries@, k) matches Some(n) ==> entry_names(d).contains(n),
    decreases d.entries@.len() - k,
{
    if 0 <= k < d.entries@.len() {
        if com_entry(d.entries@[k]) {
            assert(entry_names(d)[k] == d.entries@[k].name@);
        } else {
            lemma_first_com_listed(d, k + 1);
        }
    }
}

proof fn lemma_com_listed(g: GameDirSnap, i: int) -> (j: int)
    ensures
        strategy_com(g, i) is Some ==> runs_in(g, j, (strategy_com(g, i)->0).0, (strategy_com(g, i)->0).1),
    decreases n_search(g) - i,
{
    if 0 <= i < n_search(g) {
        let d = search_dir(g, i);
        lemma_first_com_listed(d, 0);
        if first_com(d.entries@, 0) is Some {
            i
        } else {
            lemma_com_listed(g, i + 1)
        }
    } else {
        i
    }
}

proof fn lemma_exe_listed(g: GameDirSnap, i: int, root_pass: bool) -> (j: int)
    ensures
        strategy_exe(g, i, root_pass) is Some ==> runs_in(
            g,
            j,
            (strategy_exe(g, i, root_pass)->0).0,
            (strategy_exe(g, i, root_pass)->0).1,
        ),
    decreases n_search(g) - i,
{
    if 0 <= i < n_search(g) {
        let d = search_dir(g, i);
        if (search_subdir(g, i).len() == 0) == root_pass && first_exe(d) is Some {
            lemma_ordered_listed(d, true, 0);
            i
        } else {
            lemma_exe_listed(g, i + 1, root_pass)
        }
    } else {
        i
    }
}

/// Never a broken command: what `find_lp_launch` returns runs a file that
/// is listed in the directory it runs from (the game dir, or the
/// subdirectory it names). A program the EN autoexec names but the LP dir
/// lacks is never returned.
pub proof fn lp_launch_runs_a_listed_file(g: GameDirSnap, en_conf: Option<Seq<char>>)
    ensures
        lp_launch(g, en_conf) is Some ==> exists|i: int| #[trigger] runs_in(
            g,
            i,
            (lp_launch(g, en_conf)->0).0,
            (lp_launch(g, en_conf)->0).1,
        ),
{
    let r = lp_launch(g, en_conf);
    match strategy_en(g, en_conf) {
        Some(t) => {
            match en_conf {
                Some(c) => match crate::autoexec::autoexec_of(c) {
                    Some(a) => lemma_en_scan_listed(lines(a), 0, entry_names(g.root)),
                    None => {},
                },
                None => {},
            }
            assert(runs_in(g, 0, (r->0).0, (r->0).1));
        },
        None => {
            let j1 = lemma_run_bat_listed(g, 0);
            let j2 = lemma_bat_listed(g, 0);
            let j3 = lemma_com_listed(g, 0);
            let j4 = lemma_exe_listed(g, 0, false);
            let j5 = lemma_exe_listed(g, 0, true);
            if strategy_run_bat(g, 0) is Some {
                assert(runs_in(g, j1, (r->0).0, (r->0).1));
            } else if strategy_bat(g, 0) is Some {
                assert(runs_in(g, j2, (r->0).0, (r->0).1));
            } else if strategy_com(g, 0) is Some {
                assert(runs_in(g, j3, (r->0).0, (r->0).1));
            } else if strategy_exe(g, 0, false) is Some {
                assert(runs_in(g, j4, (r->0).0, (r->0).1));
            } else if strategy_exe(g, 0, true) is Some {
                assert(runs_in(g, j5, (r->0).0, (r->0).1));
            }
        },
    }
}

// ───────────── mouse drivers are not games ─────────────

proof fn lemma_first_com_no_mouse(es: Seq<EntrySnap>, k: int)
    ensures
        first_com(es, k) matches Some(n) ==> ends_with(unicode_lower(n), ".com"@) && !contains(
            unicode_lower(n),
            "mouse"@,
        ),
    decreases es.len() - k,
{
    if 0 <= k < es.len() && !com_entry(es[k]) {
        lemma_first_com_no_mouse(es, k + 1);
    }
}

proof fn lemma_com_no_mouse(g: GameDirSnap, i: int)
    ensures
        strategy_com(g, i) matches Some((_, n)) ==> ends_with(unicode_lower(n), ".com"@) && !contains(
            unicode_lower(n),
            "mouse"@,
        ),
    decreases n_search(g) - i,
{
    if 0 <= i < n_search(g) {
        lemma_first_com_no_mouse(search_dir(g, i).entries@, 0);
        if first_com(search_dir(g, i).entries@, 0) is None {
            lemma_com_no_mouse(g, i + 1);
        }
    }
}

proof fn lemma_exe_is_exe(g: GameDirSnap, i: int, root_pass: bool)
    ensures
        strategy_exe(g, i, root_pass) matches Some((_, n)) ==> ends_with(unicode_lower(n), ".exe"@),
    decreases n_search(g) - i,
{
    if 0 <= i < n_search(g) {
        let d = search_dir(g, i);
        if (search_subdir(g, i).len() == 0) == root_pass && first_exe(d) is Some {
            let dir_stem = unicode_lower(d.name@);
            let pc = |e: EntrySnap| candidate(true, e);
            let ps1 = |e: EntrySnap| stem_matches(e, dir_stem) == true;
            let ps2 = |e: EntrySnap| stem_matches(e, dir_stem) == false;
            let cands = d.entries@.filter(pc);
            let a = cands.filter(ps1);
            let b = cands.filter(ps2);
            let es = ordered_candidates(d, true);
            assert(es == a + b);
            let e = es[0];
            if a.len() > 0 {
                assert(e == a[0]);
                assert(a.contains(e));
                cands.lemma_filter_contains_rev(ps1, e);
            } else {
                assert(e == b[0]);
                assert(b.contains(e));
                cands.lemma_filter_contains_rev(ps2, e);
            }
            d.entries@.lemma_filter_contains_rev(pc, e);
            assert(exe_candidate(e));
        } else {
            lemma_exe_is_exe(g, i + 1, root_pass);
        }
    }
}

proof fn lemma_first_com_found(es: Seq<EntrySnap>, k0: int, k: int)
    requires
        0 <= k0 <= k < es.len(),
        com_entry(es[k]),
    ensures
        first_com(es, k0) is Some,
    decreases k - k0,
{
    if !com_entry(es[k0]) {
        lemma_first_com_found(es, k0 + 1, k);
    }
}

proof fn lemma_com_found(g: GameDirSnap, i0: int, i: int, k: int)
    requires
        0 <= i0 <= i < n_search(g),
        0 <= k < search_dir(g, i).entries@.len(),
        com_entry(search_dir(g, i).entries@[k]),
    ensures
        strategy_com(g, i0) is Some,
    decreases i - i0,
{
    if i0 == i {
        lemma_first_com_found(search_dir(g, i).entries@, 0, k);
    } else if first_com(search_dir(g, i0).entries@, 0) is None {
        lemma_com_found(g, i0 + 1, i, k);
    }
}

/// The `.com` fallback never launches a mouse driver: when neither the EN
/// autoexec, a `run.bat` nor a launcher batch file gives the launch, what
/// `find_lp_launch` returns is never a `.com` file whose lower-cased name
/// contains `mouse`.
pub proof fn com_fallback_skips_mouse_drivers(g: GameDirSnap, en_conf: Option<Seq<char>>)
    requires
        strategy_en(g, en_conf) is None,
        strategy_run_bat(g, 0) is None,
        strategy_bat(g, 0) is None,
    ensures
        lp_launch(g, en_conf) matches Some((_, cmd)) ==> (ends_with(unicode_lower(cmd), ".com"@)
            ==> !contains(unicode_lower(cmd), "mouse"@)),
        (exists|i: int, k: int|
            0 <= i < n_search(g) && 0 <= k < search_dir(g, i).entries@.len() && ends_with(
                unicode_lower(#[trigger] search_dir(g, i).entries@[k].name@),
                ".com"@,
            ) && !contains(unicode_lower(search_dir(g, i).entries@[k].name@), "mouse"@))
            ==> (lp_launch(g, en_conf) matches Some((_, cmd)) && ends_with(unicode_lower(cmd), ".com"@)
            && !contains(unicode_lower(cmd), "mouse"@)),
{
    if exists|i: int, k: int|
        0 <= i < n_search(g) && 0 <= k < search_dir(g, i).entries@.len() && ends_with(
            unicode_lower(#[trigger] search_dir(g, i).entries@[k].name@),
            ".com"@,
        ) && !contains(unicode_lower(search_dir(g, i).entries@[k].name@), "mouse"@) {
        let (i, k) = choose|i: int, k: int|
            0 <= i < n_search(g) && 0 <= k < search_dir(g, i).entries@.len() && ends_with(
                unicode_lower(#[trigger] search_dir(g, i).entries@[k].name@),
                ".com"@,
            ) && !contains(unicode_lower(search_dir(g, i).entries@[k].name@), "mouse"@);
        lemma_com_found(g, 0, i, k);
    }
    reveal_strlit(".com");
    reveal_strlit(".exe");
    lemma_com_no_mouse(g, 0);
    lemma_exe_is_exe(g, 0, false);
    lemma_exe_is_exe(g, 0, true);
    if strategy_com(g, 0) is None {
        if let Some((_, n)) = lp_launch(g, en_conf) {
            let ln = unicode_lower(n);
            if ends_with(ln, ".com"@) {
                assert(ends_with(ln, ".exe"@));
                assert(ln.skip(ln.len() - 4)[1] == 'c');
                assert(ln.skip(ln.len() - 4)[1] == 'e');
            }
        }
    }
}

} // verus!
