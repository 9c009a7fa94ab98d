//! Windows 9x games: support files, engines, network bridging and the
//! config rewrites their launch needs.
use vstd::prelude::*;
use crate::autoexec::{path_join, path_join_exec, string_views};
use crate::text::{
    chars_of, contains, contains_str, copy_chars, eq_chars, first_token, join, lines, lines_exec,
    lower, lower_exec, push_all, replace_all, replace_str, slice_of, starts_with,
    starts_with_exec, starts_with_str, string_of, strip_prefix, strip_prefix_str, trim,
    trim_exec, trim_start, views,
};

verus! {

// ───────────────────── support files ─────────────────────

/// A variant run by 86Box (`86box`, `86boxME`, ...).
pub open spec fn is_86box(variant: Option<Seq<char>>) -> bool {
    match variant {
        Some(v) => starts_with(v, "86box"@),
        None => false,
    }
}

pub open spec fn opt_str_view(o: Option<&str>) -> Option<Seq<char>> {
    match o {
        Some(s) => Some(s@),
        None => None,
    }
}

fn is_86box_exec(variant: Option<&str>) -> (r: bool)
    ensures
        r == is_86box(opt_str_view(variant)),
{
    match variant {
        Some(v) => starts_with_str(&chars_of(v), "86box"),
        None => false,
    }
}

/// Directories (relative to the eXoWin9x torrent root) whose presence means
/// the support files are installed: the x98 parent images, the 86Box ones.
pub fn win9x_support_dirs() -> (r: (String, String))
    ensures
        r.0@ == "eXo/emulators/dosbox/x98/parent"@,
        r.1@ == "eXo/emulators/86Box98/parent"@,
{
    ("eXo/emulators/dosbox/x98/parent".to_string(), "eXo/emulators/86Box98/parent".to_string())
}

/// The support files a game of `variant` needs are on disk: the 86Box tree
/// for 86Box variants, the x98 tree for everything else.
pub fn win9x_support_ready(variant: Option<&str>, x98_present: bool, e86box_present: bool) -> (r: bool)
    ensures
        r == if is_86box(opt_str_view(variant)) {
            e86box_present
        } else {
            x98_present
        },
{
    if is_86box_exec(variant) {
        e86box_present
    } else {
        x98_present
    }
}

/// The spellings in which the pack's configs name the x98 parent images,
/// each with the real file it stands for (Linux file systems tell them
/// apart, so each becomes a link).
pub open spec fn parent_vhd_aliases_spec() -> Seq<(Seq<char>, Seq<char>)> {
    seq![
        ("win98jap.vhd"@, "win98Jap.vhd"@),
        ("Win98Jap.vhd"@, "win98Jap.vhd"@),
        ("Win95dx8.vhd"@, "Win95DX8.vhd"@),
        ("win95Dx8.vhd"@, "Win95DX8.vhd"@),
        ("win98chinese.vhd"@, "Win98Chinese.vhd"@),
    ]
}

/// The case aliases of the x98 parent images (see `parent_vhd_aliases_spec`).
pub fn parent_vhd_aliases() -> (r: Vec<(String, String)>)
    ensures
        r@.map_values(|p: (String, String)| (p.0@, p.1@)) == parent_vhd_aliases_spec(),
{
    let r = vec![
        ("win98jap.vhd".to_string(), "win98Jap.vhd".to_string()),
        ("Win98Jap.vhd".to_string(), "win98Jap.vhd".to_string()),
        ("Win95dx8.vhd".to_string(), "Win95DX8.vhd".to_string()),
        ("win95Dx8.vhd".to_string(), "Win95DX8.vhd".to_string()),
        ("win98chinese.vhd".to_string(), "Win98Chinese.vhd".to_string()),
    ];
    assert(r@.map_values(|p: (String, String)| (p.0@, p.1@)) =~= parent_vhd_aliases_spec());
    r
}

/// The subtrees of the nested EXTWin9x.zip that are extracted.
pub open spec fn win9x_prefixes() -> Seq<Seq<char>> {
    seq!["emulators/dosbox/"@, "emulators/86box98/"@]
}

/// The subtrees of the nested EXTDOS.zip that are extracted: the MT-32 ROMs
/// and soundfonts, and on Windows eXo's DOSBox ECE builds.
pub open spec fn mt32_prefixes(windows: bool) -> Seq<Seq<char>> {
    if windows {
        seq!["mt32/"@, "emulators/dosbox/ece4230/"@, "emulators/dosbox/ece4460/"@]
    } else {
        seq!["mt32/"@]
    }
}

/// The subtrees extracted from EXTWin9x.zip.
pub fn win9x_prefixes_exec() -> (r: Vec<String>)
    ensures
        string_views(r@) == win9x_prefixes(),
{
    let r = vec!["emulators/dosbox/".to_string(), "emulators/86box98/".to_string()];
    assert(string_views(r@) =~= win9x_prefixes());
    r
}

/// The subtrees extracted from EXTDOS.zip on this host.
pub fn mt32_prefixes_exec(windows: bool) -> (r: Vec<String>)
    ensures
        string_views(r@) == mt32_prefixes(windows),
{
    let mut r = vec!["mt32/".to_string()];
    if windows {
        r.push("emulators/dosbox/ece4230/".to_string());
        r.push("emulators/dosbox/ece4460/".to_string());
    }
    assert(string_views(r@) =~= mt32_prefixes(windows));
    r
}

/// Where a ZIP entry is extracted to, relative to the destination root:
/// its name with forward slashes, when it is a file under one of
/// `prefixes` (compared case-insensitively) and names no `..`.
pub open spec fn extract_target_spec(name: Seq<char>, prefixes: Seq<Seq<char>>, is_dir: bool) -> Option<Seq<char>> {
    let n = replace_all(name, "\\"@, "/"@);
    if (exists|i: int| 0 <= i < prefixes.len() && starts_with(lower(n), #[trigger] prefixes[i]))
        && !contains(n, ".."@) && !is_dir {
        Some(n)
    } else {
        None
    }
}

/// Which ZIP entries the support-file extraction writes (see
/// `extract_target_spec`).
pub fn extract_target(name: &str, prefixes: &Vec<String>, is_dir: bool) -> (r: Option<String>)
    ensures
        match r {
            Some(s) => extract_target_spec(name@, string_views(prefixes@), is_dir) == Some(s@),
            None => extract_target_spec(name@, string_views(prefixes@), is_dir) is None,
        },
{
    proof {
        reveal_strlit("\\");
    }
    let n = replace_str(&chars_of(name), "\\", "/");
    let ln = lower_exec(&n);
    let mut found = false;
    let mut i: usize = 0;
    while i < prefixes.len()
        invariant
            i <= prefixes@.len(),
            !found ==> forall|k: int| 0 <= k < i ==> !starts_with(ln@, #[trigger] string_views(prefixes@)[k]),
            found ==> exists|k: int| 0 <= k < prefixes@.len() && starts_with(ln@, #[trigger] string_views(prefixes@)[k]),
        decreases prefixes.len() - i,
    {
        let p = chars_of(prefixes[i].as_str());
        assert(string_views(prefixes@)[i as int] == p@);
        if starts_with_exec(&ln, &p) {
            found = true;
        }
        i += 1;
    }
    if found && !contains_str(&n, "..") && !is_dir {
        Some(string_of(&n))
    } else {
        None
    }
}

/// An extracted entry never escapes the destination through `..` and always
/// lies under one of the allowed subtrees.
pub proof fn extract_target_stays_inside(name: Seq<char>, prefixes: Seq<Seq<char>>, is_dir: bool)
    ensures
        extract_target_spec(name, prefixes, is_dir) matches Some(t) ==> {
            &&& !contains(t, ".."@)
            &&& exists|i: int| 0 <= i < prefixes.len() && starts_with(lower(t), #[trigger] prefixes[i])
            &&& !is_dir
        },
{
}

// ───────────────────── engines ─────────────────────

/// Per-variant 86Box wiring: which disposable child VHD to recreate, off
/// which parent image, and which per-game cfg to copy.
pub open spec fn e86box_files(variant: Seq<char>) -> (Seq<char>, Seq<char>, Seq<char>) {
    if variant == "86boxME"@ {
        ("ME-C.vhd"@, "ME-P.vhd"@, "play.cfg"@)
    } else if variant == "86boxNetHost"@ {
        ("W98-Host.vhd"@, "W98-NetHost.vhd"@, "Host.cfg"@)
    } else if variant == "86boxNetJoin"@ {
        ("W98-Join.vhd"@, "W98-NetJoin.vhd"@, "Join.cfg"@)
    } else {
        ("W98-C.vhd"@, "W98-P.vhd"@, "play.cfg"@)
    }
}

/// The child image, parent image and per-game cfg of an 86Box variant (see `e86box_files`).
pub fn e86box_variant_files(variant: &str) -> (r: (String, String, String))
    ensures
        (r.0@, r.1@, r.2@) == e86box_files(variant@),
{
    let v = chars_of(variant);
    if crate::text::eq_str(&v, "86boxME") {
        ("ME-C.vhd".to_string(), "ME-P.vhd".to_string(), "play.cfg".to_string())
    } else if crate::text::eq_str(&v, "86boxNetHost") {
        ("W98-Host.vhd".to_string(), "W98-NetHost.vhd".to_string(), "Host.cfg".to_string())
    } else if crate::text::eq_str(&v, "86boxNetJoin") {
        ("W98-Join.vhd".to_string(), "W98-NetJoin.vhd".to_string(), "Join.cfg".to_string())
    } else {
        ("W98-C.vhd".to_string(), "W98-P.vhd".to_string(), "play.cfg".to_string())
    }
}

/// The emulator a Win9x game runs under.
pub enum Win9xEngine {
    /// PCBox: Windows-only, not shipped; the game cannot be launched.
    PcBox,
    /// 86Box.
    Box86,
    /// DOSBox-X (the `x98` variant and anything else).
    DosboxX,
}

pub open spec fn engine_for(variant: Seq<char>) -> Win9xEngine {
    if variant == "pcbox"@ {
        Win9xEngine::PcBox
    } else if starts_with(variant, "86box"@) {
        Win9xEngine::Box86
    } else {
        Win9xEngine::DosboxX
    }
}

/// The variant a Win9x game runs as (`x98` when it has none).
pub open spec fn win9x_variant(variant: Option<Seq<char>>) -> Seq<char> {
    match variant {
        Some(v) => v,
        None => "x98"@,
    }
}

/// The emulator of a Win9x game of the given variant.
pub fn win9x_engine(variant: Option<&str>) -> (r: Win9xEngine)
    ensures
        r == engine_for(win9x_variant(opt_str_view(variant))),
{
    let v = match variant {
        Some(v) => chars_of(v),
        None => chars_of("x98"),
    };
    if crate::text::eq_str(&v, "pcbox") {
        Win9xEngine::PcBox
    } else if starts_with_str(&v, "86box") {
        Win9xEngine::Box86
    } else {
        Win9xEngine::DosboxX
    }
}

/// The directory of the per-game launcher bat: `app_path` with forward
/// slashes, up to its last `/` (None when it has no `/`).
pub open spec fn conf_dir_of_spec(app_path: Seq<char>) -> Option<Seq<char>> {
    let p = replace_all(app_path, "\\"@, "/"@);
    let c = crate::launch::last_component(p);
    if c.len() == p.len() {
        None
    } else {
        Some(p.take(p.len() - c.len() - 1))
    }
}

proof fn lemma_last_component_len(p: Seq<char>, i: int)
    requires
        0 <= i <= p.len(),
    ensures
        crate::launch::last_component_from(p, i).len() == p.len() || (exists|j: int|
            0 < j <= i && p[j - 1] == '/' && crate::launch::last_component_from(p, i) == p.skip(j)),
    decreases i,
{
    if i > 0 && p[i - 1] != '/' {
        lemma_last_component_len(p, i - 1);
    }
}

/// The launcher directory of a Win9x game (see `conf_dir_of_spec`).
pub fn conf_dir_of(app_path: &str) -> (r: Option<String>)
    ensures
        match r {
            Some(s) => conf_dir_of_spec(app_path@) == Some(s@),
            None => conf_dir_of_spec(app_path@) is None,
        },
{
    proof {
        reveal_strlit("\\");
    }
    let p = replace_str(&chars_of(app_path), "\\", "/");
    let mut i = p.len();
    while i > 0 && p[i - 1] != '/'
        invariant
            i <= p@.len(),
            crate::launch::last_component(p@) == crate::launch::last_component_from(p@, i as int),
        decreases i,
    {
        i -= 1;
    }
    if i == 0 {
        None
    } else {
        assert(crate::launch::last_component(p@) =~= p@.skip(i as int));
        let d = slice_of(&p, 0, i - 1);
        assert(d@ =~= p@.take(p@.len() - p@.skip(i as int).len() - 1));
        Some(string_of(&d))
    }
}

/// Why a Win9x launch is refused.
#[derive(Clone, Copy, Debug, PartialEq, Eq, Structural)]
pub enum Win9xRefusal {
    /// The game needs PCBox, which is not shipped.
    NeedsPcBox,
    /// The support files (OS images and emulators) are not on disk yet.
    SupportMissing,
    /// The catalogue gives the game no launcher path.
    NoLauncherPath,
    /// The launcher path has no directory part.
    BadLauncherPath,
    /// The game's config folder does not exist.
    ConfDirMissing,
    /// Neither the game's directory nor its ZIP is on disk.
    FilesMissing,
}

/// What the disk shows for a Win9x launch.
#[derive(Clone, Copy, Debug, PartialEq, Eq, Structural)]
pub struct Win9xProbe {
    /// The x98 support tree exists.
    pub x98_present: bool,
    /// The 86Box support tree exists.
    pub e86box_present: bool,
    /// The config folder (the launcher's directory) exists.
    pub conf_dir_found: bool,
    /// The game's directory exists.
    pub game_dir_found: bool,
    /// The game's ZIP exists.
    pub zip_found: bool,
}

/// The checks of a Win9x launch, in order: PCBox games are refused, then
/// missing support files, a missing launcher path, one without a directory,
/// a missing config folder; then a game with a shortcode whose directory is
/// missing is extracted from its ZIP first, or refused when there is none.
/// On success: the config folder (relative to the torrent root), whether to
/// extract first, and the engine.
pub open spec fn win9x_start_spec(
    variant: Option<Seq<char>>,
    app_path: Option<Seq<char>>,
    has_shortcode: bool,
    probe: Win9xProbe,
) -> Result<(Seq<char>, bool, Win9xEngine), Win9xRefusal> {
    let engine = engine_for(win9x_variant(variant));
    let ready = if is_86box(variant) {
        probe.e86box_present
    } else {
        probe.x98_present
    };
    if engine is PcBox {
        Err(Win9xRefusal::NeedsPcBox)
    } else if !ready {
        Err(Win9xRefusal::SupportMissing)
    } else {
        match app_path {
            None => Err(Win9xRefusal::NoLauncherPath),
            Some(p) => match conf_dir_of_spec(p) {
                None => Err(Win9xRefusal::BadLauncherPath),
                Some(d) => if !probe.conf_dir_found {
                    Err(Win9xRefusal::ConfDirMissing)
                } else if has_shortcode && !probe.game_dir_found {
                    if probe.zip_found {
                        Ok((d, true, engine))
                    } else {
                        Err(Win9xRefusal::FilesMissing)
                    }
                } else {
                    Ok((d, false, engine))
                },
            },
        }
    }
}

/// The view of a Win9x launch start.
pub open spec fn win9x_start_view(r: Result<(String, bool, Win9xEngine), Win9xRefusal>) -> Result<
    (Seq<char>, bool, Win9xEngine),
    Win9xRefusal,
> {
    match r {
        Ok((d, x, e)) => Ok((d@, x, e)),
        Err(e) => Err(e),
    }
}

/// How a Win9x launch starts, or why it is refused (see `win9x_start_spec`).
pub fn win9x_launch_start(
    variant: Option<&str>,
    app_path: Option<&str>,
    has_shortcode: bool,
    probe: Win9xProbe,
) -> (r: Result<(String, bool, Win9xEngine), Win9xRefusal>)
    ensures
        win9x_start_view(r) == win9x_start_spec(
            opt_str_view(variant),
            opt_str_view(app_path),
            has_shortcode,
            probe,
        ),
{
    let engine = win9x_engine(variant);
    if let Win9xEngine::PcBox = engine {
        return Err(Win9xRefusal::NeedsPcBox);
    }
    if !win9x_support_ready(variant, probe.x98_present, probe.e86box_present) {
        return Err(Win9xRefusal::SupportMissing);
    }
    let p = match app_path {
        None => return Err(Win9xRefusal::NoLauncherPath),
        Some(p) => p,
    };
    let d = match conf_dir_of(p) {
        None => return Err(Win9xRefusal::BadLauncherPath),
        Some(d) => d,
    };
    if !probe.conf_dir_found {
        return Err(Win9xRefusal::ConfDirMissing);
    }
    if has_shortcode && !probe.game_dir_found {
        if probe.zip_found {
            Ok((d, true, engine))
        } else {
            Err(Win9xRefusal::FilesMissing)
        }
    } else {
        Ok((d, false, engine))
    }
}

/// The first entry whose name equals `name` ignoring ASCII case.
pub open spec fn find_name_ci_spec(names: Seq<Seq<char>>, name: Seq<char>, k: int) -> Option<int>
    decreases names.len() - k,
{
    if k < 0 || k >= names.len() {
        None
    } else if lower(names[k]) == lower(name) {
        Some(k)
    } else {
        find_name_ci_spec(names, name, k + 1)
    }
}

/// Index of the first of `names` that equals `name` ignoring ASCII case
/// (the listing half of a case-insensitive file lookup).
pub fn find_name_ci(names: &Vec<String>, name: &str) -> (r: Option<usize>)
    ensures
        match r {
            Some(i) => find_name_ci_spec(string_views(names@), name@, 0) == Some(i as int),
            None => find_name_ci_spec(string_views(names@), name@, 0) is None,
        },
{
    let target = lower_exec(&chars_of(name));
    let mut i: usize = 0;
    while i < names.len()
        invariant
            i <= names@.len(),
            target@ == lower(name@),
            find_name_ci_spec(string_views(names@), name@, 0) == find_name_ci_spec(
                string_views(names@),
                name@,
                i as int,
            ),
        decreases names.len() - i,
    {
        let n = lower_exec(&chars_of(names[i].as_str()));
        assert(string_views(names@)[i as int] == names@[i as int]@);
        if eq_chars(&n, &target) {
            return Some(i);
        }
        i += 1;
    }
    None
}

// ───────────────────── zip mounts ─────────────────────

/// The single top-level directory all entries of a ZIP sit under, from
/// entry `k` on, given the one seen so far.
pub open spec fn wrapper_from(names: Seq<Seq<char>>, k: int, seen: Option<Seq<char>>) -> Option<Seq<char>>
    decreases names.len() - k,
{
    if k < 0 || k >= names.len() {
        seen
    } else {
        let n = replace_all(names[k], "\\"@, "/"@);
        let top = crate::launch::first_component(n);
        if !starts_with(n.skip(top.len() as int), "/"@) {
            None
        } else {
            match seen {
                Some(w) => if w != top {
                    None
                } else {
                    wrapper_from(names, k + 1, seen)
                },
                None => wrapper_from(names, k + 1, Some(top)),
            }
        }
    }
}

/// The directory a ZIP wraps all its entries in, when every entry name
/// (listed as `names`) sits under the same single top-level directory; None
/// when a file lies at the root or there are several top-level entries.
pub fn zip_wrapper_dir(names: &Vec<String>) -> (r: Option<String>)
    ensures
        match r {
            Some(s) => wrapper_from(string_views(names@), 0, None) == Some(s@),
            None => wrapper_from(string_views(names@), 0, None) is None,
        },
{
    let mut wrapper: Option<Vec<char>> = None;
    let mut i: usize = 0;
    while i < names.len()
        invariant
            i <= names@.len(),
            wrapper_from(string_views(names@), 0, None) == wrapper_from(
                string_views(names@),
                i as int,
                crate::midi::opt_view(wrapper),
            ),
        decreases names.len() - i,
    {
        assert(string_views(names@)[i as int] == names@[i as int]@);
        proof {
            reveal_strlit("\\");
            reveal_strlit("/");
        }
        let n = replace_str(&chars_of(names[i].as_str()), "\\", "/");
        let top = crate::text::split_first_exec(&n, &chars_of("/"));
        proof {
            lemma_split_first_len(n@, "/"@);
        }
        let rest = slice_of(&n, top.len(), n.len());
        assert(rest@ =~= n@.skip(top@.len() as int));
        if !starts_with_str(&rest, "/") {
            return None;
        }
        match &wrapper {
            Some(w) => {
                if !eq_chars(w, &top) {
                    return None;
                }
            },
            None => {
                wrapper = Some(top);
            },
        }
        i += 1;
    }
    match wrapper {
        Some(w) => Some(string_of(&w)),
        None => None,
    }
}

proof fn lemma_split_first_len(s: Seq<char>, p: Seq<char>)
    ensures
        crate::text::split_first(s, p).len() <= s.len(),
{
    crate::text::lemma_find_from_bounds(s, p, 0);
}

/// A `MOUNT <letter> "<...>.zip"` line (either case of `MOUNT`): the drive
/// letter and the ZIP path without quotes.
pub open spec fn zip_mount_spec(line: Seq<char>) -> Option<(Seq<char>, Seq<char>)> {
    let t = trim_start(line);
    let rest = match strip_prefix(t, "MOUNT "@) {
        Some(r) => Some(r),
        None => strip_prefix(t, "mount "@),
    };
    match rest {
        None => None,
        Some(r) => {
            let r = trim_start(r);
            let i = crate::text::first_ws(r, 0);
            if i >= r.len() {
                None
            } else {
                let letter = trim(r.take(i));
                let target = crate::autoexec::trim_quotes(trim(r.skip(i + 1)));
                if crate::text::ends_with(lower(target), ".zip"@) {
                    Some((letter, target))
                } else {
                    None
                }
            }
        },
    }
}

/// Parse a ZIP mount line (see `zip_mount_spec`).
pub fn parse_zip_mount(line: &str) -> (r: Option<(String, String)>)
    ensures
        match r {
            Some((a, b)) => zip_mount_spec(line@) == Some((a@, b@)),
            None => zip_mount_spec(line@) is None,
        },
{
    let t = crate::text::trim_start_exec(&chars_of(line));
    let rest = match strip_prefix_str(&t, "MOUNT ") {
        Some(r) => r,
        None => match strip_prefix_str(&t, "mount ") {
            Some(r) => r,
            None => return None,
        },
    };
    let r = crate::text::trim_start_exec(&rest);
    let mut i: usize = 0;
    while i < r.len() && !crate::text::is_ws_exec(r[i])
        invariant
            i <= r@.len(),
            crate::text::first_ws(r@, 0) == crate::text::first_ws(r@, i as int),
        decreases r.len() - i,
    {
        i += 1;
    }
    if i >= r.len() {
        return None;
    }
    let letter = trim_exec(&slice_of(&r, 0, i));
    assert(r@.subrange(0, i as int) =~= r@.take(i as int));
    let tail = slice_of(&r, i + 1, r.len());
    assert(tail@ =~= r@.skip(i + 1));
    let target = crate::autoexec::trim_quotes_exec(&trim_exec(&tail));
    if crate::text::ends_with_str(&lower_exec(&target), ".zip") {
        Some((string_of(&letter), string_of(&target)))
    } else {
        None
    }
}

/// `s.trim_start_matches("./")`.
pub open spec fn trim_dot_slash(s: Seq<char>) -> Seq<char>
    decreases s.len(),
{
    if s.len() >= 2 && s[0] == '.' && s[1] == '/' {
        trim_dot_slash(s.skip(2))
    } else {
        s
    }
}

/// A path separator of the host (`/`, and on Windows also `\\`).
pub open spec fn is_sep(c: char, windows: bool) -> bool {
    c == '/' || (windows && c == '\\')
}

/// `Path::is_absolute`: on Unix a leading `/`; on Windows a UNC, device or
/// verbatim prefix (two leading separators) or a drive letter, a colon and
/// a separator.
pub open spec fn host_absolute(p: Seq<char>, windows: bool) -> bool {
    if windows {
        (p.len() >= 2 && is_sep(p[0], true) && is_sep(p[1], true)) || (p.len() >= 3
            && crate::text::is_ascii_alpha(p[0]) && p[1] == ':' && is_sep(p[2], true))
    } else {
        p.len() >= 1 && p[0] == '/'
    }
}

fn host_absolute_exec(p: &[char], windows: bool) -> (r: bool)
    ensures
        r == host_absolute(p@, windows),
{
    if windows {
        (p.len() >= 2 && (p[0] == '/' || p[0] == '\\') && (p[1] == '/' || p[1] == '\\')) || (
        p.len() >= 3 && crate::text::is_ascii_alpha_exec(p[0]) && p[1] == ':' && (p[2] == '/'
            || p[2] == '\\'))
    } else {
        p.len() >= 1 && p[0] == '/'
    }
}

/// The ZIP a mount names: an absolute target as it is, otherwise relative
/// to the `eXo` dir with leading `./` removed.
pub open spec fn zip_mount_path_spec(target: Seq<char>, exo_dir: Seq<char>, windows: bool) -> Seq<char> {
    if host_absolute(target, windows) {
        target
    } else {
        path_join(exo_dir, trim_dot_slash(target))
    }
}

/// The ZIP a mount names (see `zip_mount_path_spec`); `windows` selects the
/// host's notion of an absolute path.
pub fn zip_mount_path(target: &str, exo_dir: &str, windows: bool) -> (r: String)
    ensures
        r@ == zip_mount_path_spec(target@, exo_dir@, windows),
{
    let t = chars_of(target);
    if host_absolute_exec(&t, windows) {
        return string_of(&t);
    }
    let mut i: usize = 0;
    assert(t@.skip(0) =~= t@);
    while i < t.len() && t.len() - i >= 2 && t[i] == '.' && t[i + 1] == '/'
        invariant
            i <= t@.len(),
            trim_dot_slash(t@) == trim_dot_slash(t@.skip(i as int)),
        decreases t.len() - i,
    {
        assert(t@.skip(i as int).skip(2) =~= t@.skip(i + 2));
        i += 2;
    }
    let rest = slice_of(&t, i, t.len());
    assert(rest@ =~= t@.skip(i as int));
    string_of(&path_join_exec(&chars_of(exo_dir), &rest))
}

/// `MOUNT <letter> "<dir>"`: the rewritten mount of an unwrapped ZIP.
pub fn mount_line(letter: &str, dir: &str) -> (r: String)
    ensures
        r@ == "MOUNT "@ + letter@ + " \""@ + dir@ + "\""@,
{
    let mut v = chars_of("MOUNT ");
    push_all(&mut v, &chars_of(letter));
    push_all(&mut v, &chars_of(" \""));
    push_all(&mut v, &chars_of(dir));
    push_all(&mut v, &chars_of("\""));
    string_of(&v)
}

proof fn lemma_wrapper_from_sound(names: Seq<Seq<char>>, k: int, seen: Option<Seq<char>>, w: Seq<char>)
    requires
        0 <= k,
        wrapper_from(names, k, seen) == Some(w),
    ensures
        seen is Some ==> seen == Some(w),
        forall|i: int|
            k <= i < names.len() ==> starts_with(
                #[trigger] replace_all(names[i], "\\"@, "/"@),
                w + "/"@,
            ),
    decreases names.len() - k,
{
    reveal_strlit("/");
    if k < names.len() {
        let n = replace_all(names[k], "\\"@, "/"@);
        let top = crate::launch::first_component(n);
        crate::text::lemma_find_from_bounds(n, "/"@, 0);
        let next = match seen {
            Some(_) => seen,
            None => Some(top),
        };
        lemma_wrapper_from_sound(names, k + 1, next, w);
        assert(top == w);
        match crate::text::find_from(n, "/"@, 0) {
            Some(j) => {
                assert(top == n.take(j));
                assert(n.skip(j).take(1) == "/"@);
                assert(n.skip(j)[0] == n[j]);
                assert(n.take(j + 1) =~= w + "/"@);
            },
            None => {
                assert(top == n);
                assert(n.skip(n.len() as int).len() == 0);
            },
        }
    }
}

/// A ZIP is unwrapped only when all its entries sit under one directory:
/// when `zip_wrapper_dir` names `w`, every entry name (with forward
/// slashes) starts with `w/`.
pub proof fn wrapper_holds_every_entry(names: Seq<Seq<char>>, w: Seq<char>)
    requires
        wrapper_from(names, 0, None) == Some(w),
    ensures
        forall|i: int|
            0 <= i < names.len() ==> starts_with(
                #[trigger] replace_all(names[i], "\\"@, "/"@),
                w + "/"@,
            ),
{
    lemma_wrapper_from_sound(names, 0, None, w);
}

/// One line of a config, with the ZIP mount it makes, if any: the drive
/// letter and the ZIP's path.
pub struct ConfLine {
    pub text: String,
    pub zip_mount: Option<(String, String)>,
}

pub open spec fn zip_mount_of(line: Seq<char>, exo_dir: Seq<char>, windows: bool) -> Option<(Seq<char>, Seq<char>)> {
    match zip_mount_spec(line) {
        Some((letter, target)) => Some((letter, zip_mount_path_spec(target, exo_dir, windows))),
        None => None,
    }
}

pub open spec fn conf_line_view(l: ConfLine) -> (Seq<char>, Option<(Seq<char>, Seq<char>)>) {
    (l.text@, match l.zip_mount {
        Some((a, b)) => Some((a@, b@)),
        None => None,
    })
}

/// The lines of a config (`str::lines`), each with the ZIP it mounts.
pub fn zip_mount_lines(conf: &str, exo_dir: &str, windows: bool) -> (r: Vec<ConfLine>)
    ensures
        r@.len() == lines(conf@).len(),
        forall|i: int|
            0 <= i < r@.len() ==> #[trigger] conf_line_view(r@[i]) == (lines(conf@)[i], zip_mount_of(
                lines(conf@)[i],
                exo_dir@,
                windows,
            )),
{
    let ls = lines_exec(&chars_of(conf));
    let mut out: Vec<ConfLine> = Vec::new();
    let mut i: usize = 0;
    while i < ls.len()
        invariant
            i <= ls@.len(),
            views(ls@) == lines(conf@),
            out@.len() == i,
            forall|k: int|
                0 <= k < i ==> #[trigger] conf_line_view(out@[k]) == (lines(conf@)[k], zip_mount_of(
                    lines(conf@)[k],
                    exo_dir@,
                    windows,
                )),
        decreases ls.len() - i,
    {
        assert(views(ls@)[i as int] == ls@[i as int]@);
        let text = string_of(&ls[i]);
        let zm = match parse_zip_mount(text.as_str()) {
            Some((letter, target)) => Some((letter, zip_mount_path(target.as_str(), exo_dir, windows))),
            None => None,
        };
        out.push(ConfLine { text, zip_mount: zm });
        i += 1;
    }
    out
}

/// The config with each line whose ZIP was unwrapped (`inner[i]` is the
/// directory to mount in its place) replaced by a mount of that directory;
/// the lines joined with `\n`.
pub open spec fn unwrapped_conf(ls: Seq<ConfLine>, inner: Seq<Option<String>>) -> Seq<char> {
    join(
        Seq::new(
            ls.len(),
            |i: int|
                match (ls[i].zip_mount, inner[i]) {
                    (Some((letter, _)), Some(dir)) => "MOUNT "@ + letter@ + " \""@ + dir@ + "\""@,
                    _ => ls[i].text@,
                },
        ),
        "\n"@,
    )
}

/// Rejoin the lines of a config after its wrapped ZIPs were extracted (see
/// `unwrapped_conf`).
pub fn rewrite_zip_mounts(ls: &Vec<ConfLine>, inner: &Vec<Option<String>>) -> (r: String)
    requires
        inner@.len() == ls@.len(),
    ensures
        r@ == unwrapped_conf(ls@, inner@),
{
    let mut parts: Vec<Vec<char>> = Vec::new();
    let mut i: usize = 0;
    while i < ls.len()
        invariant
            i <= ls@.len(),
            inner@.len() == ls@.len(),
            parts@.len() == i,
            forall|k: int|
                0 <= k < i ==> #[trigger] parts@[k]@ == match (ls@[k].zip_mount, inner@[k]) {
                    (Some((letter, _)), Some(dir)) => "MOUNT "@ + letter@ + " \""@ + dir@ + "\""@,
                    _ => ls@[k].text@,
                },
        decreases ls.len() - i,
    {
        let line = match (&ls[i].zip_mount, &inner[i]) {
            (Some((letter, _)), Some(dir)) => chars_of(mount_line(letter.as_str(), dir.as_str()).as_str()),
            _ => chars_of(ls[i].text.as_str()),
        };
        parts.push(line);
        i += 1;
    }
    let joined = crate::text::join_exec(&parts, &chars_of("\n"));
    assert(views(parts@) =~= Seq::new(
        ls@.len(),
        |i: int|
            match (ls@[i].zip_mount, inner@[i]) {
                (Some((letter, _)), Some(dir)) => "MOUNT "@ + letter@ + " \""@ + dir@ + "\""@,
                _ => ls@[i].text@,
            },
    ));
    string_of(&joined)
}

// ───────────────────── networking ─────────────────────

/// The interface named after `dev` in `ip -o route get` output.
pub open spec fn after_dev(words: Seq<Seq<char>>, k: int) -> Option<Seq<char>>
    decreases words.len() - k,
{
    if k < 0 || k >= words.len() {
        None
    } else if words[k] == "dev"@ {
        if k + 1 < words.len() {
            Some(words[k + 1])
        } else {
            None
        }
    } else {
        after_dev(words, k + 1)
    }
}

/// The whitespace-separated words of a text (`split_whitespace`).
pub open spec fn words_from(s: Seq<char>) -> Seq<Seq<char>>
    decreases s.len(),
{
    let t = trim_start(s);
    if t.len() == 0 {
        seq![]
    } else {
        let w = first_token(t);
        proof {
            lemma_trim_start_len(s);
            lemma_first_token_len(t);
        }
        seq![w] + words_from(t.skip(w.len() as int))
    }
}

pub proof fn lemma_trim_start_len(s: Seq<char>)
    ensures
        trim_start(s).len() <= s.len(),
        trim_start(s).len() > 0 ==> !crate::text::is_ws(trim_start(s)[0]),
    decreases s.len(),
{
    if s.len() > 0 && crate::text::is_ws(s[0]) {
        lemma_trim_start_len(s.drop_first());
    }
}

pub proof fn lemma_first_ws_bounds(s: Seq<char>, i: int)
    requires
        0 <= i <= s.len(),
    ensures
        i <= crate::text::first_ws(s, i) <= s.len(),
    decreases s.len() - i,
{
    if i < s.len() && !crate::text::is_ws(s[i]) {
        lemma_first_ws_bounds(s, i + 1);
    }
}

pub proof fn lemma_first_token_len(t: Seq<char>)
    requires
        t.len() > 0,
        !crate::text::is_ws(t[0]),
    ensures
        0 < first_token(t).len() <= t.len(),
        first_token(t) == t.take(crate::text::first_ws(t, 0)),
{
    lemma_trim_start_len(t);
    assert(trim_start(t) == t);
    lemma_first_ws_bounds(t, 0);
    lemma_first_ws_bounds(t, 1);
    assert(crate::text::first_ws(t, 0) == crate::text::first_ws(t, 1));
}

/// Split a text into its whitespace-separated words.
pub fn words(s: &[char]) -> (r: Vec<Vec<char>>)
    ensures
        views(r@) == words_from(s@),
{
    let mut out: Vec<Vec<char>> = Vec::new();
    let mut rest = copy_chars(s);
    assert(views(out@) =~= Seq::<Seq<char>>::empty());
    loop
        invariant
            words_from(s@) == views(out@) + words_from(rest@),
        decreases rest@.len(),
    {
        let t = crate::text::trim_start_exec(&rest);
        proof {
            lemma_trim_start_len(rest@);
        }
        if t.len() == 0 {
            assert(views(out@) + words_from(rest@) =~= views(out@));
            return out;
        }
        let w = crate::text::first_token_exec(&t);
        proof {
            lemma_first_token_len(t@);
        }
        let next = slice_of(&t, w.len(), t.len());
        assert(next@ =~= t@.skip(w@.len() as int));
        let ghost before = out@;
        out.push(w);
        assert(views(out@) =~= views(before).push(first_token(t@)));
        assert(views(out@) + words_from(next@) =~= views(before) + (seq![first_token(t@)] + words_from(next@)));
        rest = next;
    }
}

/// The interface of the default route, from `ip -o route get` output.
pub fn interface_from_ip_route(output: &str) -> (r: Option<String>)
    ensures
        match r {
            Some(s) => after_dev(words_from(output@), 0) == Some(s@),
            None => after_dev(words_from(output@), 0) is None,
        },
{
    let ws = words(&chars_of(output));
    let mut k: usize = 0;
    while k < ws.len()
        invariant
            k <= ws@.len(),
            views(ws@) == words_from(output@),
            after_dev(words_from(output@), 0) == after_dev(words_from(output@), k as int),
        decreases ws.len() - k,
    {
        assert(views(ws@)[k as int] == ws@[k as int]@);
        if crate::text::eq_str(&ws[k], "dev") {
            if k + 1 < ws.len() {
                assert(views(ws@)[k + 1] == ws@[k + 1]@);
                return Some(string_of(&ws[k + 1]));
            }
            return None;
        }
        k += 1;
    }
    None
}

/// The first `interface:` line of `route -n get default` output.
pub open spec fn route_interface(ls: Seq<Seq<char>>, k: int) -> Option<Seq<char>>
    decreases ls.len() - k,
{
    if k < 0 || k >= ls.len() {
        None
    } else {
        match strip_prefix(trim(ls[k]), "interface:"@) {
            Some(r) => Some(trim(r)),
            None => route_interface(ls, k + 1),
        }
    }
}

/// The interface of the default route, from macOS `route -n get default`
/// output.
pub fn interface_from_route_get(output: &str) -> (r: Option<String>)
    ensures
        match r {
            Some(s) => route_interface(lines(output@), 0) == Some(s@),
            None => route_interface(lines(output@), 0) is None,
        },
{
    let ls = lines_exec(&chars_of(output));
    let mut k: usize = 0;
    while k < ls.len()
        invariant
            k <= ls@.len(),
            views(ls@) == lines(output@),
            route_interface(lines(output@), 0) == route_interface(lines(output@), k as int),
        decreases ls.len() - k,
    {
        assert(views(ls@)[k as int] == ls@[k as int]@);
        let t = trim_exec(&ls[k]);
        match strip_prefix_str(&t, "interface:") {
            Some(r) => {
                return Some(string_of(&trim_exec(&r)));
            },
            None => {},
        }
        k += 1;
    }
    None
}

/// The network-backend fragment appended to every DOSBox-X launch: on a
/// Unix host, bridging onto `nic` with pcap when packets can be captured
/// and the default interface is known, user-mode NAT (slirp) otherwise;
/// nothing on Windows, where eXo's own setup applies.
pub open spec fn ne2000_spec(unix: bool, can_capture: bool, nic: Option<Seq<char>>) -> Seq<char> {
    if !unix {
        seq![]
    } else if can_capture && nic is Some {
        "[ne2000]\nbackend = pcap\n[ethernet, pcap]\nrealnic = "@ + nic->0 + "\n"@
    } else {
        "[ne2000]\nbackend = slirp\n"@
    }
}

/// The network-backend fragment of a DOSBox-X launch (see `ne2000_spec`).
pub fn ne2000_override(unix: bool, can_capture: bool, nic: Option<&str>) -> (r: String)
    ensures
        r@ == ne2000_spec(unix, can_capture, opt_str_view(nic)),
{
    if !unix {
        return String::new();
    }
    if can_capture {
        if let Some(n) = nic {
            let mut v = chars_of("[ne2000]\nbackend = pcap\n[ethernet, pcap]\nrealnic = ");
            push_all(&mut v, &chars_of(n));
            push_all(&mut v, &chars_of("\n"));
            return string_of(&v);
        }
    }
    "[ne2000]\nbackend = slirp\n".to_string()
}

/// The host a network status is computed for.
pub enum Host {
    MacOs,
    Linux,
    Windows,
}

/// Whether eXo's remote-multiplayer titles can reach their IPX server, and
/// whether the launcher can obtain that permission for the user.
pub struct Win9xNetworkStatus {
    /// The host lets the guest be bridged onto a real interface.
    pub enabled: bool,
    /// The launcher can ask the OS for that permission.
    pub can_enable: bool,
    /// What enabling grants, in one line.
    pub detail: String,
    /// Command to run by hand when `can_enable` is false.
    pub manual_hint: Option<String>,
}

pub open spec fn status_view(s: Win9xNetworkStatus) -> (bool, bool, Seq<char>, Option<Seq<char>>) {
    (s.enabled, s.can_enable, s.detail@, crate::launch::opt_string_view(s.manual_hint))
}

pub open spec fn enabled_detail() -> Seq<char> {
    "Multiplayer games can reach eXo's IPX server."@
}

/// The status on each host: Windows is always enabled (npcap ships with the
/// support files); macOS and Linux are enabled when packets can be captured,
/// can be enabled otherwise (Linux only through PolicyKit's `pkexec`, else
/// with a manual `setcap` hint).
pub open spec fn network_status_spec(host: Host, can_capture: bool, has_pkexec: bool) -> (bool, bool, Seq<char>, Option<Seq<char>>) {
    match host {
        Host::Windows => (
            true,
            false,
            "Multiplayer uses npcap, which ships with the eXoWin9x support files."@,
            None,
        ),
        Host::MacOs => (
            can_capture,
            !can_capture,
            if can_capture {
                enabled_detail()
            } else {
                "Multiplayer games cannot connect: bridging the emulated network card needs packet-capture access, which macOS keeps closed by default."@
            },
            None,
        ),
        Host::Linux => (
            can_capture,
            !can_capture && has_pkexec,
            if can_capture {
                enabled_detail()
            } else {
                "Multiplayer games cannot connect: bridging the emulated network card needs the CAP_NET_RAW capability on DOSBox-X."@
            },
            if !can_capture && !has_pkexec {
                Some("sudo setcap cap_net_raw+ep $(which dosbox-x)"@)
            } else {
                None
            },
        ),
    }
}

/// The multiplayer network status of the host (see `network_status_spec`).
pub fn win9x_network_status(host: Host, can_capture: bool, has_pkexec: bool) -> (r: Win9xNetworkStatus)
    ensures
        status_view(r) == network_status_spec(host, can_capture, has_pkexec),
{
    match host {
        Host::Windows => Win9xNetworkStatus {
            enabled: true,
            can_enable: false,
            detail: "Multiplayer uses npcap, which ships with the eXoWin9x support files.".to_string(),
            manual_hint: None,
        },
        Host::MacOs => Win9xNetworkStatus {
            enabled: can_capture,
            can_enable: !can_capture,
            detail: if can_capture {
                "Multiplayer games can reach eXo's IPX server.".to_string()
            } else {
                "Multiplayer games cannot connect: bridging the emulated network card needs packet-capture access, which macOS keeps closed by default.".to_string()
            },
            manual_hint: None,
        },
        Host::Linux => Win9xNetworkStatus {
            enabled: can_capture,
            can_enable: !can_capture && has_pkexec,
            detail: if can_capture {
                "Multiplayer games can reach eXo's IPX server.".to_string()
            } else {
                "Multiplayer games cannot connect: bridging the emulated network card needs the CAP_NET_RAW capability on DOSBox-X.".to_string()
            },
            manual_hint: if !can_capture && !has_pkexec {
                Some("sudo setcap cap_net_raw+ep $(which dosbox-x)".to_string())
            } else {
                None
            },
        },
    }
}

/// Should launching a game offer to turn multiplayer on first? Only off
/// Windows, when packets cannot be captured yet, the user has not turned
/// the prompt off, the game is a Win9x title (its collection has per-year
/// subdirectories), and its `play.conf` (when found) boots one of eXo's
/// network parent images.
pub open spec fn prompt_needed_spec(
    windows: bool,
    can_capture: bool,
    asked: Option<Seq<char>>,
    year_subdirs: bool,
    play_conf: Option<Seq<char>>,
) -> bool {
    &&& !windows
    &&& !can_capture
    &&& asked != Some("off"@)
    &&& year_subdirs
    &&& match play_conf {
        Some(c) => contains(lower(c), "w98-c-net"@),
        None => false,
    }
}

/// Should launching offer to turn multiplayer on first (see `prompt_needed_spec`)?
pub fn win9x_prompt_needed(
    windows: bool,
    can_capture: bool,
    asked: Option<&str>,
    year_subdirs: bool,
    play_conf: Option<&str>,
) -> (r: bool)
    ensures
        r == prompt_needed_spec(windows, can_capture, opt_str_view(asked), year_subdirs, opt_str_view(play_conf)),
{
    if windows || can_capture {
        return false;
    }
    if let Some(a) = asked {
        if crate::text::eq_str(&chars_of(a), "off") {
            return false;
        }
    }
    if !year_subdirs {
        return false;
    }
    match play_conf {
        Some(c) => contains_str(&lower_exec(&chars_of(c)), "w98-c-net"),
        None => false,
    }
}

/// The user-preference fragment applied last to a DOSBox-X launch:
/// fullscreen, a 1024x768 window with OpenGL output, the network backend,
/// then the trimmed custom config (when not blank).
pub open spec fn dosbox_x_overrides_spec(fullscreen: bool, ne2000: Seq<char>, custom: Option<Seq<char>>) -> Seq<char> {
    "[sdl]\nfullscreen = "@ + (if fullscreen {
        "true"@
    } else {
        "false"@
    }) + "\nwindowresolution = 1024x768\noutput = opengl\n"@ + ne2000 + match custom {
        Some(c) => if trim(c).len() != 0 {
            "\n"@ + trim(c) + "\n"@
        } else {
            seq![]
        },
        None => seq![],
    }
}

/// The user-preference fragment of a DOSBox-X launch (see `dosbox_x_overrides_spec`).
pub fn dosbox_x_overrides(fullscreen: bool, ne2000: &str, custom: Option<&str>) -> (r: String)
    ensures
        r@ == dosbox_x_overrides_spec(fullscreen, ne2000@, opt_str_view(custom)),
{
    let mut v = chars_of("[sdl]\nfullscreen = ");
    push_all(&mut v, &chars_of(if fullscreen { "true" } else { "false" }));
    push_all(&mut v, &chars_of("\nwindowresolution = 1024x768\noutput = opengl\n"));
    push_all(&mut v, &chars_of(ne2000));
    let ghost head = v@;
    if let Some(c) = custom {
        let t = trim_exec(&chars_of(c));
        if t.len() != 0 {
            push_all(&mut v, &chars_of("\n"));
            push_all(&mut v, &t);
            push_all(&mut v, &chars_of("\n"));
        } else {
            assert(v@ =~= head + Seq::<char>::empty());
        }
    } else {
        assert(v@ =~= head + Seq::<char>::empty());
    }
    string_of(&v)
}

/// How far the Win9x support files are.
pub enum SupportPhase {
    Ready,
    Downloading,
    Missing,
}

/// Ready when both support trees are on disk; downloading while the
/// utility ZIP is selected; missing otherwise.
pub open spec fn support_phase_spec(have_manager: bool, ready: bool, util_known: bool, util_selected: bool) -> SupportPhase {
    if !have_manager {
        SupportPhase::Missing
    } else if ready {
        SupportPhase::Ready
    } else if util_known && util_selected {
        SupportPhase::Downloading
    } else {
        SupportPhase::Missing
    }
}

/// How far the Win9x support files are (see `support_phase_spec`).
pub fn support_phase(have_manager: bool, ready: bool, util_known: bool, util_selected: bool) -> (r: SupportPhase)
    ensures
        r == support_phase_spec(have_manager, ready, util_known, util_selected),
{
    if !have_manager {
        SupportPhase::Missing
    } else if ready {
        SupportPhase::Ready
    } else if util_known && util_selected {
        SupportPhase::Downloading
    } else {
        SupportPhase::Missing
    }
}

// ───────────────────── engines on the host ─────────────────────

/// How a resolved emulator is run: a binary, or a Flatpak application.
pub enum EngineCmd {
    Direct(String),
    Flatpak(String),
}

pub open spec fn engine_view(e: EngineCmd) -> (bool, Seq<char>) {
    match e {
        EngineCmd::Direct(b) => (true, b@),
        EngineCmd::Flatpak(id) => (false, id@),
    }
}

pub open spec fn opt_engine_view(e: Option<EngineCmd>) -> Option<(bool, Seq<char>)> {
    match e {
        Some(x) => Some(engine_view(x)),
        None => None,
    }
}

/// Where the app bundles DOSBox-X under its resources (none on Linux,
/// which has no official DOSBox-X binaries).
pub open spec fn dosbox_x_bundled_spec(host: Host) -> Option<Seq<char>> {
    match host {
        Host::Windows => Some("dosbox-x-bin/dosbox-x.exe"@),
        Host::MacOs => Some("dosbox-x/dosbox-x.app/Contents/MacOS/dosbox-x"@),
        Host::Linux => None,
    }
}

/// The bundled DOSBox-X under the resources, if the host has one.
pub fn dosbox_x_bundled(host: Host) -> (r: Option<String>)
    ensures
        crate::launch::opt_string_view(r) == dosbox_x_bundled_spec(host),
{
    match host {
        Host::Windows => Some("dosbox-x-bin/dosbox-x.exe".to_string()),
        Host::MacOs => Some("dosbox-x/dosbox-x.app/Contents/MacOS/dosbox-x".to_string()),
        Host::Linux => None,
    }
}

/// Where the app bundles 86Box under its resources.
pub open spec fn box86_bundled_spec(host: Host) -> Seq<char> {
    match host {
        Host::Windows => "86box-bin/86Box.exe"@,
        Host::MacOs => "86box/86Box.app/Contents/MacOS/86Box"@,
        Host::Linux => "86box/86Box.AppImage"@,
    }
}

/// The bundled 86Box under the resources.
pub fn box86_bundled(host: Host) -> (r: String)
    ensures
        r@ == box86_bundled_spec(host),
{
    match host {
        Host::Windows => "86box-bin/86Box.exe".to_string(),
        Host::MacOs => "86box/86Box.app/Contents/MacOS/86Box".to_string(),
        Host::Linux => "86box/86Box.AppImage".to_string(),
    }
}

/// The DOSBox-X a Win9x game runs under, from what was found on the host:
/// on Windows eXo's own x98 build (`exo_build`, when on disk), then the
/// bundled build, then `dosbox-x` on the `PATH`, then on Linux its Flatpak.
pub open spec fn dosbox_x_choice(
    host: Host,
    exo_build: Option<Seq<char>>,
    bundled: Option<Seq<char>>,
    on_path: bool,
    flatpak: bool,
) -> Option<(bool, Seq<char>)> {
    if host == Host::Windows && exo_build is Some {
        Some((true, exo_build->0))
    } else if bundled is Some {
        Some((true, bundled->0))
    } else if on_path {
        Some((true, "dosbox-x"@))
    } else if host == Host::Linux && flatpak {
        Some((false, "com.dosbox_x.DOSBox-X"@))
    } else {
        None
    }
}

/// The DOSBox-X to run, from the probes of the host (see `dosbox_x_choice`).
pub fn pick_dosbox_x(
    host: Host,
    exo_build: Option<String>,
    bundled: Option<String>,
    on_path: bool,
    flatpak: bool,
) -> (r: Option<EngineCmd>)
    ensures
        opt_engine_view(r) == dosbox_x_choice(
            host,
            crate::launch::opt_string_view(exo_build),
            crate::launch::opt_string_view(bundled),
            on_path,
            flatpak,
        ),
{
    let windows = match host {
        Host::Windows => true,
        _ => false,
    };
    let linux = match host {
        Host::Linux => true,
        _ => false,
    };
    if windows && exo_build.is_some() {
        match exo_build {
            Some(b) => return Some(EngineCmd::Direct(b)),
            None => {},
        }
    }
    match bundled {
        Some(b) => Some(EngineCmd::Direct(b)),
        None => if on_path {
            Some(EngineCmd::Direct("dosbox-x".to_string()))
        } else if linux && flatpak {
            Some(EngineCmd::Flatpak("com.dosbox_x.DOSBox-X".to_string()))
        } else {
            None
        },
    }
}

/// The 86Box a game runs under: the bundled one, else `86Box` on the `PATH`.
pub fn pick_86box(bundled: Option<String>, on_path: bool) -> (r: Option<EngineCmd>)
    ensures
        opt_engine_view(r) == match crate::launch::opt_string_view(bundled) {
            Some(b) => Some((true, b)),
            None => if on_path {
                Some((true, "86Box"@))
            } else {
                None
            },
        },
{
    match bundled {
        Some(b) => Some(EngineCmd::Direct(b)),
        None => if on_path {
            Some(EngineCmd::Direct("86Box".to_string()))
        } else {
            None
        },
    }
}

// ───────────────────── packet-capture permission ─────────────────────

/// `char::is_alphanumeric`: the Unicode `Alphabetic` or `Numeric` property.
/// A function of the character alone.
pub uninterp spec fn unicode_alphanumeric(c: char) -> bool;

/// Calls `char::is_alphanumeric`; the contract claims only that the result
/// is the named Unicode property of the argument.
#[verifier::external_body]
fn is_alphanumeric(c: char) -> (r: bool)
    ensures
        r == unicode_alphanumeric(c),
{
    c.is_alphanumeric()
}

/// A user name the macOS helper may write into its root-run script: every
/// character alphanumeric or one of `.`, `_`, `-`.
pub open spec fn user_name_ok_spec(user: Seq<char>) -> bool {
    forall|i: int|
        0 <= i < user.len() ==> (unicode_alphanumeric(#[trigger] user[i]) || user[i] == '.'
            || user[i] == '_' || user[i] == '-')
}

/// May this user name go into the helper script (see `user_name_ok_spec`)?
pub fn user_name_ok(user: &str) -> (r: bool)
    ensures
        r == user_name_ok_spec(user@),
{
    let u = chars_of(user);
    let mut i: usize = 0;
    while i < u.len()
        invariant
            i <= u@.len(),
            u@ == user@,
            forall|k: int|
                0 <= k < i ==> (unicode_alphanumeric(#[trigger] u@[k]) || u@[k] == '.' || u@[k]
                    == '_' || u@[k] == '-'),
        decreases u.len() - i,
    {
        let c = u[i];
        if !(is_alphanumeric(c) || c == '.' || c == '_' || c == '-') {
            return false;
        }
        i += 1;
    }
    true
}

// ───────────────────── support-file watchers ─────────────────────

/// What a watcher waiting for a utility ZIP does on one check.
pub enum WatchStep {
    /// The job is done (or cannot be done): stop watching.
    Stop,
    /// The ZIP is complete: extract it.
    Extract,
    /// Check again later.
    Wait,
}

/// One check of the Win9x support watcher: stop once both support trees are
/// on disk or the ZIP has no output path; extract once the ZIP is complete,
/// by the torrent's stats or by its size on disk (`disk_len`, when the file
/// exists) reaching the `expected` size; wait otherwise.
pub open spec fn support_watch_spec(
    both_ready: bool,
    have_path: bool,
    stats_complete: bool,
    expected: u64,
    disk_len: Option<u64>,
) -> WatchStep {
    if both_ready || !have_path {
        WatchStep::Stop
    } else if stats_complete || (expected > 0 && match disk_len {
        Some(l) => l >= expected,
        None => false,
    }) {
        WatchStep::Extract
    } else {
        WatchStep::Wait
    }
}

/// One check of the Win9x support watcher (see `support_watch_spec`).
pub fn support_watch_step(
    both_ready: bool,
    have_path: bool,
    stats_complete: bool,
    expected: u64,
    disk_len: Option<u64>,
) -> (r: WatchStep)
    ensures
        r == support_watch_spec(both_ready, have_path, stats_complete, expected, disk_len),
{
    if both_ready || !have_path {
        return WatchStep::Stop;
    }
    let disk_complete = expected > 0 && match disk_len {
        Some(l) => l >= expected,
        None => false,
    };
    if stats_complete || disk_complete {
        WatchStep::Extract
    } else {
        WatchStep::Wait
    }
}

/// How an extraction attempt of the support files ended.
pub enum ExtractOutcome {
    Extracted,
    /// Another extraction was already running.
    AlreadyRunning,
    Failed,
    /// The extraction task itself died.
    Crashed,
}

/// The failures counted after an attempt, and whether the watcher stops:
/// after a success, when another extraction runs, when the task died, or at
/// the third failure.
pub open spec fn after_extraction_spec(failures: u32, outcome: ExtractOutcome) -> (int, bool) {
    match outcome {
        ExtractOutcome::Failed => (failures + 1, failures + 1 >= 3),
        _ => (failures as int, true),
    }
}

/// The failures counted after an extraction attempt, and whether the watcher stops.
pub fn after_extraction(failures: u32, outcome: ExtractOutcome) -> (r: (u32, bool))
    requires
        failures < u32::MAX,
    ensures
        (r.0 as int, r.1) == after_extraction_spec(failures, outcome),
{
    match outcome {
        ExtractOutcome::Failed => (failures + 1, failures + 1 >= 3),
        _ => (failures, true),
    }
}

/// After a restart the Win9x watcher is armed again only when the support
/// files are still missing and their ZIP was requested: it is still
/// selected, or a non-empty file of it is on disk.
pub fn rearm_wanted(both_ready: bool, util_known: bool, selected: bool, on_disk: bool) -> (r: bool)
    ensures
        r == (!both_ready && util_known && (selected || on_disk)),
{
    !both_ready && util_known && (selected || on_disk)
}

/// One check of the MT-32 watcher: stop once the MT-32 assets (and, on
/// Windows, the ECE build) are on disk; once the ZIP is complete, extract
/// it unless it has no output path, is not on disk or is already claimed by
/// a lock file (then stop); wait otherwise.
pub open spec fn mt32_watch_spec(
    mt32_present: bool,
    windows: bool,
    ece_present: bool,
    complete: bool,
    have_path: bool,
    zip_exists: bool,
    lock_exists: bool,
) -> WatchStep {
    if mt32_present && (!windows || ece_present) {
        WatchStep::Stop
    } else if complete {
        if !have_path || !zip_exists || lock_exists {
            WatchStep::Stop
        } else {
            WatchStep::Extract
        }
    } else {
        WatchStep::Wait
    }
}

/// One check of the MT-32 watcher (see `mt32_watch_spec`).
pub fn mt32_watch_step(
    mt32_present: bool,
    windows: bool,
    ece_present: bool,
    complete: bool,
    have_path: bool,
    zip_exists: bool,
    lock_exists: bool,
) -> (r: WatchStep)
    ensures
        r == mt32_watch_spec(mt32_present, windows, ece_present, complete, have_path, zip_exists, lock_exists),
{
    if mt32_present && (!windows || ece_present) {
        WatchStep::Stop
    } else if complete {
        if !have_path || !zip_exists || lock_exists {
            WatchStep::Stop
        } else {
            WatchStep::Extract
        }
    } else {
        WatchStep::Wait
    }
}

/// A watcher gives up after three failed extractions: whatever the
/// outcomes, counting from zero, it stops by the third attempt.
pub proof fn watcher_stops_by_third_attempt(o1: ExtractOutcome, o2: ExtractOutcome, o3: ExtractOutcome)
    ensures
        ({
            let (f1, s1) = after_extraction_spec(0, o1);
            let (f2, s2) = after_extraction_spec(f1 as u32, o2);
            let (_, s3) = after_extraction_spec(f2 as u32, o3);
            s1 || s2 || s3
        }),
{
}

} // verus!
