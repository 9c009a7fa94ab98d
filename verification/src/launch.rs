//! Deciding how a DOS game is launched: where its config and working dir
//! are, which engine runs it and which override fragments go with it.
use vstd::prelude::*;
use crate::autoexec::{path_join, string_views};
use crate::collection::{
    game_dir_rel, game_prefix_of, inner_folder_of, join_path, lang_dir_of, lang_dirs,
    lang_dirs_exec, opt_def, slash, slash_exec, CollectionDef,
};
use crate::text::{
    chars_of, contains, contains_str, copy_chars, find_from, push_all, replace_all, replace_str,
    starts_with, starts_with_str, string_of, trim, trim_exec,
};

verus! {

/// The first `/`-separated component of a path (`split('/').next()`).
pub open spec fn first_component(p: Seq<char>) -> Seq<char> {
    match find_from(p, "/"@, 0) {
        Some(i) => p.take(i),
        None => p,
    }
}

/// The second `/`-separated component of a path (`split('/').nth(1)`).
pub open spec fn second_component(p: Seq<char>) -> Option<Seq<char>> {
    crate::text::split_second(p, "/"@)
}

/// The first `/`-separated component of a path.
pub fn first_component_exec(p: &str) -> (r: String)
    ensures
        r@ == first_component(p@),
{
    proof {
        reveal_strlit("/");
    }
    let v = crate::text::split_first_exec(&chars_of(p), &chars_of("/"));
    string_of(&v)
}

/// The working-dir name of a collection: the first component of its game
/// prefix (`eXo` for `eXo/eXoDOS`).
pub fn working_dir_name(game_prefix: &str) -> (r: String)
    ensures
        r@ == first_component(game_prefix@),
{
    first_component_exec(game_prefix)
}

/// The eXoDOS root folder the configs reference: the second component of
/// the game prefix (`eXoDOS` when there is none).
pub fn game_folder_of(game_prefix: &str) -> (r: String)
    ensures
        r@ == match second_component(game_prefix@) {
            Some(s) => s,
            None => "eXoDOS"@,
        },
{
    proof {
        reveal_strlit("/");
    }
    match crate::text::split_second_exec(&chars_of(game_prefix), &chars_of("/")) {
        Some(v) => string_of(&v),
        None => "eXoDOS".to_string(),
    }
}

/// The shortcode named by a config path `.../<shortcode>/dosbox.conf`.
pub open spec fn conf_shortcode(conf: Seq<char>) -> Option<Seq<char>> {
    if crate::text::ends_with(conf, "/dosbox.conf"@) {
        let dir = conf.take(conf.len() - "/dosbox.conf"@.len());
        let sc = last_component(dir);
        if sc.len() > 0 {
            Some(sc)
        } else {
            None
        }
    } else {
        None
    }
}

/// The part of `p` after its last `/` (`rsplit('/').next()`).
pub open spec fn last_component_from(p: Seq<char>, i: int) -> Seq<char>
    decreases i,
{
    if i <= 0 || i > p.len() {
        p
    } else if p[i - 1] == '/' {
        p.skip(i)
    } else {
        last_component_from(p, i - 1)
    }
}

pub open spec fn last_component(p: Seq<char>) -> Seq<char> {
    last_component_from(p, p.len() as int)
}

fn last_component_exec(p: &[char]) -> (r: Vec<char>)
    ensures
        r@ == last_component(p@),
{
    let mut i = p.len();
    while i > 0 && p[i - 1] != '/'
        invariant
            i <= p@.len(),
            last_component(p@) == last_component_from(p@, i as int),
        decreases i,
    {
        i -= 1;
    }
    if i == 0 {
        copy_chars(p)
    } else {
        let r = crate::text::slice_of(p, i, p.len());
        assert(r@ =~= p@.skip(i as int));
        r
    }
}

/// The shortcode named by a (forward-slash) config path, see
/// `conf_shortcode`.
pub fn conf_shortcode_exec(conf: &str) -> (r: Option<String>)
    ensures
        match r {
            Some(s) => conf_shortcode(conf@) == Some(s@),
            None => conf_shortcode(conf@) is None,
        },
{
    let c = chars_of(conf);
    let suffix = chars_of("/dosbox.conf");
    if !crate::text::ends_with_exec(&c, &suffix) {
        return None;
    }
    let dir = crate::text::slice_of(&c, 0, c.len() - suffix.len());
    assert(dir@ =~= c@.take(c@.len() - suffix@.len()));
    let sc = last_component_exec(&dir);
    if sc.len() > 0 {
        Some(string_of(&sc))
    } else {
        None
    }
}

/// A place to look for a game's config, with the working dir it runs in.
pub struct ConfCandidate {
    pub conf: String,
    pub working_dir: String,
}

pub open spec fn cand_view(c: ConfCandidate) -> (Seq<char>, Seq<char>) {
    (c.conf@, c.working_dir@)
}

/// The config paths tried for a DOS game, in order, with the working dir
/// each implies: the game's own collection; for a language pack, the EN
/// config in the main collection (the LP working dir kept); then the
/// language-specific config dirs of the game's collection and, for a
/// language pack, of the main collection.
pub open spec fn conf_candidates(
    torrent_root: Seq<char>,
    main_root: Seq<char>,
    wd_name: Seq<char>,
    conf: Seq<char>,
    is_main: bool,
    main_prefix: Seq<char>,
    main_segment: Seq<char>,
) -> Seq<(Seq<char>, Seq<char>)> {
    let wd = path_join(torrent_root, wd_name);
    let own = seq![(path_join(torrent_root, conf), wd)];
    let en = if is_main {
        seq![]
    } else {
        seq![(path_join(main_root, conf), wd)]
    };
    let alts = match conf_shortcode(conf) {
        None => seq![],
        Some(sc) => {
            let roots = if is_main {
                seq![torrent_root]
            } else {
                seq![torrent_root, main_root]
            };
            roots.map_values(
                |root: Seq<char>|
                    lang_dirs().map_values(
                        |ld: Seq<char>|
                            (
                                path_join(
                                    root,
                                    slash(slash(slash(slash(main_prefix, main_segment), ld), sc), "dosbox.conf"@),
                                ),
                                path_join(root, wd_name),
                            ),
                    ),
            ).flatten()
        },
    };
    own + en + alts
}

fn alt_candidates(
    root: &str,
    wd_name: &str,
    main_prefix: &str,
    main_segment: &str,
    sc: &str,
    out: &mut Vec<ConfCandidate>,
)
    ensures
        final(out)@.map_values(|c: ConfCandidate| cand_view(c)) == old(out)@.map_values(
            |c: ConfCandidate| cand_view(c),
        ) + lang_dirs().map_values(
            |ld: Seq<char>|
                (
                    path_join(
                        root@,
                        slash(slash(slash(slash(main_prefix@, main_segment@), ld), sc@), "dosbox.conf"@),
                    ),
                    path_join(root@, wd_name@),
                ),
        ),
{
    let lds = lang_dirs_exec();
    let wd = join_path(root, wd_name);
    let ghost start = old(out)@.map_values(|c: ConfCandidate| cand_view(c));
    let ghost f = |ld: Seq<char>|
        alt_entry(root@, wd_name@, main_prefix@, main_segment@, sc@, ld);
    assert(forall|ld: Seq<char>| #[trigger] f(ld) == (
            path_join(
                root@,
                slash(slash(slash(slash(main_prefix@, main_segment@), ld), sc@), "dosbox.conf"@),
            ),
            path_join(root@, wd_name@),
        ));
    assert(lang_dirs().map_values(f) =~= lang_dirs().map_values(
            |ld: Seq<char>|
                (
                    path_join(
                        root@,
                        slash(slash(slash(slash(main_prefix@, main_segment@), ld), sc@), "dosbox.conf"@),
                    ),
                    path_join(root@, wd_name@),
                ),
        ));
    let mut i: usize = 0;
    while i < lds.len()
        invariant
            i <= lds@.len(),
            string_views(lds@) == lang_dirs(),
            wd@ == path_join(root@, wd_name@),
            out@.map_values(|c: ConfCandidate| cand_view(c)) == start + lang_dirs().take(
                i as int,
            ).map_values(|ld: Seq<char>| alt_entry(root@, wd_name@, main_prefix@, main_segment@, sc@, ld)),
        decreases lds.len() - i,
    {
        let rel = slash_exec(
            slash_exec(slash_exec(slash_exec(main_prefix, main_segment).as_str(), lds[i].as_str()).as_str(), sc).as_str(),
            "dosbox.conf",
        );
        let conf = join_path(root, rel.as_str());
        assert(lang_dirs()[i as int] == lds@[i as int]@);
        assert(rel@ == slash(slash(slash(slash(main_prefix@, main_segment@), lang_dirs()[i as int]), sc@), "dosbox.conf"@));
        let ghost before = out@;
        out.push(ConfCandidate { conf, working_dir: wd.clone() });
        assert(lang_dirs()[i as int] == lds@[i as int]@);
        assert(lang_dirs().take(i + 1) =~= lang_dirs().take(i as int).push(lang_dirs()[i as int]));
        let ghost g = |ld: Seq<char>| alt_entry(root@, wd_name@, main_prefix@, main_segment@, sc@, ld);
        assert(out@ == before.push(out@.last()));
        assert(cand_view(out@.last()) == g(lang_dirs()[i as int]));
        assert(out@.map_values(|c: ConfCandidate| cand_view(c)) =~= before.map_values(
            |c: ConfCandidate| cand_view(c),
        ).push(g(lang_dirs()[i as int])));
        assert(lang_dirs().take(i as int).push(lang_dirs()[i as int]).map_values(g)
            =~= lang_dirs().take(i as int).map_values(g).push(g(lang_dirs()[i as int])));
        i += 1;
    }
    assert(lang_dirs().take(5) =~= lang_dirs());
}

/// One language-specific config candidate under `root`.
pub open spec fn alt_entry(
    root: Seq<char>,
    wd_name: Seq<char>,
    main_prefix: Seq<char>,
    main_segment: Seq<char>,
    sc: Seq<char>,
    ld: Seq<char>,
) -> (Seq<char>, Seq<char>) {
    (
        path_join(root, slash(slash(slash(slash(main_prefix, main_segment), ld), sc), "dosbox.conf"@)),
        path_join(root, wd_name),
    )
}

/// The candidate configs of a DOS game, in the order they are tried (see
/// `conf_candidates`); the first one that exists is used.
pub fn launch_conf_candidates(
    torrent_root: &str,
    main_root: &str,
    wd_name: &str,
    conf: &str,
    is_main: bool,
    main_prefix: &str,
    main_segment: &str,
) -> (r: Vec<ConfCandidate>)
    ensures
        r@.map_values(|c: ConfCandidate| cand_view(c)) == conf_candidates(
            torrent_root@,
            main_root@,
            wd_name@,
            conf@,
            is_main,
            main_prefix@,
            main_segment@,
        ),
{
    let wd = join_path(torrent_root, wd_name);
    let mut out: Vec<ConfCandidate> = Vec::new();
    out.push(ConfCandidate { conf: join_path(torrent_root, conf), working_dir: wd.clone() });
    if !is_main {
        out.push(ConfCandidate { conf: join_path(main_root, conf), working_dir: wd.clone() });
    }
    let ghost head = out@.map_values(|c: ConfCandidate| cand_view(c));
    let ghost own = seq![(path_join(torrent_root@, conf@), wd@)];
    let ghost en = if is_main {
        Seq::<(Seq<char>, Seq<char>)>::empty()
    } else {
        seq![(path_join(main_root@, conf@), wd@)]
    };
    assert(head =~= own + en);
    let ghost f = |root: Seq<char>|
        lang_dirs().map_values(
            |ld: Seq<char>|
                (
                    path_join(
                        root,
                        slash(slash(slash(slash(main_prefix@, main_segment@), ld), sc_g(conf@)), "dosbox.conf"@),
                    ),
                    path_join(root, wd_name@),
                ),
        );
    match conf_shortcode_exec(conf) {
        None => {
            assert(head =~= head + Seq::<(Seq<char>, Seq<char>)>::empty());
        },
        Some(sc) => {
            alt_candidates(torrent_root, wd_name, main_prefix, main_segment, sc.as_str(), &mut out);
            if !is_main {
                alt_candidates(main_root, wd_name, main_prefix, main_segment, sc.as_str(), &mut out);
                assert(seq![torrent_root@, main_root@].map_values(f).flatten() =~= f(torrent_root@)
                    + f(main_root@)) by {
                    lemma_flatten_two(f(torrent_root@), f(main_root@));
                    assert(seq![torrent_root@, main_root@].map_values(f) =~= seq![
                        f(torrent_root@),
                        f(main_root@),
                    ]);
                }
            } else {
                assert(seq![torrent_root@].map_values(f).flatten() =~= f(torrent_root@)) by {
                    assert(seq![torrent_root@].map_values(f) =~= seq![f(torrent_root@)]);
                    lemma_flatten_one(f(torrent_root@));
                }
            }
        },
    }
    out
}

/// The shortcode of a config path, or nothing (helper for the candidate
/// closure).
pub open spec fn sc_g(conf: Seq<char>) -> Seq<char> {
    match conf_shortcode(conf) {
        Some(s) => s,
        None => seq![],
    }
}

proof fn lemma_flatten_one<A>(a: Seq<A>)
    ensures
        seq![a].flatten() == a,
{
    assert(seq![a].drop_first() =~= Seq::<Seq<A>>::empty());
    assert(seq![a].flatten() == a + seq![a].drop_first().flatten());
    assert(a + Seq::<A>::empty() =~= a);
}

proof fn lemma_flatten_two<A>(a: Seq<A>, b: Seq<A>)
    ensures
        seq![a, b].flatten() == a + b,
{
    assert(seq![a, b].drop_first() =~= seq![b]);
    lemma_flatten_one(b);
    assert(seq![a, b].flatten() == a + seq![a, b].drop_first().flatten());
}

/// Where the game's ZIP may be, relative to the torrent root: under the
/// collection's language dir first (language packs), then the prefix root.
pub open spec fn launch_zip_candidates(prefix: Seq<char>, lang: Option<Seq<char>>, game_name: Seq<char>) -> Seq<Seq<char>> {
    let leaf = game_name + ".zip"@;
    match lang {
        Some(l) => seq![slash(slash(prefix, l), leaf), slash(prefix, leaf)],
        None => seq![slash(prefix, leaf)],
    }
}

/// Where a game's ZIP may be found at launch (see `launch_zip_candidates`).
pub fn launch_zip_candidates_exec(prefix: &str, lang: Option<&str>, game_name: &str) -> (r: Vec<String>)
    ensures
        string_views(r@) == launch_zip_candidates(
            prefix@,
            match lang {
                Some(l) => Some(l@),
                None => None,
            },
            game_name@,
        ),
{
    let mut leaf = chars_of(game_name);
    push_all(&mut leaf, &chars_of(".zip"));
    let leaf = string_of(&leaf);
    let mut r: Vec<String> = Vec::new();
    if let Some(l) = lang {
        r.push(slash_exec(slash_exec(prefix, l).as_str(), leaf.as_str()));
    }
    r.push(slash_exec(prefix, leaf.as_str()));
    assert(string_views(r@) =~= launch_zip_candidates(
        prefix@,
        match lang {
            Some(l) => Some(l@),
            None => None,
        },
        game_name@,
    ));
    r
}

/// An extraction error that means the ZIP is a torrent placeholder or
/// corrupt (the game must be downloaded again).
pub open spec fn zip_error_is_corrupt(msg: Seq<char>) -> bool {
    contains(msg, "EOCD"@) || contains(msg, "invalid Zip"@) || contains(msg, "Invalid archive"@)
}

/// Does an extraction error mean the ZIP must be downloaded again (see `zip_error_is_corrupt`)?
pub fn zip_error_is_corrupt_exec(msg: &str) -> (r: bool)
    ensures
        r == zip_error_is_corrupt(msg@),
{
    let m = chars_of(msg);
    contains_str(&m, "EOCD") || contains_str(&m, "invalid Zip") || contains_str(&m, "Invalid archive")
}

/// Why a launch is refused.
#[derive(Clone, Copy, Debug, PartialEq, Eq, Structural)]
pub enum LaunchRefusal {
    /// The game is not installed: download it first.
    NotInstalled,
    /// The game has no DOSBox config path.
    NoConfig,
    /// None of the config's candidate locations exists.
    ConfigNotFound,
    /// The working directory does not exist.
    WorkingDirMissing,
    /// Neither the game's directory nor one of its ZIPs is on disk.
    FilesMissing,
    /// The ZIP is a torrent placeholder or corrupt: the game is marked not
    /// installed and must be downloaded again.
    CorruptZip,
    /// Extracting the ZIP failed otherwise.
    ExtractFailed,
}

/// How a launch that is allowed starts.
#[derive(Clone, Copy, Debug, PartialEq, Eq, Structural)]
pub enum LaunchStart {
    /// The game's directory is there: run it.
    Run,
    /// Extract the ZIP at this position among the candidates first.
    ExtractFirst(usize),
}

/// What the disk shows for a launch.
#[derive(Clone, Copy, Debug, PartialEq, Eq, Structural)]
pub struct LaunchProbe {
    /// One of the config's candidate locations exists.
    pub conf_found: bool,
    /// The working directory exists.
    pub working_dir_found: bool,
    /// The game's directory exists.
    pub game_dir_found: bool,
    /// The first of the game's candidate ZIPs that exists.
    pub zip_found: Option<usize>,
}

/// The checks of a launch, in order: installed, a config path, the config
/// on disk, the working directory; then a game with a shortcode whose
/// directory is missing is extracted from its first ZIP found, or refused
/// when there is none.
pub open spec fn launch_start_spec(
    installed: bool,
    has_conf: bool,
    has_shortcode: bool,
    probe: LaunchProbe,
) -> Result<LaunchStart, LaunchRefusal> {
    if !installed {
        Err(LaunchRefusal::NotInstalled)
    } else if !has_conf {
        Err(LaunchRefusal::NoConfig)
    } else if !probe.conf_found {
        Err(LaunchRefusal::ConfigNotFound)
    } else if !probe.working_dir_found {
        Err(LaunchRefusal::WorkingDirMissing)
    } else if !has_shortcode || probe.game_dir_found {
        Ok(LaunchStart::Run)
    } else {
        match probe.zip_found {
            Some(i) => Ok(LaunchStart::ExtractFirst(i)),
            None => Err(LaunchRefusal::FilesMissing),
        }
    }
}

/// How a launch starts, or why it is refused (see `launch_start_spec`).
pub fn launch_start(installed: bool, has_conf: bool, has_shortcode: bool, probe: LaunchProbe) -> (r:
    Result<LaunchStart, LaunchRefusal>)
    ensures
        r == launch_start_spec(installed, has_conf, has_shortcode, probe),
{
    if !installed {
        Err(LaunchRefusal::NotInstalled)
    } else if !has_conf {
        Err(LaunchRefusal::NoConfig)
    } else if !probe.conf_found {
        Err(LaunchRefusal::ConfigNotFound)
    } else if !probe.working_dir_found {
        Err(LaunchRefusal::WorkingDirMissing)
    } else if !has_shortcode || probe.game_dir_found {
        Ok(LaunchStart::Run)
    } else {
        match probe.zip_found {
            Some(i) => Ok(LaunchStart::ExtractFirst(i)),
            None => Err(LaunchRefusal::FilesMissing),
        }
    }
}

/// The refusal an extraction before launch ends in: none when it
/// succeeded (`err` is `None`), else a corrupt ZIP or another failure,
/// told apart by the error message.
pub fn extraction_refusal(err: Option<&str>) -> (r: Option<LaunchRefusal>)
    ensures
        r == match err {
            None => None,
            Some(m) => Some(
                if zip_error_is_corrupt(m@) {
                    LaunchRefusal::CorruptZip
                } else {
                    LaunchRefusal::ExtractFailed
                },
            ),
        },
{
    match err {
        None => None,
        Some(m) => if zip_error_is_corrupt_exec(m) {
            Some(LaunchRefusal::CorruptZip)
        } else {
            Some(LaunchRefusal::ExtractFailed)
        },
    }
}

/// A game tuned for DOSBox ECE (`dosbox_variant` starting with `ece`).
pub open spec fn is_ece_variant(variant: Option<Seq<char>>) -> bool {
    match variant {
        Some(v) => starts_with(v, "ece"@),
        None => false,
    }
}

/// The DOSBox ECE builds tried for an ECE game on Windows, in order: the
/// game's own variant, then `ece4230`.
pub open spec fn ece_candidates(main_root: Seq<char>, variant: Seq<char>) -> Seq<Seq<char>> {
    let base = path_join(main_root, "eXo/emulators/dosbox"@);
    seq![
        path_join(path_join(base, variant), "DOSBox.exe"@),
        path_join(path_join(base, "ece4230"@), "DOSBox.exe"@),
    ]
}

/// The DOSBox ECE builds tried for an ECE game (see `ece_candidates`).
pub fn ece_candidates_exec(main_root: &str, variant: &str) -> (r: Vec<String>)
    ensures
        string_views(r@) == ece_candidates(main_root@, variant@),
{
    let base = join_path(main_root, "eXo/emulators/dosbox");
    let a = join_path(join_path(base.as_str(), variant).as_str(), "DOSBox.exe");
    let b = join_path(join_path(base.as_str(), "ece4230").as_str(), "DOSBox.exe");
    let r = vec![a, b];
    assert(string_views(r@) =~= ece_candidates(main_root@, variant@));
    r
}

/// The global-preference fragment applied after every other config: the
/// user's fullscreen choice and, for DOSBox Staging, the CRT shader choice
/// (`crt-auto` when on, `sharp` when off).
pub open spec fn global_overrides(use_ece: bool, crt_auto: bool, fullscreen: bool) -> Seq<char> {
    let fs = if fullscreen {
        "true"@
    } else {
        "false"@
    };
    let gs = if crt_auto {
        "crt-auto"@
    } else {
        "sharp"@
    };
    if use_ece {
        "[sdl]\nfullscreen = "@ + fs + "\n"@
    } else {
        "[sdl]\nfullscreen = "@ + fs + "\n"@ + "[render]\nglshader = "@ + gs + "\n"@
    }
}

/// The global-preference fragment of a launch (see `global_overrides`).
pub fn global_overrides_fragment(use_ece: bool, crt_auto: bool, fullscreen: bool) -> (r: String)
    ensures
        r@ == global_overrides(use_ece, crt_auto, fullscreen),
{
    let mut v = chars_of("[sdl]\nfullscreen = ");
    push_all(&mut v, &chars_of(if fullscreen { "true" } else { "false" }));
    push_all(&mut v, &chars_of("\n"));
    if !use_ece {
        push_all(&mut v, &chars_of("[render]\nglshader = "));
        push_all(&mut v, &chars_of(if crt_auto { "crt-auto" } else { "sharp" }));
        push_all(&mut v, &chars_of("\n"));
    }
    string_of(&v)
}

/// The value stored under `key` in a per-game config (the first entry with
/// that key).
pub open spec fn lookup(cfg: Seq<(String, String)>, key: Seq<char>) -> Option<Seq<char>>
    decreases cfg.len(),
{
    if cfg.len() == 0 {
        None
    } else if cfg[0].0@ == key {
        Some(cfg[0].1@)
    } else {
        lookup(cfg.drop_first(), key)
    }
}

/// The value stored under `key` (see `lookup`).
pub fn lookup_exec(cfg: &Vec<(String, String)>, key: &str) -> (r: Option<String>)
    ensures
        match r {
            Some(v) => lookup(cfg@, key@) == Some(v@),
            None => lookup(cfg@, key@) is None,
        },
{
    let k = chars_of(key);
    let mut i: usize = 0;
    assert(cfg@.skip(0) =~= cfg@);
    while i < cfg.len()
        invariant
            i <= cfg@.len(),
            k@ == key@,
            lookup(cfg@, key@) == lookup(cfg@.skip(i as int), key@),
        decreases cfg.len() - i,
    {
        assert(cfg@.skip(i as int).drop_first() =~= cfg@.skip(i + 1));
        let ck = chars_of(cfg[i].0.as_str());
        if crate::text::eq_chars(&ck, &k) {
            return Some(cfg[i].1.clone());
        }
        i += 1;
    }
    None
}

/// The per-game override fragment: fullscreen, shader (unless `default`,
/// and never under DOSBox ECE, which has no such setting), cycles, then the
/// trimmed custom config text (when not blank).
pub open spec fn per_game_overrides(cfg: Seq<(String, String)>, use_ece: bool) -> Seq<char> {
    setting_piece(cfg, 0, use_ece) + setting_piece(cfg, 1, use_ece) + setting_piece(cfg, 2, use_ece)
        + setting_piece(cfg, 3, use_ece)
}

fn push_setting(v: &mut Vec<char>, header: &str, value: &str)
    ensures
        final(v)@ == old(v)@ + header@ + value@ + "\n"@,
{
    push_all(v, &chars_of(header));
    push_all(v, &chars_of(value));
    push_all(v, &chars_of("\n"));
}

/// The lines one per-game setting contributes (see `per_game_overrides`).
pub open spec fn setting_piece(cfg: Seq<(String, String)>, which: int, use_ece: bool) -> Seq<char> {
    if which == 0 {
        match lookup(cfg, "fullscreen"@) {
            Some(v) => "[sdl]\nfullscreen = "@ + v + "\n"@,
            None => seq![],
        }
    } else if which == 1 {
        match lookup(cfg, "glshader"@) {
            Some(v) => if v != "default"@ && !use_ece {
                "[render]\nglshader = "@ + v + "\n"@
            } else {
                seq![]
            },
            None => seq![],
        }
    } else if which == 2 {
        match lookup(cfg, "cycles"@) {
            Some(v) => "[cpu]\ncycles = "@ + v + "\n"@,
            None => seq![],
        }
    } else {
        match lookup(cfg, "custom_conf"@) {
            Some(v) => if trim(v).len() != 0 {
                "\n"@ + trim(v) + "\n"@
            } else {
                seq![]
            },
            None => seq![],
        }
    }
}

fn setting_piece_exec(cfg: &Vec<(String, String)>, which: u8, use_ece: bool) -> (r: Vec<char>)
    ensures
        r@ == setting_piece(cfg@, which as int, use_ece),
{
    let mut v: Vec<char> = Vec::new();
    if which == 0 {
        if let Some(fs) = lookup_exec(cfg, "fullscreen") {
            push_setting(&mut v, "[sdl]\nfullscreen = ", fs.as_str());
        }
    } else if which == 1 {
        if let Some(gs) = lookup_exec(cfg, "glshader") {
            if !crate::text::eq_str(&chars_of(gs.as_str()), "default") && !use_ece {
                push_setting(&mut v, "[render]\nglshader = ", gs.as_str());
            }
        }
    } else if which == 2 {
        if let Some(cy) = lookup_exec(cfg, "cycles") {
            push_setting(&mut v, "[cpu]\ncycles = ", cy.as_str());
        }
    } else {
        if let Some(custom) = lookup_exec(cfg, "custom_conf") {
            let t = trim_exec(&chars_of(custom.as_str()));
            if t.len() != 0 {
                push_all(&mut v, &chars_of("\n"));
                push_all(&mut v, &t);
                push_all(&mut v, &chars_of("\n"));
            }
        }
    }
    assert(v@ =~= setting_piece(cfg@, which as int, use_ece));
    v
}

/// The per-game override fragment for the engine that runs the game (see
/// `per_game_overrides`); empty when the game has no settings of its own.
pub fn per_game_fragment(cfg: &Vec<(String, String)>, use_ece: bool) -> (r: String)
    ensures
        r@ == per_game_overrides(cfg@, use_ece),
{
    let mut v = setting_piece_exec(cfg, 0, use_ece);
    push_all(&mut v, &setting_piece_exec(cfg, 1, use_ece));
    push_all(&mut v, &setting_piece_exec(cfg, 2, use_ece));
    push_all(&mut v, &setting_piece_exec(cfg, 3, use_ece));
    assert(v@ =~= setting_piece(cfg@, 0, use_ece) + setting_piece(cfg@, 1, use_ece) + setting_piece(
        cfg@,
        2,
        use_ece,
    ) + setting_piece(cfg@, 3, use_ece));
    string_of(&v)
}

/// A game's own display settings (unset: the global preference applies).
pub struct GameSettings {
    pub glshader: Option<String>,
    pub fullscreen: Option<String>,
    pub cycles: Option<String>,
    pub custom_conf: Option<String>,
}

pub open spec fn opt_string_view(o: Option<String>) -> Option<Seq<char>> {
    match o {
        Some(s) => Some(s@),
        None => None,
    }
}

/// The settings stored in a game's config.
pub fn game_settings_from(cfg: &Vec<(String, String)>) -> (r: GameSettings)
    ensures
        opt_string_view(r.glshader) == lookup(cfg@, "glshader"@),
        opt_string_view(r.fullscreen) == lookup(cfg@, "fullscreen"@),
        opt_string_view(r.cycles) == lookup(cfg@, "cycles"@),
        opt_string_view(r.custom_conf) == lookup(cfg@, "custom_conf"@),
{
    GameSettings {
        glshader: lookup_exec(cfg, "glshader"),
        fullscreen: lookup_exec(cfg, "fullscreen"),
        cycles: lookup_exec(cfg, "cycles"),
        custom_conf: lookup_exec(cfg, "custom_conf"),
    }
}

/// A change to a game's stored settings.
pub enum SettingUpdate {
    /// Store `value` under `key`.
    Store { key: String, value: String },
    /// Remove `key`, so the global preference applies again.
    Remove { key: String },
}

/// `Some((key, value))` for a store, `None`-valued pair for a removal.
pub open spec fn update_view(u: SettingUpdate) -> (Seq<char>, Option<Seq<char>>) {
    match u {
        SettingUpdate::Store { key, value } => (key@, Some(value@)),
        SettingUpdate::Remove { key } => (key@, None),
    }
}

/// What saving one setting does: a non-empty value is stored, anything else
/// removes the key.
pub open spec fn setting_update(key: Seq<char>, value: Option<Seq<char>>) -> (Seq<char>, Option<Seq<char>>) {
    match value {
        Some(v) => if v.len() != 0 {
            (key, Some(v))
        } else {
            (key, None)
        },
        None => (key, None),
    }
}

fn setting_update_exec(key: &str, value: &Option<String>) -> (r: SettingUpdate)
    ensures
        update_view(r) == setting_update(key@, opt_string_view(*value)),
{
    match value {
        Some(v) if chars_of(v.as_str()).len() != 0 => SettingUpdate::Store { key: key.to_string(), value: v.clone() },
        _ => {
            proof {
                if let Some(v) = value {
                    assert(v@.len() == 0);
                }
            }
            SettingUpdate::Remove { key: key.to_string() }
        },
    }
}

/// The changes that saving `s` makes, in the order glshader, fullscreen,
/// cycles, custom_conf.
pub fn settings_updates(s: &GameSettings) -> (r: Vec<SettingUpdate>)
    ensures
        r@.map_values(|u: SettingUpdate| update_view(u)) == seq![
            setting_update("glshader"@, opt_string_view(s.glshader)),
            setting_update("fullscreen"@, opt_string_view(s.fullscreen)),
            setting_update("cycles"@, opt_string_view(s.cycles)),
            setting_update("custom_conf"@, opt_string_view(s.custom_conf)),
        ],
{
    let r = vec![
        setting_update_exec("glshader", &s.glshader),
        setting_update_exec("fullscreen", &s.fullscreen),
        setting_update_exec("cycles", &s.cycles),
        setting_update_exec("custom_conf", &s.custom_conf),
    ];
    assert(r@.map_values(|u: SettingUpdate| update_view(u)) =~= seq![
        setting_update("glshader"@, opt_string_view(s.glshader)),
        setting_update("fullscreen"@, opt_string_view(s.fullscreen)),
        setting_update("cycles"@, opt_string_view(s.cycles)),
        setting_update("custom_conf"@, opt_string_view(s.custom_conf)),
    ]);
    r
}

/// What a key-value store holds under `k`.
pub open spec fn stored(m: Map<Seq<char>, Seq<char>>, k: Seq<char>) -> Option<Seq<char>> {
    if m.dom().contains(k) {
        Some(m[k])
    } else {
        None
    }
}

/// The store after one change: a store sets the key, a removal drops it.
pub open spec fn apply_update(m: Map<Seq<char>, Seq<char>>, u: (Seq<char>, Option<Seq<char>>)) -> Map<
    Seq<char>,
    Seq<char>,
> {
    match u.1 {
        Some(v) => m.insert(u.0, v),
        None => m.remove(u.0),
    }
}

/// The store after a sequence of changes, first to last.
pub open spec fn apply_updates(
    m: Map<Seq<char>, Seq<char>>,
    ups: Seq<(Seq<char>, Option<Seq<char>>)>,
) -> Map<Seq<char>, Seq<char>>
    decreases ups.len(),
{
    if ups.len() == 0 {
        m
    } else {
        apply_updates(apply_update(m, ups[0]), ups.drop_first())
    }
}

/// How a saved setting reads back: a non-empty value as it is, anything
/// else as unset.
pub open spec fn saved_value(o: Option<Seq<char>>) -> Option<Seq<char>> {
    match o {
        Some(v) => if v.len() != 0 {
            Some(v)
        } else {
            None
        },
        None => None,
    }
}

/// The changes that saving `s` makes (what `settings_updates` returns).
pub open spec fn save_changes(s: GameSettings) -> Seq<(Seq<char>, Option<Seq<char>>)> {
    seq![
        setting_update("glshader"@, opt_string_view(s.glshader)),
        setting_update("fullscreen"@, opt_string_view(s.fullscreen)),
        setting_update("cycles"@, opt_string_view(s.cycles)),
        setting_update("custom_conf"@, opt_string_view(s.custom_conf)),
    ]
}

/// Saving a game's settings and reading them back gives each non-empty
/// value as it was saved and every blank or absent one as unset, whatever
/// the store held before: `rows` is the game's config as the store holds it
/// after the changes of `settings_updates(s)`.
pub proof fn saved_settings_read_back(
    before: Map<Seq<char>, Seq<char>>,
    s: GameSettings,
    rows: Seq<(String, String)>,
)
    requires
        forall|k: Seq<char>| #[trigger] lookup(rows, k) == stored(
            apply_updates(before, save_changes(s)),
            k,
        ),
    ensures
        lookup(rows, "glshader"@) == saved_value(opt_string_view(s.glshader)),
        lookup(rows, "fullscreen"@) == saved_value(opt_string_view(s.fullscreen)),
        lookup(rows, "cycles"@) == saved_value(opt_string_view(s.cycles)),
        lookup(rows, "custom_conf"@) == saved_value(opt_string_view(s.custom_conf)),
{
    reveal_strlit("glshader");
    reveal_strlit("fullscreen");
    reveal_strlit("cycles");
    reveal_strlit("custom_conf");
    let c = save_changes(s);
    let m1 = apply_update(before, c[0]);
    let m2 = apply_update(m1, c[1]);
    let m3 = apply_update(m2, c[2]);
    let m4 = apply_update(m3, c[3]);
    assert(c.drop_first()[0] == c[1]);
    assert(c.drop_first().drop_first()[0] == c[2]);
    assert(c.drop_first().drop_first().drop_first()[0] == c[3]);
    assert(c.drop_first().drop_first().drop_first().drop_first().len() == 0);
    assert(apply_updates(m4, c.drop_first().drop_first().drop_first().drop_first()) == m4);
    assert(apply_updates(m3, c.drop_first().drop_first().drop_first()) == m4);
    assert(apply_updates(m2, c.drop_first().drop_first()) == m4);
    assert(apply_updates(m1, c.drop_first()) == m4);
    assert(apply_updates(before, c) == m4);
    assert("glshader"@.len() == 8 && "fullscreen"@.len() == 10 && "cycles"@.len() == 6
        && "custom_conf"@.len() == 11);
    assert(lookup(rows, "glshader"@) == stored(m4, "glshader"@));
    assert(lookup(rows, "fullscreen"@) == stored(m4, "fullscreen"@));
    assert(lookup(rows, "cycles"@) == stored(m4, "cycles"@));
    assert(lookup(rows, "custom_conf"@) == stored(m4, "custom_conf"@));
}

// ───────────────────── DOSBox Staging on the host ─────────────────────

/// The file name of the DOSBox Staging binary.
pub open spec fn dosbox_bin_name(windows: bool) -> Seq<char> {
    if windows {
        "dosbox-staging.exe"@
    } else {
        "dosbox-staging"@
    }
}

/// Where a bundled DOSBox Staging may be, in the order tried: the resource
/// dir's `dosbox-bin/` (bundled layout) and `resources/dosbox-bin/` (dev
/// layout), next to the app's executable, then the resource dir itself.
/// Each of the two directories is skipped when unknown.
pub open spec fn dosbox_candidates(res_dir: Option<Seq<char>>, exe_dir: Option<Seq<char>>, windows: bool) -> Seq<Seq<char>> {
    let bin = dosbox_bin_name(windows);
    let in_res = match res_dir {
        Some(r) => seq![
            path_join(path_join(r, "dosbox-bin"@), bin),
            path_join(path_join(r, "resources/dosbox-bin"@), bin),
        ],
        None => seq![],
    };
    let by_exe = match exe_dir {
        Some(d) => seq![path_join(d, bin)],
        None => seq![],
    };
    let res_root = match res_dir {
        Some(r) => seq![path_join(r, bin)],
        None => seq![],
    };
    in_res + by_exe + res_root
}

/// The file name of the DOSBox Staging binary.
pub fn dosbox_bin_name_exec(windows: bool) -> (r: String)
    ensures
        r@ == dosbox_bin_name(windows),
{
    if windows {
        "dosbox-staging.exe".to_string()
    } else {
        "dosbox-staging".to_string()
    }
}

/// The bundled DOSBox Staging locations (see `dosbox_candidates`); when
/// none exists the binary is looked up on the `PATH` by its name.
pub fn dosbox_candidates_exec(res_dir: Option<&str>, exe_dir: Option<&str>, windows: bool) -> (r: Vec<String>)
    ensures
        string_views(r@) == dosbox_candidates(
            crate::win9x::opt_str_view(res_dir),
            crate::win9x::opt_str_view(exe_dir),
            windows,
        ),
{
    let bin = dosbox_bin_name_exec(windows);
    let mut r: Vec<String> = Vec::new();
    if let Some(d) = res_dir {
        r.push(join_path(join_path(d, "dosbox-bin").as_str(), bin.as_str()));
        r.push(join_path(join_path(d, "resources/dosbox-bin").as_str(), bin.as_str()));
    }
    if let Some(d) = exe_dir {
        r.push(join_path(d, bin.as_str()));
    }
    if let Some(d) = res_dir {
        r.push(join_path(d, bin.as_str()));
    }
    assert(string_views(r@) =~= dosbox_candidates(
        crate::win9x::opt_str_view(res_dir),
        crate::win9x::opt_str_view(exe_dir),
        windows,
    ));
    r
}

/// The directory DOSBox Staging reads its glshaders from: on Linux under
/// `$XDG_CONFIG_HOME` (else `$HOME/.config`), on Windows under
/// `%LOCALAPPDATA%`, on macOS under `~/Library/Preferences`; None when the
/// variable it needs is unset.
pub open spec fn user_shader_dir_spec(
    host: crate::win9x::Host,
    xdg_config_home: Option<Seq<char>>,
    home: Option<Seq<char>>,
    local_app_data: Option<Seq<char>>,
) -> Option<Seq<char>> {
    match host {
        crate::win9x::Host::Linux => {
            let base = match xdg_config_home {
                Some(x) => Some(x),
                None => match home {
                    Some(h) => Some(path_join(h, ".config"@)),
                    None => None,
                },
            };
            match base {
                Some(b) => Some(path_join(path_join(b, "dosbox"@), "glshaders"@)),
                None => None,
            }
        },
        crate::win9x::Host::Windows => match local_app_data {
            Some(l) => Some(path_join(path_join(l, "DOSBox"@), "glshaders"@)),
            None => None,
        },
        crate::win9x::Host::MacOs => match home {
            Some(h) => Some(
                path_join(
                    path_join(path_join(path_join(h, "Library"@), "Preferences"@), "DOSBox"@),
                    "glshaders"@,
                ),
            ),
            None => None,
        },
    }
}

/// The DOSBox glshaders directory of the user (see `user_shader_dir_spec`).
pub fn user_shader_dir(
    host: crate::win9x::Host,
    xdg_config_home: Option<&str>,
    home: Option<&str>,
    local_app_data: Option<&str>,
) -> (r: Option<String>)
    ensures
        crate::launch::opt_string_view(r) == user_shader_dir_spec(
            host,
            crate::win9x::opt_str_view(xdg_config_home),
            crate::win9x::opt_str_view(home),
            crate::win9x::opt_str_view(local_app_data),
        ),
{
    match host {
        crate::win9x::Host::Linux => {
            let base = match xdg_config_home {
                Some(x) => Some(x.to_string()),
                None => match home {
                    Some(h) => Some(join_path(h, ".config")),
                    None => None,
                },
            };
            match base {
                Some(b) => Some(join_path(join_path(b.as_str(), "dosbox").as_str(), "glshaders")),
                None => None,
            }
        },
        crate::win9x::Host::Windows => match local_app_data {
            Some(l) => Some(join_path(join_path(l, "DOSBox").as_str(), "glshaders")),
            None => None,
        },
        crate::win9x::Host::MacOs => match home {
            Some(h) => Some(
                join_path(
                    join_path(join_path(join_path(h, "Library").as_str(), "Preferences").as_str(), "DOSBox").as_str(),
                    "glshaders",
                ),
            ),
            None => None,
        },
    }
}

// ───────────────────── the `-conf` arguments of a launch ─────────────────────

/// The config files a DOSBox Staging launch passes with `-conf`, in order
/// (a later file wins over an earlier one): the patched game config; eXo's
/// `options.conf` when it is on disk; on macOS without CRT shaders the
/// `output = texture` fragment; the global-preference fragment; and the
/// per-game fragment's file when the game's settings produce a fragment.
pub open spec fn staging_confs(
    patched: Seq<char>,
    options: Option<Seq<char>>,
    macos: bool,
    crt_auto: bool,
    texture_conf: Seq<char>,
    global_conf: Seq<char>,
    per_game_conf: Seq<char>,
    per_game_fragment: Seq<char>,
) -> Seq<Seq<char>> {
    seq![patched] + (match options {
        Some(o) => seq![o],
        None => seq![],
    }) + (if macos && !crt_auto {
        seq![texture_conf]
    } else {
        seq![]
    }) + seq![global_conf] + (if per_game_fragment.len() > 0 {
        seq![per_game_conf]
    } else {
        seq![]
    })
}

/// The `-conf` files of a DOSBox Staging launch (see `staging_confs`).
pub fn staging_conf_args(
    patched: &str,
    options: Option<&str>,
    macos: bool,
    crt_auto: bool,
    texture_conf: &str,
    global_conf: &str,
    per_game_conf: &str,
    per_game_fragment: &str,
) -> (r: Vec<String>)
    ensures
        string_views(r@) == staging_confs(
            patched@,
            crate::win9x::opt_str_view(options),
            macos,
            crt_auto,
            texture_conf@,
            global_conf@,
            per_game_conf@,
            per_game_fragment@,
        ),
{
    let mut r = vec![patched.to_string()];
    if let Some(o) = options {
        r.push(o.to_string());
    }
    if macos && !crt_auto {
        r.push(texture_conf.to_string());
    }
    r.push(global_conf.to_string());
    if chars_of(per_game_fragment).len() > 0 {
        r.push(per_game_conf.to_string());
    }
    assert(string_views(r@) =~= staging_confs(
        patched@,
        crate::win9x::opt_str_view(options),
        macos,
        crt_auto,
        texture_conf@,
        global_conf@,
        per_game_conf@,
        per_game_fragment@,
    ));
    r
}

/// The config files a DOSBox-X launch passes with `-conf`, in order: the
/// x98 base config (when on disk, and unless eXo's own build runs, which
/// loads it by itself), the patched `play.conf`, eXo's `options9x.conf`
/// when on disk, then the user-preference fragment.
pub open spec fn dosbox_x_confs(
    exo_build: bool,
    base: Option<Seq<char>>,
    play: Seq<char>,
    options: Option<Seq<char>>,
    overrides: Seq<char>,
) -> Seq<Seq<char>> {
    (match base {
        Some(b) => if exo_build {
            seq![]
        } else {
            seq![b]
        },
        None => seq![],
    }) + seq![play] + (match options {
        Some(o) => seq![o],
        None => seq![],
    }) + seq![overrides]
}

/// The `-conf` files of a DOSBox-X launch (see `dosbox_x_confs`).
pub fn dosbox_x_conf_args(
    exo_build: bool,
    base: Option<&str>,
    play: &str,
    options: Option<&str>,
    overrides: &str,
) -> (r: Vec<String>)
    ensures
        string_views(r@) == dosbox_x_confs(
            exo_build,
            crate::win9x::opt_str_view(base),
            play@,
            crate::win9x::opt_str_view(options),
            overrides@,
        ),
{
    let mut r: Vec<String> = Vec::new();
    if let Some(b) = base {
        if !exo_build {
            r.push(b.to_string());
        }
    }
    r.push(play.to_string());
    if let Some(o) = options {
        r.push(o.to_string());
    }
    r.push(overrides.to_string());
    assert(string_views(r@) =~= dosbox_x_confs(
        exo_build,
        crate::win9x::opt_str_view(base),
        play@,
        crate::win9x::opt_str_view(options),
        overrides@,
    ));
    r
}

/// Every preference file comes after the game's own config: in a Staging
/// launch the global fragment follows the patched config (and
/// `options.conf`), and the per-game file, when passed, comes last, so a
/// game's own settings win over the global ones.
pub proof fn preferences_come_last(
    patched: Seq<char>,
    options: Option<Seq<char>>,
    macos: bool,
    crt_auto: bool,
    texture_conf: Seq<char>,
    global_conf: Seq<char>,
    per_game_conf: Seq<char>,
    per_game_fragment: Seq<char>,
)
    ensures
        ({
            let c = staging_confs(
                patched,
                options,
                macos,
                crt_auto,
                texture_conf,
                global_conf,
                per_game_conf,
                per_game_fragment,
            );
            &&& c[0] == patched
            &&& if per_game_fragment.len() > 0 {
                c.last() == per_game_conf && c[c.len() - 2] == global_conf
            } else {
                c.last() == global_conf
            }
        }),
{
}

} // verus!
