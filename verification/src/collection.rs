//! Collections, games and the layout of their files on disk.
use vstd::prelude::*;
use crate::autoexec::{path_join, path_join_exec};
use crate::text::{chars_of, ends_with, push_all, starts_with, string_of};

verus! {

/// How a collection's torrent lays out its files.
pub struct CollectionDef {
    /// Folder the torrent creates under the data dir (`eXoDOS`).
    pub inner_folder: String,
    /// Path from the inner folder to the game dirs (`eXo/eXoDOS`).
    pub game_prefix: String,
    /// Language subdirectory of a language-pack collection (`!german`).
    pub lang_dir: Option<String>,
    /// Path segment of the per-game config dirs (`!dos`).
    pub shortcode_segment: String,
    /// Games are grouped in per-year subdirectories.
    pub year_subdirs: bool,
}

/// A catalogue entry.
pub struct Game {
    pub id: i64,
    pub title: String,
    pub language: String,
    pub shortcode: Option<String>,
    pub installed: bool,
    pub in_library: bool,
    pub torrent_source: Option<String>,
    pub game_torrent_index: Option<i64>,
    pub gamedata_torrent_index: Option<i64>,
    pub application_path: Option<String>,
    pub dosbox_conf: Option<String>,
    pub dosbox_variant: Option<String>,
    pub download_size: Option<i64>,
}

/// One page of the catalogue and the number of games matching the filter.
pub struct GameList {
    pub games: Vec<Game>,
    pub total: usize,
}

/// The page of the catalogue asked for: page 1 and 50 games per page by
/// default, at most 10 000 games per page.
pub fn game_page(page: Option<usize>, per_page: Option<usize>) -> (r: (usize, usize))
    ensures
        r.0 == match page {
            Some(p) => p,
            None => 1,
        },
        r.1 == match per_page {
            Some(n) => if n < 10000 {
                n
            } else {
                10000
            },
            None => 50,
        },
{
    let p = match page {
        Some(p) => p,
        None => 1,
    };
    let n = match per_page {
        Some(n) => if n < 10000 {
            n
        } else {
            10000
        },
        None => 50,
    };
    (p, n)
}

/// The inner folder of a collection (`eXoDOS` when it is unknown).
pub open spec fn inner_folder_of(def: Option<CollectionDef>) -> Seq<char> {
    match def {
        Some(d) => d.inner_folder@,
        None => "eXoDOS"@,
    }
}

/// The game prefix of a collection (`eXo/eXoDOS` when it is unknown).
pub open spec fn game_prefix_of(def: Option<CollectionDef>) -> Seq<char> {
    match def {
        Some(d) => d.game_prefix@,
        None => "eXo/eXoDOS"@,
    }
}

/// The language dir of a collection, if it is a language pack.
pub open spec fn lang_dir_of(def: Option<CollectionDef>) -> Option<Seq<char>> {
    match def {
        Some(d) => match d.lang_dir {
            Some(l) => Some(l@),
            None => None,
        },
        None => None,
    }
}

pub open spec fn opt_def(def: Option<&CollectionDef>) -> Option<CollectionDef> {
    match def {
        Some(d) => Some(*d),
        None => None,
    }
}

/// The folder the collection's torrent creates, given its definition as
/// looked up by source id (None for an unknown source).
pub fn collection_inner_folder(def: Option<&CollectionDef>) -> (r: String)
    ensures
        r@ == inner_folder_of(opt_def(def)),
{
    match def {
        Some(d) => d.inner_folder.clone(),
        None => "eXoDOS".to_string(),
    }
}

/// The path from the collection's inner folder to its game dirs.
pub fn collection_game_prefix(def: Option<&CollectionDef>) -> (r: String)
    ensures
        r@ == game_prefix_of(opt_def(def)),
{
    match def {
        Some(d) => d.game_prefix.clone(),
        None => "eXo/eXoDOS".to_string(),
    }
}

/// The language subdirectory of a language-pack collection.
pub fn collection_lang_dir(def: Option<&CollectionDef>) -> (r: Option<String>)
    ensures
        match r {
            Some(s) => lang_dir_of(opt_def(def)) == Some(s@),
            None => lang_dir_of(opt_def(def)) is None,
        },
{
    match def {
        Some(d) => match &d.lang_dir {
            Some(l) => Some(l.clone()),
            None => None,
        },
        None => None,
    }
}

/// Language subdirectories of the eXoDOS file structure, in search order.
pub open spec fn lang_dirs() -> Seq<Seq<char>> {
    seq!["!german"@, "!polish"@, "!czech"@, "!slovak"@, "!spanish"@]
}

/// The language dirs of the language-pack collections (see `lang_dirs`).
pub fn lang_dirs_exec() -> (r: Vec<String>)
    ensures
        crate::autoexec::string_views(r@) == lang_dirs(),
{
    let r = vec![
        "!german".to_string(),
        "!polish".to_string(),
        "!czech".to_string(),
        "!slovak".to_string(),
        "!spanish".to_string(),
    ];
    assert(crate::autoexec::string_views(r@) =~= lang_dirs());
    r
}

/// `a` + "/" + `b` (the `format!("{}/{}", a, b)` of relative paths).
pub open spec fn slash(a: Seq<char>, b: Seq<char>) -> Seq<char> {
    a + "/"@ + b
}

/// `a` + "/" + `b`.
pub fn slash_exec(a: &str, b: &str) -> (r: String)
    ensures
        r@ == slash(a@, b@),
{
    let mut v = chars_of(a);
    push_all(&mut v, &chars_of("/"));
    push_all(&mut v, &chars_of(b));
    string_of(&v)
}

/// `Path::new(base).join(rel)` as text.
pub fn join_path(base: &str, rel: &str) -> (r: String)
    ensures
        r@ == path_join(base@, rel@),
{
    let v = path_join_exec(&chars_of(base), &chars_of(rel));
    string_of(&v)
}

/// Directory of a game relative to its collection's torrent root:
/// `<prefix>/<lang>/<shortcode>` for a language pack, `<prefix>/<shortcode>`
/// otherwise.
pub open spec fn game_dir_rel(prefix: Seq<char>, lang: Option<Seq<char>>, shortcode: Seq<char>) -> Seq<
    char,
> {
    match lang {
        Some(l) => slash(slash(prefix, l), shortcode),
        None => slash(prefix, shortcode),
    }
}

/// A game's directory relative to its torrent root (see `game_dir_rel`).
pub fn game_dir_rel_exec(prefix: &str, lang: Option<&str>, shortcode: &str) -> (r: String)
    ensures
        r@ == game_dir_rel(
            prefix@,
            match lang {
                Some(l) => Some(l@),
                None => None,
            },
            shortcode@,
        ),
{
    match lang {
        Some(l) => slash_exec(slash_exec(prefix, l).as_str(), shortcode),
        None => slash_exec(prefix, shortcode),
    }
}

/// Where an uninstalled game's directory might be, relative to the torrent
/// root: the EN location, then under each language dir.
pub open spec fn game_dir_candidates(prefix: Seq<char>, shortcode: Seq<char>) -> Seq<Seq<char>> {
    seq![slash(prefix, shortcode)] + lang_dirs().map_values(
        |ld: Seq<char>| slash(slash(prefix, ld), shortcode),
    )
}

/// The game ZIPs an uninstall removes, relative to the torrent root: the EN
/// ZIP, then the one under each language dir.
pub open spec fn zip_candidates(prefix: Seq<char>, game_name: Seq<char>) -> Seq<Seq<char>> {
    seq![slash(prefix, game_name + ".zip"@)] + lang_dirs().map_values(
        |ld: Seq<char>| slash(slash(prefix, ld), game_name + ".zip"@),
    )
}

fn under_lang_dirs(prefix: &str, leaf: &str, first: String) -> (r: Vec<String>)
    requires
        first@ == slash(prefix@, leaf@),
    ensures
        crate::autoexec::string_views(r@) == seq![slash(prefix@, leaf@)] + lang_dirs().map_values(
            |ld: Seq<char>| slash(slash(prefix@, ld), leaf@),
        ),
{
    let lds = lang_dirs_exec();
    let mut r: Vec<String> = vec![first];
    let mut i: usize = 0;
    while i < lds.len()
        invariant
            i <= lds@.len(),
            crate::autoexec::string_views(lds@) == lang_dirs(),
            crate::autoexec::string_views(r@) == seq![slash(prefix@, leaf@)] + lang_dirs().take(
                i as int,
            ).map_values(|ld: Seq<char>| slash(slash(prefix@, ld), leaf@)),
        decreases lds.len() - i,
    {
        let p = slash_exec(slash_exec(prefix, lds[i].as_str()).as_str(), leaf);
        let ghost before = r@;
        r.push(p);
        assert(lang_dirs()[i as int] == lds@[i as int]@);
        assert(lang_dirs().take(i + 1) =~= lang_dirs().take(i as int).push(lang_dirs()[i as int]));
        assert(crate::autoexec::string_views(r@) =~= crate::autoexec::string_views(before).push(p@));
        assert(lang_dirs().take(i as int).push(lang_dirs()[i as int]).map_values(
            |ld: Seq<char>| slash(slash(prefix@, ld), leaf@),
        ) =~= lang_dirs().take(i as int).map_values(
            |ld: Seq<char>| slash(slash(prefix@, ld), leaf@),
        ).push(slash(slash(prefix@, lang_dirs()[i as int]), leaf@)));
        assert(crate::autoexec::string_views(r@) =~= seq![slash(prefix@, leaf@)] + lang_dirs().take(
            i + 1,
        ).map_values(|ld: Seq<char>| slash(slash(prefix@, ld), leaf@)));
        i += 1;
    }
    assert(lang_dirs().take(5) =~= lang_dirs());
    r
}

/// Candidate directories of an installed game (see `game_dir_candidates`).
pub fn game_dir_candidates_exec(prefix: &str, shortcode: &str) -> (r: Vec<String>)
    ensures
        crate::autoexec::string_views(r@) == game_dir_candidates(prefix@, shortcode@),
{
    let first = slash_exec(prefix, shortcode);
    under_lang_dirs(prefix, shortcode, first)
}

/// Candidate ZIPs of a game (see `zip_candidates`).
pub fn zip_candidates_exec(prefix: &str, game_name: &str) -> (r: Vec<String>)
    ensures
        crate::autoexec::string_views(r@) == zip_candidates(prefix@, game_name@),
{
    let mut leaf = chars_of(game_name);
    push_all(&mut leaf, &chars_of(".zip"));
    let leaf = string_of(&leaf);
    let first = slash_exec(prefix, leaf.as_str());
    under_lang_dirs(prefix, leaf.as_str(), first)
}

/// Where an uninstall backs up a game's directory, relative to the torrent
/// root: `<prefix>/!save/<shortcode>`.
pub fn save_dir_rel(prefix: &str, shortcode: &str) -> (r: String)
    ensures
        r@ == slash(slash(prefix@, "!save"@), shortcode@),
{
    slash_exec(slash_exec(prefix, "!save").as_str(), shortcode)
}

/// Why an uninstall is refused.
#[derive(Clone, Copy, Debug, PartialEq, Eq, Structural)]
pub enum UninstallRefusal {
    /// The game is neither installed nor in the library.
    NotInstalled,
    /// The game has no shortcode, so its directory cannot be named.
    NoShortcode,
}

/// The paths an uninstall works on, relative to the torrent root.
pub struct UninstallPlan {
    /// Where the game's directory may be, in order; the first that exists
    /// is moved to `save_dir`.
    pub game_dirs: Vec<String>,
    /// Where the game's directory is backed up, so that its saves survive.
    pub save_dir: String,
    /// The ZIPs removed (those that exist).
    pub zips: Vec<String>,
}

/// What an uninstall of a game does, before it touches the disk: refused
/// for a game neither installed nor in the library, then for one without
/// a shortcode; otherwise the candidate directories of the game, its
/// backup directory and its candidate ZIPs, under the collection prefix
/// `prefix`, for the game named `game_name`.
pub fn uninstall_plan(
    installed: bool,
    in_library: bool,
    shortcode: Option<&str>,
    prefix: &str,
    game_name: &str,
) -> (r: Result<UninstallPlan, UninstallRefusal>)
    ensures
        match r {
            Err(e) => if !installed && !in_library {
                e == UninstallRefusal::NotInstalled
            } else {
                shortcode is None && e == UninstallRefusal::NoShortcode
            },
            Ok(p) => {
                &&& installed || in_library
                &&& shortcode matches Some(sc) && {
                    &&& crate::autoexec::string_views(p.game_dirs@) == game_dir_candidates(
                        prefix@,
                        sc@,
                    )
                    &&& p.save_dir@ == slash(slash(prefix@, "!save"@), sc@)
                }
                &&& crate::autoexec::string_views(p.zips@) == zip_candidates(prefix@, game_name@)
            },
        },
{
    if !installed && !in_library {
        return Err(UninstallRefusal::NotInstalled);
    }
    let sc = match shortcode {
        Some(sc) => sc,
        None => return Err(UninstallRefusal::NoShortcode),
    };
    Ok(
        UninstallPlan {
            game_dirs: game_dir_candidates_exec(prefix, sc),
            save_dir: save_dir_rel(prefix, sc),
            zips: zip_candidates_exec(prefix, game_name),
        },
    )
}

/// Where saves are restored from after a game ZIP is extracted into
/// `dest` (whose parent directory is `dest_parent`, when it has one): the
/// game's directory `dest/<sc>`, where `sc` is the top-level directory of
/// the ZIP's first entry, and the backups tried in order,
/// `dest/!save/<sc>`, then `<dest_parent>/!save/<sc>`.
pub open spec fn restore_plan(dest: Seq<char>, dest_parent: Option<Seq<char>>, first_entry: Seq<char>) -> (Seq<char>, Seq<Seq<char>>) {
    let sc = crate::text::split_first(first_entry, "/"@);
    let rel = slash("!save"@, sc);
    (path_join(dest, sc), seq![path_join(dest, rel)] + match dest_parent {
        Some(p) => seq![path_join(p, rel)],
        None => seq![],
    })
}

/// The restore plan of an extracted game ZIP (see `restore_plan`).
pub fn save_restore_plan(dest: &str, dest_parent: Option<&str>, first_entry: &str) -> (r: (String, Vec<String>))
    ensures
        (r.0@, crate::autoexec::string_views(r.1@)) == restore_plan(
            dest@,
            crate::win9x::opt_str_view(dest_parent),
            first_entry@,
        ),
{
    proof {
        reveal_strlit("/");
    }
    let sc = string_of(&crate::text::split_first_exec(&chars_of(first_entry), &chars_of("/")));
    let rel = slash_exec("!save", sc.as_str());
    let mut v = vec![join_path(dest, rel.as_str())];
    if let Some(p) = dest_parent {
        v.push(join_path(p, rel.as_str()));
    }
    let r = (join_path(dest, sc.as_str()), v);
    assert(crate::autoexec::string_views(r.1@) =~= restore_plan(
        dest@,
        crate::win9x::opt_str_view(dest_parent),
        first_entry@,
    ).1);
    r
}

/// A relative path in `/` form with no leading or trailing separator.
pub open spec fn plain_rel(p: Seq<char>) -> bool {
    p.len() > 0 && !starts_with(p, "/"@) && !ends_with(p, "/"@)
}

/// Joining `a` and then `b` onto a root is joining `a/b`.
proof fn lemma_join_twice(root: Seq<char>, a: Seq<char>, b: Seq<char>)
    requires
        root.len() > 0,
        !ends_with(root, "/"@),
        plain_rel(a),
        !starts_with(b, "/"@),
    ensures
        path_join(path_join(root, a), b) == path_join(root, slash(a, b)),
{
    reveal_strlit("/");
    let ra = root + "/"@ + a;
    assert(path_join(root, a) == ra);
    assert(!starts_with(slash(a, b), "/"@)) by {
        if starts_with(slash(a, b), "/"@) {
            assert(slash(a, b)[0] == a[0]);
            assert(a.take(1) =~= "/"@);
        }
    }
    assert(!ends_with(ra, "/"@)) by {
        assert(ra.skip(ra.len() - 1) =~= a.skip(a.len() - 1));
    }
    assert(ra + "/"@ + b =~= root + "/"@ + slash(a, b));
}

/// Saves survive an uninstall: the directory an uninstall backs a game up
/// to (`<prefix>/!save/<sc>` under the torrent root) is where extracting its
/// ZIP again restores them from. An EN ZIP extracts at the collection
/// prefix, where it is the first place looked at; a language-pack ZIP
/// extracts into the language dir, where it is the second.
pub proof fn uninstall_backup_is_restored(
    root: Seq<char>,
    prefix: Seq<char>,
    lang: Seq<char>,
    sc: Seq<char>,
    first_entry: Seq<char>,
)
    requires
        root.len() > 0,
        !ends_with(root, "/"@),
        plain_rel(prefix),
        plain_rel(lang),
        crate::text::split_first(first_entry, "/"@) == sc,
    ensures
        restore_plan(path_join(root, prefix), Some(root), first_entry).1[0] == path_join(
            root,
            slash(slash(prefix, "!save"@), sc),
        ),
        restore_plan(
            path_join(root, slash(prefix, lang)),
            Some(path_join(root, prefix)),
            first_entry,
        ).1[1] == path_join(root, slash(slash(prefix, "!save"@), sc)),
{
    reveal_strlit("!save");
    reveal_strlit("/");
    let rel = slash("!save"@, sc);
    assert(!starts_with(rel, "/"@)) by {
        assert(rel[0] == '!');
        if starts_with(rel, "/"@) {
            assert(rel.take(1)[0] == rel[0]);
            assert("/"@[0] == '/');
        }
    }
    lemma_join_twice(root, prefix, rel);
    assert(slash(prefix, rel) =~= slash(slash(prefix, "!save"@), sc));
    assert(plain_rel(slash(prefix, lang))) by {
        let pl = slash(prefix, lang);
        assert(pl[0] == prefix[0]);
        if starts_with(pl, "/"@) {
            assert(pl.take(1)[0] == '/');
            assert(prefix.take(1) =~= "/"@);
        }
        assert(pl.skip(pl.len() - 1) =~= lang.skip(lang.len() - 1));
    }
}

} // verus!
