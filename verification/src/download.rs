//! Download bookkeeping: which torrent files are selected, when a stuck
//! download is retried, and the decisions taken around queueing, cancelling
//! and uninstalling a game.
use std::collections::{HashMap, HashSet};
use vstd::prelude::*;
use vstd::std_specs::iter::IteratorSpec;
use crate::text::{chars_of, contains, ends_with, ends_with_str, replace_all, replace_str, starts_with, starts_with_str, string_of, push_all};

verus! {

// ───────────────────── selected torrent files ─────────────────────

/// The set of torrent file indices queued for download.
pub struct FileSelection {
    files: HashSet<usize>,
}

impl View for FileSelection {
    type V = Set<usize>;

    /// The selected indices.
    closed spec fn view(&self) -> Set<usize> {
        self.files@
    }
}

impl FileSelection {

    /// An empty selection.
    pub fn new() -> (r: FileSelection)
        ensures
            r@ == Set::<usize>::empty(),
    {
        FileSelection { files: HashSet::new() }
    }

    /// Is `index` selected?
    pub fn is_file_selected(&self, index: usize) -> (r: bool)
        ensures
            r == self@.contains(index),
    {
        broadcast use vstd::std_specs::hash::group_hash_axioms;
        self.files.contains(&index)
    }

    /// Add `indices` to the selection.
    pub fn select(&mut self, indices: &[usize])
        ensures
            final(self)@ == old(self)@ + indices@.to_set(),
    {
        broadcast use vstd::std_specs::hash::group_hash_axioms;
        let ghost start = self.files@;
        let mut i: usize = 0;
        while i < indices.len()
            invariant
                i <= indices@.len(),
                self.files@ == start + indices@.take(i as int).to_set(),
            decreases indices.len() - i,
        {
            let x = indices[i];
            self.files.insert(x);
            proof {
                let t = indices@.take(i as int);
                assert(indices@.take(i + 1) =~= t.push(x));
                t.lemma_push_to_set_commute(x);
            }
            i += 1;
            assert(self.files@ =~= start + indices@.take(i as int).to_set());
        }
        assert(indices@.take(indices@.len() as int) =~= indices@);
    }

    /// Remove `index` from the selection.
    pub fn deselect(&mut self, index: usize)
        ensures
            final(self)@ == old(self)@.remove(index),
    {
        broadcast use vstd::std_specs::hash::group_hash_axioms;
        self.files.remove(&index);
    }

    /// The selected indices, each once.
    pub fn selected(&self) -> (r: Vec<usize>)
        ensures
            r@.to_set() == self@,
            r@.no_duplicates(),
    {
        broadcast use vstd::std_specs::hash::group_hash_axioms;
        let ghost keys = vstd::std_specs::hash::spec_hash_keys_iter(&self.files).remaining();
        proof {
            vstd::std_specs::hash::axiom_spec_hash_keys_iter(&self.files);
        }
        let mut r: Vec<usize> = Vec::new();
        for x in it: self.files.iter()
            invariant
                it.seq() == keys,
                r@ == keys.take(it.index() as int).unref(),
        {
            r.push(*x);
            assert(r@ =~= keys.take(it.index() + 1).unref());
        }
        assert(r@ =~= keys.unref());
        r
    }
}

// ───────────────────── stuck-download retries ─────────────────────

/// Per-game retry bookkeeping for downloads that report 100% while their
/// ZIP never appears on disk: each stuck game's id maps to the clock
/// reading (milliseconds) of its last retry and the number of retries.
pub struct RetryState {
    entries: HashMap<i64, (u64, u32)>,
}

/// Milliseconds from `t` to `now`, zero when `t` is later
/// (`Instant::duration_since`, which saturates).
pub open spec fn age(now: u64, t: u64) -> int {
    if now >= t {
        now - t
    } else {
        0
    }
}

/// Entries idle this long (two minutes) are forgotten.
pub open spec fn retry_forget_ms() -> int {
    120_000
}

/// A retry is attempted at most this often (five seconds).
pub open spec fn retry_interval_ms() -> int {
    5_000
}

/// The entry a first poll starts from: last retry a minute ago (or now,
/// when the clock has not run that long), no attempts.
pub open spec fn fresh_entry(now: u64) -> (u64, u32) {
    (if now >= 60_000 {
        (now - 60_000) as u64
    } else {
        now
    }, 0)
}

/// The entry of `id` after a poll at `now`, and whether the poll ticked.
pub open spec fn polled(prev: Option<(u64, u32)>, now: u64) -> ((u64, u32), bool) {
    let e = match prev {
        Some(p) => if age(now, p.0) < retry_forget_ms() {
            p
        } else {
            fresh_entry(now)
        },
        None => fresh_entry(now),
    };
    if age(now, e.0) >= retry_interval_ms() {
        ((now, if e.1 == u32::MAX {
            e.1
        } else {
            (e.1 + 1) as u32
        }), true)
    } else {
        (e, false)
    }
}

/// `e` as it stands after the entries idle for two minutes are forgotten.
pub open spec fn unless_idle(e: Option<(u64, u32)>, now: u64) -> Option<(u64, u32)> {
    match e {
        Some(p) => if age(now, p.0) < retry_forget_ms() {
            Some(p)
        } else {
            None
        },
        None => None,
    }
}

impl RetryState {
    /// The recorded entry of `id`.
    pub closed spec fn entry(&self, id: i64) -> Option<(u64, u32)> {
        if self.entries@.contains_key(id) {
            Some(self.entries@[id])
        } else {
            None
        }
    }

    /// No retries recorded.
    pub fn new() -> (r: RetryState)
        ensures
            forall|id: i64| r.entry(id) is None,
    {
        RetryState { entries: HashMap::new() }
    }

    /// Forget the entry of `id` (its ZIP appeared).
    pub fn clear(&mut self, id: i64)
        ensures
            final(self).entry(id) is None,
            forall|other: i64| other != id ==> final(self).entry(other) == old(self).entry(other),
    {
        broadcast use vstd::std_specs::hash::group_hash_axioms;
        self.entries.remove(&id);
    }

    /// Forget the entries idle for two minutes.
    fn forget_idle(&mut self, now: u64)
        ensures
            forall|y: i64| #[trigger] final(self).entry(y) == unless_idle(old(self).entry(y), now),
    {
        broadcast use vstd::std_specs::hash::group_hash_axioms;
        let ghost start = self.entries@;
        let ghost keys = vstd::std_specs::hash::spec_keys_iter(&self.entries).remaining();
        proof {
            vstd::std_specs::hash::axiom_spec_keys_iter(&self.entries);
        }
        let mut ids: Vec<i64> = Vec::new();
        for k in it: self.entries.keys()
            invariant
                it.seq() == keys,
                ids@ == keys.take(it.index() as int).unref(),
        {
            ids.push(*k);
            assert(ids@ =~= keys.take(it.index() + 1).unref());
        }
        assert(ids@ =~= keys.unref());
        assert(ids@.to_set() == start.dom());
        assert(ids@.no_duplicates()) by {
            assert forall|i: int, j: int| 0 <= i < j < ids@.len() implies ids@[i] != ids@[j] by {
                assert(keys[i] != keys[j]);
            }
        }
        let mut i: usize = 0;
        while i < ids.len()
            invariant
                i <= ids@.len(),
                ids@.no_duplicates(),
                ids@.to_set() == start.dom(),
                forall|y: i64| #[trigger] self.entries@.contains_key(y) ==> start.contains_key(y),
                forall|y: i64|
                    #[trigger] self.entry(y) == if ids@.take(i as int).contains(y) {
                        unless_idle(
                            if start.contains_key(y) {
                                Some(start[y])
                            } else {
                                None
                            },
                            now,
                        )
                    } else if start.contains_key(y) {
                        Some(start[y])
                    } else {
                        None
                    },
            decreases ids.len() - i,
        {
            let k = ids[i];
            proof {
                assert(!ids@.take(i as int).contains(k)) by {
                    if ids@.take(i as int).contains(k) {
                        let m = choose|m: int| 0 <= m < i && ids@.take(i as int)[m] == k;
                        assert(ids@[m] == ids@[i as int]);
                    }
                }
                assert(ids@.to_set().contains(k));
                assert(ids@.take(i + 1) =~= ids@.take(i as int).push(k));
            }
            let ghost mid = self.entries@;
            let ghost pre = *self;
            assert(self.entry(k) == Some(start[k]));
            let stale = match self.entries.get(&k) {
                Some(v) => !((if now >= v.0 { now - v.0 } else { 0 }) < 120_000),
                None => false,
            };
            assert(stale == (age(now, start[k].0) >= retry_forget_ms()));
            if stale {
                self.entries.remove(&k);
                assert(self.entries@ == mid.remove(k));
            }
            proof {
                assert forall|y: i64| #[trigger] self.entry(y) == if ids@.take(i + 1).contains(y) {
                    unless_idle(
                        if start.contains_key(y) {
                            Some(start[y])
                        } else {
                            None
                        },
                        now,
                    )
                } else if start.contains_key(y) {
                    Some(start[y])
                } else {
                    None
                } by {
                    if y != k {
                        assert(pre.entry(y) == if ids@.take(i as int).contains(y) {
                            unless_idle(
                                if start.contains_key(y) {
                                    Some(start[y])
                                } else {
                                    None
                                },
                                now,
                            )
                        } else if start.contains_key(y) {
                            Some(start[y])
                        } else {
                            None
                        });
                        assert(self.entry(y) == pre.entry(y));
                        assert(ids@.take(i + 1).contains(y) == ids@.take(i as int).contains(y)) by {
                            if ids@.take(i + 1).contains(y) {
                                let m = choose|m: int| 0 <= m < i + 1 && #[trigger] ids@.take(i + 1)[m] == y;
                                assert(ids@.take(i as int)[m] == y);
                            }
                            if ids@.take(i as int).contains(y) {
                                let m = choose|m: int| 0 <= m < i && #[trigger] ids@.take(i as int)[m] == y;
                                assert(ids@.take(i + 1)[m] == y);
                            }
                        }
                    } else {
                        assert(ids@.take(i + 1).contains(k)) by {
                            assert(ids@.take(i + 1)[i as int] == k);
                        }
                    }
                }
            }
            i += 1;
        }
        assert(ids@.take(ids@.len() as int) =~= ids@);
        assert forall|y: i64| #[trigger] self.entry(y) == unless_idle(old(self).entry(y), now) by {
            if start.contains_key(y) {
                assert(ids@.to_set().contains(y));
            }
        }
    }

    /// A poll of a download that is stuck: forgets entries idle for two
    /// minutes, then ticks `id`'s retry counter when its last retry was at
    /// least five seconds ago. Returns the attempts so far and whether this
    /// poll ticked.
    pub fn poll(&mut self, id: i64, now: u64) -> (r: (u32, bool))
        ensures
            final(self).entry(id) == Some(polled(old(self).entry(id), now).0),
            r == ((polled(old(self).entry(id), now).0).1, polled(old(self).entry(id), now).1),
            forall|other: i64|
                other != id ==> final(self).entry(other) == unless_idle(old(self).entry(other), now),
    {
        broadcast use vstd::std_specs::hash::group_hash_axioms;
        let ghost start = *self;
        self.forget_idle(now);
        let ghost pruned = *self;
        assert(pruned.entry(id) == unless_idle(start.entry(id), now));
        let prev: Option<(u64, u32)> = match self.entries.get(&id) {
            Some(v) => Some(*v),
            None => None,
        };
        assert(prev == pruned.entry(id));
        let base: (u64, u32) = match prev {
            Some(p) => p,
            None => (if now >= 60_000 { now - 60_000 } else { now }, 0),
        };
        let a = if now >= base.0 { now - base.0 } else { 0 };
        let (next, ticked) = if a >= 5_000 {
            ((now, base.1.saturating_add(1)), true)
        } else {
            (base, false)
        };
        self.entries.insert(id, next);
        assert forall|other: i64| other != id implies self.entry(other) == unless_idle(
            start.entry(other),
            now,
        ) by {
            assert(pruned.entry(other) == unless_idle(start.entry(other), now));
        }
        (next.1, ticked)
    }
}

/// At most this many retries before a stuck download is reported.
pub open spec fn max_stuck_retries() -> u32 {
    60
}

/// What a poll of a stuck download does.
pub enum StuckAction {
    /// Toggle the file's selection to make the torrent assemble it again.
    Retry,
    /// Stop retrying (logged once).
    GiveUp,
    /// Nothing this poll.
    Wait,
}

/// The action for a poll that saw `attempts` retries and did (not) tick.
pub open spec fn stuck_action_spec(attempts: u32, ticked: bool) -> StuckAction {
    if !ticked {
        StuckAction::Wait
    } else if attempts <= max_stuck_retries() {
        StuckAction::Retry
    } else if attempts == max_stuck_retries() + 1 {
        StuckAction::GiveUp
    } else {
        StuckAction::Wait
    }
}

/// What a poll of a stuck download does (see `stuck_action_spec`).
pub fn stuck_action(attempts: u32, ticked: bool) -> (r: StuckAction)
    ensures
        r == stuck_action_spec(attempts, ticked),
{
    if !ticked {
        StuckAction::Wait
    } else if attempts <= 60 {
        StuckAction::Retry
    } else if attempts == 61 {
        StuckAction::GiveUp
    } else {
        StuckAction::Wait
    }
}

/// The progress reports an error (the user must cancel and re-download)
/// once the retries are exhausted.
pub fn stuck_error(attempts: u32) -> (r: bool)
    ensures
        r == (attempts > max_stuck_retries()),
{
    attempts > 60
}

// ───────────────────── completion and queueing ─────────────────────

/// A file counts as downloaded once all of its bytes are.
pub open spec fn file_finished_spec(downloaded: u64, total: u64) -> bool {
    total > 0 && downloaded >= total
}

/// Is the file downloaded (see `file_finished_spec`)?
pub fn file_finished(downloaded: u64, total: u64) -> (r: bool)
    ensures
        r == file_finished_spec(downloaded, total),
{
    total > 0 && downloaded >= total
}

/// Disk-based completion: a file the torrent reports at 99% or more whose
/// output file on disk already has all its bytes is treated as finished.
pub open spec fn disk_completes(finished: bool, downloaded: u64, total: u64, disk_len: Option<u64>) -> bool {
    &&& !finished
    &&& total > 0
    &&& downloaded * 100 >= total * 99
    &&& match disk_len {
        Some(l) => l >= total,
        None => false,
    }
}

/// Does the disk show the file complete although the torrent's stats lag (see `disk_completes`)?
pub fn disk_completion(finished: bool, downloaded: u64, total: u64, disk_len: Option<u64>) -> (r: bool)
    ensures
        r == disk_completes(finished, downloaded, total, disk_len),
{
    if finished || total == 0 {
        return false;
    }
    let enough = (downloaded as u128) * 100 >= (total as u128) * 99;
    match disk_len {
        Some(l) => enough && l >= total,
        None => false,
    }
}

// ───────────────────── one progress poll ─────────────────────

/// What the torrent reports of a game's ZIP.
#[derive(Clone, Copy, Debug, PartialEq, Eq, Structural)]
pub struct FileReport {
    pub downloaded: u64,
    pub total: u64,
    pub finished: bool,
}

/// A game's ZIP as the file system shows it.
#[derive(Clone, Copy, Debug, PartialEq, Eq, Structural)]
pub enum ZipOnDisk {
    /// The torrent names no output path for the file.
    Unknown,
    /// The output path does not exist.
    Missing,
    /// The file exists, with this many bytes.
    Present(u64),
}

/// The bytes on disk, when the file is there.
pub open spec fn zip_len(z: ZipOnDisk) -> Option<u64> {
    match z {
        ZipOnDisk::Present(l) => Some(l),
        _ => None,
    }
}

/// A progress poll's answer.
#[derive(Clone, Copy, Debug, PartialEq, Eq, Structural)]
pub struct PollReport {
    pub downloaded: u64,
    pub total: u64,
    pub finished: bool,
    pub installed: bool,
    /// The retries are exhausted: the user must cancel and re-download.
    pub stuck: bool,
}

/// What a progress poll asks its caller to do.
pub enum PollAction {
    /// Nothing.
    Nothing,
    /// The ZIP is complete and on disk: extract it (under the extraction
    /// lock) and mark the game installed.
    Extract,
    /// The torrent reports the ZIP complete but it is not on disk.
    Stuck(StuckAction),
}

/// The torrent's report after the disk-based completion fallback.
pub open spec fn seen_report(rep: FileReport, zip: ZipOnDisk) -> FileReport {
    if disk_completes(rep.finished, rep.downloaded, rep.total, zip_len(zip)) {
        FileReport { downloaded: rep.total, total: rep.total, finished: true }
    } else {
        rep
    }
}

/// The answer carrying `rep` and the installed flag.
pub open spec fn answer(rep: FileReport, installed: bool, finished: bool, stuck: bool) -> PollReport {
    PollReport { downloaded: rep.downloaded, total: rep.total, finished, installed, stuck }
}

/// One poll of a game's download progress. `rep` is what the torrent
/// reports of the game's ZIP, `installed` what the library records, `zip`
/// what the disk shows at the file's output path, `now` the clock in
/// milliseconds. A complete ZIP that is on disk clears the game's retry
/// count and is handed out for extraction; one the torrent reports
/// complete but that is missing counts a retry (see `RetryState::poll`)
/// and is reported unfinished, and as stuck once the retries are exhausted.
pub fn progress_step(
    rep: FileReport,
    installed: bool,
    zip: ZipOnDisk,
    retries: &mut RetryState,
    id: i64,
    now: u64,
) -> (r: (PollReport, PollAction))
    ensures
        ({
            let seen = seen_report(rep, zip);
            if !seen.finished || installed || zip is Unknown {
                &&& r.0 == answer(seen, installed, seen.finished, false)
                &&& r.1 is Nothing
                &&& *final(retries) == *old(retries)
            } else if zip is Present {
                &&& r.0 == answer(seen, installed, true, false)
                &&& r.1 is Extract
                &&& final(retries).entry(id) is None
                &&& forall|other: i64|
                    other != id ==> final(retries).entry(other) == old(retries).entry(other)
            } else {
                let (e, ticked) = polled(old(retries).entry(id), now);
                &&& r.0 == answer(seen, installed, false, e.1 > max_stuck_retries())
                &&& r.1 == PollAction::Stuck(stuck_action_spec(e.1, ticked))
                &&& final(retries).entry(id) == Some(e)
                &&& forall|other: i64|
                    other != id ==> final(retries).entry(other) == unless_idle(
                        old(retries).entry(other),
                        now,
                    )
            }
        }),
{
    let len = match zip {
        ZipOnDisk::Present(l) => Some(l),
        _ => None,
    };
    let seen = if disk_completion(rep.finished, rep.downloaded, rep.total, len) {
        FileReport { downloaded: rep.total, total: rep.total, finished: true }
    } else {
        rep
    };
    let report = PollReport {
        downloaded: seen.downloaded,
        total: seen.total,
        finished: seen.finished,
        installed,
        stuck: false,
    };
    if !seen.finished || installed {
        return (report, PollAction::Nothing);
    }
    match zip {
        ZipOnDisk::Unknown => (report, PollAction::Nothing),
        ZipOnDisk::Present(_) => {
            retries.clear(id);
            (report, PollAction::Extract)
        },
        ZipOnDisk::Missing => {
            let (attempts, ticked) = retries.poll(id, now);
            let action = stuck_action(attempts, ticked);
            (PollReport { finished: false, stuck: stuck_error(attempts), ..report }, PollAction::Stuck(action))
        },
    }
}

/// Bytes of free space a download of `size` bytes asks for when none of it
/// is on disk yet: the ZIP, its extracted contents and a 500 MiB margin.
pub open spec fn space_base(size: i64) -> int {
    let s = size as u64;
    (if 2 * s > u64::MAX {
        u64::MAX as int
    } else {
        2 * s
    }) + 500 * 1024 * 1024
}

/// Free space still needed when `on_disk` bytes of the download are already
/// on disk: they are credited once, and nothing is needed once they cover
/// the whole amount.
pub open spec fn space_needed_spec(size: i64, on_disk: u64) -> int {
    if on_disk >= space_base(size) {
        0
    } else {
        space_base(size) - on_disk
    }
}

/// Free space needed to download a game of `size` bytes of which `on_disk`
/// bytes are already on disk (see `space_needed_spec`).
pub fn space_needed(size: i64, on_disk: u64) -> (r: u64)
    requires
        space_base(size) <= u64::MAX,
    ensures
        r == space_needed_spec(size, on_disk),
{
    let s = size as u64;
    let doubled = if s > u64::MAX / 2 {
        u64::MAX
    } else {
        s * 2
    };
    let base = doubled + 500 * 1024 * 1024;
    if on_disk >= base {
        0
    } else {
        base - on_disk
    }
}

/// What queueing a download decides before it touches the library.
#[derive(Clone, Copy, Debug, PartialEq, Eq, Structural)]
pub enum Preflight {
    /// The game is installed already: nothing to download.
    AlreadyInstalled,
    /// Refused: `needed` bytes must be free and only `free` are.
    NotEnoughSpace { needed: u64, free: u64 },
    /// Go on: mark the game in the library and queue its files.
    Proceed,
}

/// The preflight of a download: an installed game is answered at once;
/// otherwise a game of known `size` is refused when the free space (`free`,
/// unknown when the data directory is not set or cannot be queried) is
/// below what it still needs with `on_disk` bytes already there.
pub open spec fn preflight_spec(installed: bool, size: Option<i64>, on_disk: u64, free: Option<u64>) -> Preflight {
    if installed {
        Preflight::AlreadyInstalled
    } else {
        match (size, free) {
            (Some(s), Some(f)) => if f < space_needed_spec(s, on_disk) {
                Preflight::NotEnoughSpace { needed: space_needed_spec(s, on_disk) as u64, free: f }
            } else {
                Preflight::Proceed
            },
            _ => Preflight::Proceed,
        }
    }
}

/// The preflight of a download (see `preflight_spec`).
pub fn download_preflight(installed: bool, size: Option<i64>, on_disk: u64, free: Option<u64>) -> (r:
    Preflight)
    requires
        size matches Some(s) ==> space_base(s) <= u64::MAX,
    ensures
        r == preflight_spec(installed, size, on_disk, free),
{
    if installed {
        return Preflight::AlreadyInstalled;
    }
    match (size, free) {
        (Some(s), Some(f)) => {
            let needed = space_needed(s, on_disk);
            if f < needed {
                Preflight::NotEnoughSpace { needed, free: f }
            } else {
                Preflight::Proceed
            }
        },
        _ => Preflight::Proceed,
    }
}

/// The torrent file a progress poll reports on: the game's ZIP index, when
/// the game has one and its collection's download manager is running (no
/// progress otherwise).
pub fn progress_file(game_index: Option<i64>, manager_running: bool) -> (r: Option<usize>)
    ensures
        r == match game_index {
            Some(i) => if manager_running {
                Some(i as usize)
            } else {
                None
            },
            None => None,
        },
{
    match game_index {
        Some(i) => if manager_running {
            Some(i as usize)
        } else {
            None
        },
        None => None,
    }
}

/// The torrent files queued for a game: its ZIP and, when it has one, its
/// GameData ZIP.
pub fn download_file_indices(game_index: i64, gamedata_index: Option<i64>) -> (r: Vec<usize>)
    ensures
        r@ == match gamedata_index {
            Some(g) => seq![game_index as usize, g as usize],
            None => seq![game_index as usize],
        },
{
    let mut r = vec![game_index as usize];
    if let Some(g) = gamedata_index {
        r.push(g as usize);
    }
    assert(r@ =~= match gamedata_index {
        Some(g) => seq![game_index as usize, g as usize],
        None => seq![game_index as usize],
    });
    r
}

/// Deselect the shared GameData ZIP only when no other game in the library
/// still needs it.
pub fn gamedata_to_drop(gamedata_index: Option<i64>, other_users: i64) -> (r: Option<usize>)
    ensures
        r == match gamedata_index {
            Some(g) => if other_users > 0 {
                None
            } else {
                Some(g as usize)
            },
            None => None,
        },
{
    match gamedata_index {
        Some(g) => if other_users > 0 {
            None
        } else {
            Some(g as usize)
        },
        None => None,
    }
}

/// What an uninstall does to one collection's torrent.
pub enum TorrentReset {
    /// Files tracked by this torrent were deleted: reset its piece state
    /// for these indices.
    Invalidate(Vec<usize>),
    /// Nothing of this torrent was deleted, but it is the game's own: drop
    /// these indices from the selection.
    Deselect(Vec<usize>),
    /// Leave this torrent alone.
    Untouched,
}

/// `v` with `x` appended unless it is already there.
pub open spec fn push_new(v: Seq<usize>, x: usize) -> Seq<usize> {
    if v.contains(x) {
        v
    } else {
        v.push(x)
    }
}

/// The indices an uninstall drops from a torrent: the deleted ZIPs it
/// tracks and, for the game's own torrent, the game's ZIP and the GameData
/// no other game needs.
pub open spec fn drop_indices_spec(
    deleted: Seq<usize>,
    is_source: bool,
    game_index: Option<usize>,
    gamedata: Option<usize>,
) -> Seq<usize> {
    if !is_source {
        deleted
    } else {
        let a = match game_index {
            Some(g) => push_new(deleted, g),
            None => deleted,
        };
        match gamedata {
            Some(g) => push_new(a, g),
            None => a,
        }
    }
}

/// The reset for one torrent (see `TorrentReset`), where `deleted` are the
/// indices of deleted ZIPs this torrent tracks.
pub open spec fn torrent_reset_spec(
    deleted: Seq<usize>,
    is_source: bool,
    game_index: Option<usize>,
    gamedata: Option<usize>,
) -> (int, Seq<usize>) {
    let d = drop_indices_spec(deleted, is_source, game_index, gamedata);
    if deleted.len() > 0 {
        (0, d)
    } else if is_source {
        (1, d)
    } else {
        (2, seq![])
    }
}

pub open spec fn reset_view(r: TorrentReset) -> (int, Seq<usize>) {
    match r {
        TorrentReset::Invalidate(v) => (0, v@),
        TorrentReset::Deselect(v) => (1, v@),
        TorrentReset::Untouched => (2, seq![]),
    }
}

fn push_new_exec(v: &mut Vec<usize>, x: usize)
    ensures
        final(v)@ == push_new(old(v)@, x),
{
    let mut i: usize = 0;
    while i < v.len()
        invariant
            i <= v@.len(),
            v@ == old(v)@,
            forall|k: int| 0 <= k < i ==> v@[k] != x,
        decreases v.len() - i,
    {
        if v[i] == x {
            assert(v@.contains(x));
            return;
        }
        i += 1;
    }
    assert(!v@.contains(x));
    v.push(x);
}

/// How an uninstall resets one collection's torrent.
pub fn torrent_reset(
    deleted: &Vec<usize>,
    is_source: bool,
    game_index: Option<usize>,
    gamedata: Option<usize>,
) -> (r: TorrentReset)
    ensures
        reset_view(r) == torrent_reset_spec(deleted@, is_source, game_index, gamedata),
{
    let mut d = deleted.clone();
    if is_source {
        if let Some(g) = game_index {
            push_new_exec(&mut d, g);
        }
        if let Some(g) = gamedata {
            push_new_exec(&mut d, g);
        }
    }
    if deleted.len() > 0 {
        TorrentReset::Invalidate(d)
    } else if is_source {
        TorrentReset::Deselect(d)
    } else {
        TorrentReset::Untouched
    }
}

/// An extraction lock older than five minutes is left over from a crashed
/// or interrupted extraction and is removed.
pub fn extraction_lock_stale(age_secs: u64) -> (r: bool)
    ensures
        r == (age_secs > 300),
{
    age_secs > 300
}

// ───────────────────── torrent files on disk ─────────────────────

/// A 0-byte `.zip` left by the torrent client is deleted unless it belongs
/// to a selected file (`path` with forward slashes; `selected` are
/// torrent-relative paths).
pub open spec fn placeholder_doomed(path: Seq<char>, len: u64, ext: Option<Seq<char>>, selected: Seq<Seq<char>>) -> bool {
    &&& len == 0
    &&& ext == Some("zip"@)
    &&& !(exists|i: int| 0 <= i < selected.len() && ends_with(path, #[trigger] selected[i]))
}

/// Should the cleanup delete this file (see `placeholder_doomed`)? `path`
/// may use either slash; it is compared with forward slashes.
pub fn placeholder_should_delete(path: &str, len: u64, ext: Option<&str>, selected: &Vec<String>) -> (r: bool)
    ensures
        r == placeholder_doomed(
            replace_all(path@, "\\"@, "/"@),
            len,
            match ext {
                Some(e) => Some(e@),
                None => None,
            },
            crate::autoexec::string_views(selected@),
        ),
{
    if len != 0 {
        return false;
    }
    match ext {
        None => return false,
        Some(e) => {
            if !crate::text::eq_str(&chars_of(e), "zip") {
                return false;
            }
        },
    }
    proof {
        reveal_strlit("\\");
    }
    let fwd = replace_str(&chars_of(path), "\\", "/");
    let mut i: usize = 0;
    while i < selected.len()
        invariant
            i <= selected@.len(),
            fwd@ == replace_all(path@, "\\"@, "/"@),
            len == 0,
            (match ext {
                Some(e) => Some(e@),
                None => None,
            }) == Some("zip"@),
            forall|k: int| 0 <= k < i ==> !ends_with(fwd@, #[trigger] crate::autoexec::string_views(selected@)[k]),
        decreases selected.len() - i,
    {
        let s = chars_of(selected[i].as_str());
        assert(crate::autoexec::string_views(selected@)[i as int] == s@);
        if crate::text::ends_with_exec(&fwd, &s) {
            assert(ends_with(fwd@, crate::autoexec::string_views(selected@)[i as int]));
            return false;
        }
        i += 1;
    }
    true
}

/// The NT extended-length form (`\\?\C:\...` or `\\?\UNC\server\share\...`)
/// of a Windows path, so Windows file APIs skip the 260-character limit:
/// slashes become backslashes; an already-prefixed or relative path is
/// returned as it is.
pub open spec fn long_path_spec(p: Seq<char>) -> Seq<char> {
    let s = replace_all(p, "/"@, "\\"@);
    if starts_with(s, "\\\\?\\"@) {
        s
    } else if !windows_absolute(s) {
        s
    } else if starts_with(s, "\\\\"@) {
        "\\\\?\\UNC\\"@ + s.skip(2)
    } else {
        "\\\\?\\"@ + s
    }
}

/// A Windows path (backslash form) is absolute when it is a UNC/device path
/// or a drive letter followed by a root.
pub open spec fn windows_absolute(s: Seq<char>) -> bool {
    starts_with(s, "\\\\"@) || (s.len() >= 3 && crate::text::is_ascii_alpha(s[0]) && s[1] == ':'
        && s[2] == '\\')
}

/// A path as the torrent session is handed it: on Windows its
/// extended-length form (see `long_path_spec`), elsewhere unchanged.
pub fn to_long_path(p: &str, windows: bool) -> (r: String)
    ensures
        r@ == if windows {
            long_path_spec(p@)
        } else {
            p@
        },
{
    if !windows {
        return p.to_string();
    }
    proof {
        reveal_strlit("/");
    }
    let s = replace_str(&chars_of(p), "/", "\\");
    if starts_with_str(&s, "\\\\?\\") {
        return string_of(&s);
    }
    let abs = starts_with_str(&s, "\\\\") || (s.len() >= 3 && crate::text::is_ascii_alpha_exec(s[0])
        && s[1] == ':' && s[2] == '\\');
    if !abs {
        return string_of(&s);
    }
    if starts_with_str(&s, "\\\\") {
        proof {
            reveal_strlit("\\\\");
        }
        let mut r = chars_of("\\\\?\\UNC\\");
        assert(s@.take(2) == "\\\\"@);
        let rest = crate::text::slice_of(&s, 2, s.len());
        assert(rest@ =~= s@.skip(2));
        push_all(&mut r, &rest);
        string_of(&r)
    } else {
        let mut r = chars_of("\\\\?\\");
        push_all(&mut r, &s);
        string_of(&r)
    }
}

/// A selection update the torrent refused because it is still initializing
/// is retried, up to 20 attempts in all.
pub open spec fn retry_update_spec(error: Seq<char>, attempt: u32) -> bool {
    contains(error, "initializing"@) && attempt + 1 < 20
}

/// Is a refused selection update tried again (see `retry_update_spec`)?
pub fn should_retry_update(error: &str, attempt: u32) -> (r: bool)
    ensures
        r == retry_update_spec(error@, attempt),
{
    crate::text::contains_str(&chars_of(error), "initializing") && attempt < 19
}

/// Converting a path to its extended-length form twice gives what one
/// conversion gives.
pub proof fn long_path_idempotent(p: Seq<char>)
    ensures
        long_path_spec(long_path_spec(p)) == long_path_spec(p),
{
    reveal_strlit("/");
    reveal_strlit("\\");
    reveal_strlit("\\\\");
    reveal_strlit("\\\\?\\");
    reveal_strlit("\\\\?\\UNC\\");
    let s = replace_all(p, "/"@, "\\"@);
    crate::text::lemma_replace_clears(p, "/"@, "\\"@);
    let t = long_path_spec(p);
    assert(!t.contains('/')) by {
        if starts_with(s, "\\\\?\\"@) || !windows_absolute(s) {
            assert(t == s);
        } else if starts_with(s, "\\\\"@) {
            let pre = "\\\\?\\UNC\\"@;
            assert forall|k: int| 0 <= k < (pre + s.skip(2)).len() implies (pre + s.skip(2))[k]
                != '/' by {
                if k >= pre.len() {
                    assert((pre + s.skip(2))[k] == s[k - pre.len() + 2]);
                }
            }
        } else {
            let pre = "\\\\?\\"@;
            assert forall|k: int| 0 <= k < (pre + s).len() implies (pre + s)[k] != '/' by {
                if k >= pre.len() {
                    assert((pre + s)[k] == s[k - pre.len()]);
                }
            }
        }
    }
    crate::text::lemma_replace_absent(t, "/"@, "\\"@);
    if !starts_with(s, "\\\\?\\"@) && windows_absolute(s) {
        assert(t.take(4) =~= "\\\\?\\"@);
    }
}

/// A stuck download is retried on its first poll (once the clock has run a
/// minute): the poll ticks and counts one attempt.
pub proof fn first_poll_retries_at_once(now: u64)
    requires
        now >= 60_000,
    ensures
        polled(None, now) == ((now, 1u32), true),
{
}

/// Between two retries the counter holds still: a poll less than five
/// seconds after one that ticked does not tick and sees the same attempts.
pub proof fn poll_holds_between_ticks(prev: Option<(u64, u32)>, t1: u64, t2: u64)
    requires
        polled(prev, t1).1,
        t1 <= t2,
        t2 - t1 < retry_interval_ms(),
    ensures
        polled(Some(polled(prev, t1).0), t2) == (polled(prev, t1).0, false),
{
}

/// A poll at least five seconds (and less than two minutes) after the last
/// retry retries again and counts one more attempt (saturating).
pub proof fn poll_ticks_after_interval(last: u64, attempts: u32, now: u64)
    requires
        last <= now,
        retry_interval_ms() <= now - last < retry_forget_ms(),
    ensures
        polled(Some((last, attempts)), now) == ((now, if attempts == u32::MAX {
            attempts
        } else {
            (attempts + 1) as u32
        }), true),
{
}

/// The cleanup never deletes a placeholder of the current selection: a file
/// whose forward-slash path ends with a selected torrent path is kept,
/// whichever slashes the path on disk uses.
pub proof fn selected_placeholders_are_kept(
    path: Seq<char>,
    len: u64,
    ext: Option<Seq<char>>,
    selected: Seq<Seq<char>>,
    i: int,
)
    requires
        0 <= i < selected.len(),
        ends_with(replace_all(path, "\\"@, "/"@), selected[i]),
    ensures
        !placeholder_doomed(replace_all(path, "\\"@, "/"@), len, ext, selected),
{
}

/// The entry of a stuck download after polls at the clock readings
/// `times`, first to last, starting from `prev`.
pub open spec fn polls(prev: Option<(u64, u32)>, times: Seq<u64>) -> Option<(u64, u32)>
    decreases times.len(),
{
    if times.len() == 0 {
        prev
    } else {
        polls(Some(polled(prev, times[0]).0), times.drop_first())
    }
}

/// Retries so far stand at least five seconds apart since `t0`, and the
/// last one is no later than `tcur`.
pub open spec fn spaced(e: Option<(u64, u32)>, t0: int, tcur: int) -> bool {
    match e {
        Some((l, a)) => a >= 1 ==> t0 + retry_interval_ms() * (a - 1) <= l <= tcur,
        None => true,
    }
}

proof fn lemma_polls_spaced(prev: Option<(u64, u32)>, times: Seq<u64>, t0: int, tcur: int)
    requires
        spaced(prev, t0, tcur),
        forall|i: int| 0 <= i < times.len() ==> tcur <= #[trigger] times[i],
        forall|i: int, j: int| 0 <= i <= j < times.len() ==> times[i] <= times[j],
        t0 <= tcur,
    ensures
        spaced(polls(prev, times), t0, if times.len() == 0 {
            tcur
        } else {
            times.last() as int
        }),
    decreases times.len(),
{
    if times.len() > 0 {
        let now = times[0];
        let next = Some(polled(prev, now).0);
        assert(spaced(next, t0, now as int));
        let rest = times.drop_first();
        assert forall|i: int| 0 <= i < rest.len() implies now <= #[trigger] rest[i] by {
            assert(rest[i] == times[i + 1]);
        }
        assert forall|i: int, j: int| 0 <= i <= j < rest.len() implies rest[i] <= rest[j] by {
            assert(rest[i] == times[i + 1] && rest[j] == times[j + 1]);
        }
        lemma_polls_spaced(next, rest, t0, now as int);
        if rest.len() > 0 {
            assert(rest.last() == times.last());
        }
    }
}

/// The retry rhythm of a stuck download: over polls of one game at
/// non-decreasing clock readings, the `n`-th retry comes at least
/// `5 * (n - 1)` seconds after the first poll, so the error that ends
/// the retries (more than 60 of them) is reported at the earliest five
/// minutes after the download was first found stuck.
pub proof fn retries_are_five_seconds_apart(times: Seq<u64>)
    requires
        times.len() > 0,
        forall|i: int, j: int| 0 <= i <= j < times.len() ==> times[i] <= times[j],
    ensures
        polls(None, times) matches Some((last, attempts)) ==> {
            &&& attempts >= 1 ==> last >= times[0] + retry_interval_ms() * (attempts - 1)
            &&& attempts > max_stuck_retries() ==> last - times[0] >= max_stuck_retries()
                * retry_interval_ms()
        },
{
    assert forall|i: int| 0 <= i < times.len() implies times[0] <= #[trigger] times[i] by {}
    lemma_polls_spaced(None, times, times[0] as int, times[0] as int);
}

} // verus!
