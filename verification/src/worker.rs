//! The background worker: its configuration, the loop that reacts to
//! cancellation, ticks and notifications, and the decisions of its actions
//! (which directories to scan next, which shows to synchronise, which files
//! to record).
use vstd::prelude::*;

use crate::entry::EntryInfo;
use crate::storage::{guess_content_type, path_first_mime_essence, Storage};
use crate::tvshow::joined_path;
use crate::text::{push_char, push_str};

verus! {

broadcast use vstd::string::group_string_axioms;

/// How the worker is sized and how often it wakes up on its own.
#[derive(Clone, Copy, Debug, PartialEq, Eq)]
pub struct WorkerConfig {
    pub size: usize,
    pub tick_interval: u64,
}

impl WorkerConfig {
    /// The default queue size.
    pub fn default_size() -> (r: usize)
        ensures
            r == 100,
    {
        100
    }

    /// The default number of seconds between two ticks.
    pub fn default_tick_interval() -> (r: u64)
        ensures
            r == 60,
    {
        60
    }
}

impl Default for WorkerConfig {
    fn default() -> (r: WorkerConfig)
        ensures
            r.size == 100 && r.tick_interval == 60,
    {
        WorkerConfig { size: WorkerConfig::default_size(), tick_interval: WorkerConfig::default_tick_interval() }
    }
}

// ---------------------------------------------------------------------------
// The runner loop
// ---------------------------------------------------------------------------

/// What woke the runner up.
#[derive(Clone, Copy, Debug, PartialEq, Eq)]
pub enum RunnerEvent {
    /// The worker is being stopped.
    Cancelled,
    /// The tick interval elapsed.
    Tick,
    /// New work was announced.
    Notified,
}

/// What the runner does about an event.
#[derive(Clone, Copy, Debug, PartialEq, Eq)]
pub enum RunnerAction {
    /// Stop the loop.
    Stop,
    /// Run the periodic work.
    Tick,
    /// Look at the announced work.
    Iterate,
}

/// The runner's state: whether it has been cancelled.
#[derive(Clone, Copy, Debug, PartialEq, Eq)]
pub struct RunnerState {
    pub cancelled: bool,
}

impl RunnerState {
    /// A runner that runs.
    pub fn new() -> (r: RunnerState)
        ensures
            !r.cancelled,
    {
        RunnerState { cancelled: false }
    }

    /// Whether the loop goes on waiting for events.
    pub fn running(&self) -> (r: bool)
        ensures
            r == !self.cancelled,
    {
        !self.cancelled
    }

    /// Reacts to `event`: cancellation stops the runner for good, a tick
    /// runs the periodic work, a notification looks at the new work.
    pub fn on_event(&mut self, event: RunnerEvent) -> (r: RunnerAction)
        ensures
            final(self).cancelled == (old(self).cancelled || event == RunnerEvent::Cancelled),
            r == (match event {
                RunnerEvent::Cancelled => RunnerAction::Stop,
                RunnerEvent::Tick => RunnerAction::Tick,
                RunnerEvent::Notified => RunnerAction::Iterate,
            }),
    {
        match event {
            RunnerEvent::Cancelled => {
                self.cancelled = true;
                RunnerAction::Stop
            },
            RunnerEvent::Tick => RunnerAction::Tick,
            RunnerEvent::Notified => RunnerAction::Iterate,
        }
    }
}

/// Whether a runner is cancelled after reacting to `events` in turn,
/// starting from `cancelled` (see `RunnerState::on_event`).
pub open spec fn cancelled_after(cancelled: bool, events: Seq<RunnerEvent>) -> bool
    decreases events.len(),
{
    if events.len() == 0 {
        cancelled
    } else {
        cancelled_after(cancelled, events.drop_last()) || events.last() == RunnerEvent::Cancelled
    }
}

/// A runner is cancelled after a run of events exactly when it was before or
/// one of the events was a cancellation: once stopped, it stays stopped, and
/// ticks and notifications never stop it.
pub proof fn law_cancel_is_final(cancelled: bool, events: Seq<RunnerEvent>)
    ensures
        cancelled_after(cancelled, events) == (cancelled || events.contains(RunnerEvent::Cancelled)),
    decreases events.len(),
{
    if events.len() > 0 {
        let d = events.drop_last();
        law_cancel_is_final(cancelled, d);
        if d.contains(RunnerEvent::Cancelled) {
            let i = choose|i: int| 0 <= i < d.len() && d[i] == RunnerEvent::Cancelled;
            assert(events[i] == RunnerEvent::Cancelled);
        }
        if events.contains(RunnerEvent::Cancelled) {
            let i = choose|i: int| 0 <= i < events.len() && events[i] == RunnerEvent::Cancelled;
            if i < events.len() - 1 {
                assert(d[i] == RunnerEvent::Cancelled);
            }
        }
    }
}

// ---------------------------------------------------------------------------
// Scanning sources
// ---------------------------------------------------------------------------

/// A request to scan one directory of a named source.
#[derive(Clone, Debug, PartialEq, Eq)]
pub struct ScanStoragePath {
    pub name: String,
    pub path: String,
}

/// The scan requests for the directories among `entries`, in order: each
/// keeps the source's name and names the directory's path.
pub open spec fn child_scans(name: Seq<char>, path: Seq<char>, entries: Seq<EntryInfo>) -> Seq<(Seq<char>, Seq<char>)>
    decreases entries.len(),
{
    if entries.len() == 0 {
        Seq::empty()
    } else {
        let before = child_scans(name, path, entries.drop_last());
        match entries.last() {
            EntryInfo::Directory(d) => before.push((name, joined_path(path, d.name@))),
            EntryInfo::File(_) => before,
        }
    }
}

/// The views of scan requests.
pub open spec fn scans_view(s: Seq<ScanStoragePath>) -> Seq<(Seq<char>, Seq<char>)> {
    s.map_values(|x: ScanStoragePath| (x.name@, x.path@))
}

/// The path of `name` within `path` (see `joined_path`).
fn join(path: &String, name: &String) -> (r: String)
    ensures
        r@ == joined_path(path@, name@),
{
    if path.as_str().is_empty() {
        name.clone()
    } else {
        let mut r = String::new();
        push_str(&mut r, path.as_str());
        push_char(&mut r, '/');
        push_str(&mut r, name.as_str());
        r
    }
}

impl ScanStoragePath {
    /// The scans that follow from listing this directory: one for each
    /// subdirectory found (see `child_scans`); files start no scan.
    pub fn execute(&self, entries: &Vec<EntryInfo>) -> (r: Vec<ScanStoragePath>)
        ensures
            scans_view(r@) == child_scans(self.name@, self.path@, entries@),
    {
        let mut r: Vec<ScanStoragePath> = Vec::new();
        let mut i: usize = 0;
        assert(entries@.take(0) =~= Seq::<EntryInfo>::empty());
        while i < entries.len()
            invariant
                i <= entries@.len(),
                scans_view(r@) == child_scans(self.name@, self.path@, entries@.take(i as int)),
            decreases entries@.len() - i,
        {
            let ghost before = r@;
            proof {
                assert(entries@.take(i + 1).drop_last() == entries@.take(i as int));
                assert(entries@.take(i + 1).last() == entries@[i as int]);
            }
            match &entries[i] {
                EntryInfo::Directory(d) => {
                    let path = join(&self.path, &d.name);
                    r.push(ScanStoragePath { name: self.name.clone(), path });
                    proof {
                        assert(scans_view(r@) =~= scans_view(before).push((self.name@, joined_path(self.path@, d.name@))));
                    }
                },
                EntryInfo::File(_) => {},
            }
            i = i + 1;
        }
        assert(entries@.take(entries@.len() as int) == entries@);
        r
    }
}

/// Whether `e` is a directory whose path under `path` is `p`.
pub open spec fn is_directory_at(e: EntryInfo, path: Seq<char>, p: Seq<char>) -> bool {
    e matches EntryInfo::Directory(d) && p == joined_path(path, d.name@)
}

/// Every scan that follows from a listing names a directory of the listing
/// under the scanned path, in the same source.
pub proof fn law_child_scans_stay_in_source(name: Seq<char>, path: Seq<char>, entries: Seq<EntryInfo>)
    ensures
        forall|k: int| 0 <= k < child_scans(name, path, entries).len() ==> (#[trigger] child_scans(name, path, entries)[k]).0 == name
            && exists|j: int| 0 <= j < entries.len() && is_directory_at(#[trigger] entries[j], path, child_scans(name, path, entries)[k].1),
        child_scans(name, path, entries).len() <= entries.len(),
    decreases entries.len(),
{
    if entries.len() > 0 {
        let d = entries.drop_last();
        law_child_scans_stay_in_source(name, path, d);
        let s = child_scans(name, path, entries);
        let b = child_scans(name, path, d);
        assert forall|k: int| 0 <= k < s.len() implies (#[trigger] s[k]).0 == name && exists|j: int|
            0 <= j < entries.len() && is_directory_at(#[trigger] entries[j], path, s[k].1) by {
            if k < b.len() {
                assert(s[k] == b[k]);
                let j = choose|j: int| 0 <= j < d.len() && is_directory_at(#[trigger] d[j], path, b[k].1);
                assert(entries[j] == d[j]);
            } else {
                assert(entries[entries.len() - 1] == entries.last());
                assert(is_directory_at(entries[entries.len() - 1], path, s[k].1));
            }
        }
    }
}

/// The scans that start a full scan: the root of every source, once.
pub struct ScanEveryStorage;

impl ScanEveryStorage {
    /// A scan of the root (the empty path) of each source of `storage`.
    pub fn execute(&self, storage: &Storage) -> (r: Vec<ScanStoragePath>)
        requires
            storage.wf(),
        ensures
            forall|k: int| 0 <= k < r@.len() ==> (#[trigger] r@[k]).path@.len() == 0,
            forall|n: Seq<char>| storage@.contains_key(n) <==> exists|k: int| 0 <= k < r@.len() && #[trigger] r@[k].name@ == n,
            forall|k: int, l: int| 0 <= k < l < r@.len() ==> #[trigger] r@[k].name@ != #[trigger] r@[l].name@,
    {
        let names = storage.sources();
        let mut r: Vec<ScanStoragePath> = Vec::new();
        let mut i: usize = 0;
        while i < names.len()
            invariant
                i <= names@.len(),
                r@.len() == i,
                forall|k: int| 0 <= k < i ==> (#[trigger] r@[k]).path@.len() == 0 && r@[k].name@ == names@[k]@,
            decreases names@.len() - i,
        {
            r.push(ScanStoragePath { name: names[i].clone(), path: String::new() });
            i = i + 1;
        }
        proof {
            assert forall|n: Seq<char>| storage@.contains_key(n) <==> exists|k: int| 0 <= k < r@.len() && #[trigger] r@[k].name@ == n by {
                if storage@.contains_key(n) {
                    let k = choose|k: int| 0 <= k < names@.len() && #[trigger] names@[k]@ == n;
                    assert(r@[k].name@ == n);
                }
                if exists|k: int| 0 <= k < r@.len() && #[trigger] r@[k].name@ == n {
                    let k = choose|k: int| 0 <= k < r@.len() && #[trigger] r@[k].name@ == n;
                    assert(names@[k]@ == n);
                }
            }
            assert forall|k: int, l: int| 0 <= k < l < r@.len() implies #[trigger] r@[k].name@ != #[trigger] r@[l].name@ by {
                assert(names@[k]@ != names@[l]@);
            }
        }
        r
    }
}

// ---------------------------------------------------------------------------
// Synchronising shows
// ---------------------------------------------------------------------------

/// A request to synchronise one show.
#[derive(Clone, Copy, Debug, PartialEq, Eq)]
pub struct SyncTVShow {
    pub tvshow_id: u64,
}

/// A request to synchronise one season of a show.
#[derive(Clone, Copy, Debug, PartialEq, Eq)]
pub struct SyncTVShowSeason {
    pub tvshow_id: u64,
    pub season_number: u64,
}

/// Every directory of a listing, and nothing else, starts a scan, in the
/// order listed: each scan keeps the source's name and names the directory
/// at the scanned path followed by `/` and the directory's name (the name
/// alone when the scanned path is the source's root).
pub proof fn law_every_directory_is_scanned(name: Seq<char>, path: Seq<char>, entries: Seq<EntryInfo>)
    ensures
        child_scans(name, path, entries) == entries.filter(|e: EntryInfo| e is Directory).map_values(
            |e: EntryInfo| (name, if path.len() == 0 {
                e->Directory_0.name@
            } else {
                path + seq!['/'] + e->Directory_0.name@
            }),
        ),
        child_scans(name, path, entries).len() == entries.filter(|e: EntryInfo| e is Directory).len(),
    decreases entries.len(),
{
    reveal(Seq::filter);
    if entries.len() > 0 {
        let d = entries.drop_last();
        law_every_directory_is_scanned(name, path, d);
        let f = entries.filter(|e: EntryInfo| e is Directory);
        let g = d.filter(|e: EntryInfo| e is Directory);
        match entries.last() {
            EntryInfo::Directory(_) => {
                assert(f == g.push(entries.last()));
            },
            EntryInfo::File(_) => {
                assert(f == g);
            },
        }
        assert(child_scans(name, path, entries) =~= f.map_values(
            |e: EntryInfo| (name, if path.len() == 0 {
                e->Directory_0.name@
            } else {
                path + seq!['/'] + e->Directory_0.name@
            }),
        ));
    }
}

/// Synchronises every show that needs it.
pub struct SyncEveryTVShow;

impl SyncEveryTVShow {
    /// One synchronisation per show id, in order.
    pub fn execute(&self, ids: &Vec<u64>) -> (r: Vec<SyncTVShow>)
        ensures
            r@.len() == ids@.len(),
            forall|k: int| 0 <= k < r@.len() ==> #[trigger] r@[k].tvshow_id == ids@[k],
    {
        let mut r: Vec<SyncTVShow> = Vec::new();
        let mut i: usize = 0;
        while i < ids.len()
            invariant
                i <= ids@.len(),
                r@.len() == i,
                forall|k: int| 0 <= k < i ==> #[trigger] r@[k].tvshow_id == ids@[k],
            decreases ids@.len() - i,
        {
            r.push(SyncTVShow { tvshow_id: ids[i] });
            i = i + 1;
        }
        r
    }
}

impl SyncTVShow {
    /// The season synchronisations that follow the show's own, one per season
    /// the show has, in order.
    pub fn season_syncs(&self, season_numbers: &Vec<u64>) -> (r: Vec<SyncTVShowSeason>)
        ensures
            r@.len() == season_numbers@.len(),
            forall|k: int| 0 <= k < r@.len() ==> (#[trigger] r@[k]).tvshow_id == self.tvshow_id
                && r@[k].season_number == season_numbers@[k],
    {
        let mut r: Vec<SyncTVShowSeason> = Vec::new();
        let mut i: usize = 0;
        while i < season_numbers.len()
            invariant
                i <= season_numbers@.len(),
                r@.len() == i,
                forall|k: int| 0 <= k < i ==> (#[trigger] r@[k]).tvshow_id == self.tvshow_id
                    && r@[k].season_number == season_numbers@[k],
            decreases season_numbers@.len() - i,
        {
            r.push(SyncTVShowSeason { tvshow_id: self.tvshow_id, season_number: season_numbers[i] });
            i = i + 1;
        }
        r
    }
}

impl SyncTVShowSeason {
    /// Whether the season's episodes are stored: only when it has any.
    pub fn stores_episodes(&self, episode_count: usize) -> (r: bool)
        ensures
            r == (episode_count > 0),
    {
        episode_count > 0
    }
}

/// A request to transcode one episode.
#[derive(Clone, Copy, Debug, PartialEq, Eq)]
pub struct TranscodeTVShowEpisode {
    pub episode_id: u64,
}

// ---------------------------------------------------------------------------
// Recording the files of the TV show storage
// ---------------------------------------------------------------------------

/// An entry met while walking the TV show storage; directories are carried
/// as the walker's own handles.
pub enum ScannedEntry<D> {
    File { path: String, size: u64, created: u64, modified: u64 },
    Directory(D),
}

/// What is recorded of a file of the TV show storage.
#[derive(Clone, Debug, PartialEq, Eq)]
pub struct FileRecord {
    pub path: String,
    pub size: u64,
    pub content_type: Option<String>,
    pub created: u64,
    pub modified: u64,
}

/// The directories still to read, the last one found read first.
pub struct ScanTVShowStorage<D> {
    stack: Vec<D>,
}

impl<D> View for ScanTVShowStorage<D> {
    type V = Seq<D>;

    closed spec fn view(&self) -> Seq<D> {
        self.stack@
    }
}

impl<D> ScanTVShowStorage<D> {
    /// A walk that starts at `root`, or reads nothing without one.
    pub fn new(root: Option<D>) -> (r: ScanTVShowStorage<D>)
        ensures
            r@ == (match root {
                Some(d) => seq![d],
                None => Seq::<D>::empty(),
            }),
    {
        let mut stack: Vec<D> = Vec::new();
        match root {
            Some(d) => stack.push(d),
            None => {},
        }
        assert(stack@ =~= (match root {
            Some(d) => seq![d],
            None => Seq::<D>::empty(),
        }));
        ScanTVShowStorage { stack }
    }

    /// The next directory to read: the one found last.
    pub fn next_directory(&mut self) -> (r: Option<D>)
        ensures
            old(self)@.len() == 0 ==> r is None && final(self)@ == old(self)@,
            old(self)@.len() > 0 ==> r == Some(old(self)@.last()) && final(self)@ == old(self)@.drop_last(),
    {
        self.stack.pop()
    }

    /// Takes in the entries of a directory just read, in the order the reader
    /// gave them, `None` standing for an entry it could not read: reading
    /// stops at the first such entry. Of the entries before it, the
    /// subdirectories go on the stack in the order found, and the files come
    /// back as records, in the order found, each with the media type guessed
    /// from its path.
    pub fn take_entries(&mut self, entries: Vec<Option<ScannedEntry<D>>>) -> (r: Vec<FileRecord>)
        ensures
            final(self)@ == old(self)@ + directories_of(readable_prefix(entries@)),
            r@.len() == files_of(readable_prefix(entries@)).len(),
            forall|k: int| 0 <= k < r@.len() ==> record_matches(#[trigger] r@[k], files_of(readable_prefix(entries@))[k]),
    {
        let readable = readable_entries(entries);
        self.take_readable(readable)
    }

    /// Takes in entries that were all read (see `take_entries`).
    fn take_readable(&mut self, entries: Vec<ScannedEntry<D>>) -> (r: Vec<FileRecord>)
        ensures
            final(self)@ == old(self)@ + directories_of(entries@),
            r@.len() == files_of(entries@).len(),
            forall|k: int| 0 <= k < r@.len() ==> record_matches(#[trigger] r@[k], files_of(entries@)[k]),
    {
        let mut records: Vec<FileRecord> = Vec::new();
        let ghost all = entries@;
        let ghost start = self.stack@;
        assert(all.take(0) =~= Seq::<ScannedEntry<D>>::empty());
        for e in it: entries
            invariant
                it.seq() == all,
                self.stack@ == start + directories_of(all.take(it.index() as int)),
                records@.len() == files_of(all.take(it.index() as int)).len(),
                forall|k: int| 0 <= k < records@.len() ==> record_matches(#[trigger] records@[k], files_of(all.take(it.index() as int))[k]),
        {
            let ghost i = it.index();
            proof {
                assert(e == all[i as int]);
                assert(all.take(i + 1).drop_last() == all.take(i as int));
                assert(all.take(i + 1).last() == all[i as int]);
            }
            match e {
                ScannedEntry::File { path, size, created, modified } => {
                    let content_type = guess_content_type(path.as_str());
                    records.push(FileRecord { path, size, content_type, created, modified });
                },
                ScannedEntry::Directory(d) => {
                    self.stack.push(d);
                    proof {
                        assert(self.stack@ =~= start + directories_of(all.take(i + 1)));
                    }
                },
            }
        }
        let ghost n = all.len();
        assert(all.take(n as int) == all);
        records
    }
}

/// Whether some entry of `s` could not be read.
pub open spec fn has_gap<E>(s: Seq<Option<E>>) -> bool {
    exists|k: int| 0 <= k < s.len() && #[trigger] s[k] is None
}

/// The entries of `s` before the first one that could not be read.
pub open spec fn readable_prefix<E>(s: Seq<Option<E>>) -> Seq<E>
    decreases s.len(),
{
    if s.len() == 0 {
        Seq::empty()
    } else {
        let p = readable_prefix(s.drop_last());
        if has_gap(s.drop_last()) {
            p
        } else {
            match s.last() {
                Some(e) => p.push(e),
                None => p,
            }
        }
    }
}

/// The entries before the first one that could not be read.
fn readable_entries<E>(entries: Vec<Option<E>>) -> (r: Vec<E>)
    ensures
        r@ == readable_prefix(entries@),
{
    let mut r: Vec<E> = Vec::new();
    let mut stopped = false;
    let ghost all = entries@;
    assert(all.take(0) =~= Seq::<Option<E>>::empty());
    for e in it: entries
        invariant
            it.seq() == all,
            stopped == has_gap(all.take(it.index() as int)),
            r@ == readable_prefix(all.take(it.index() as int)),
    {
        let ghost i = it.index() as int;
        proof {
            assert(e == all[i]);
            assert(all.take(i + 1).drop_last() =~= all.take(i));
            assert(all.take(i + 1).last() == all[i]);
        }
        match e {
            None => {
                stopped = true;
                proof {
                    assert(all.take(i + 1)[i] is None);
                }
            },
            Some(x) => {
                proof {
                    if has_gap(all.take(i + 1)) {
                        let k = choose|k: int| 0 <= k < all.take(i + 1).len() && #[trigger] all.take(i + 1)[k] is None;
                        assert(k != i);
                        assert(all.take(i)[k] is None);
                    }
                    if has_gap(all.take(i)) {
                        let k = choose|k: int| 0 <= k < all.take(i).len() && #[trigger] all.take(i)[k] is None;
                        assert(all.take(i + 1)[k] is None);
                    }
                }
                if !stopped {
                    r.push(x);
                }
            },
        }
    }
    assert(all.take(all.len() as int) =~= all);
    r
}

/// Every file of a listing, and nothing else, is recorded, in the order
/// listed, with its path, size and times; every subdirectory, and nothing
/// else, goes to the walk, in the order listed.
pub proof fn law_every_file_is_recorded<D>(entries: Seq<ScannedEntry<D>>)
    ensures
        files_of(entries) == entries.filter(|e: ScannedEntry<D>| e is File).map_values(
            |e: ScannedEntry<D>| (e->path@, e->size, e->created, e->modified),
        ),
        directories_of(entries) == entries.filter(|e: ScannedEntry<D>| e is Directory).map_values(
            |e: ScannedEntry<D>| e->Directory_0,
        ),
        files_of(entries).len() + directories_of(entries).len() == entries.len(),
    decreases entries.len(),
{
    reveal(Seq::filter);
    if entries.len() > 0 {
        let d = entries.drop_last();
        law_every_file_is_recorded(d);
        let ff = entries.filter(|e: ScannedEntry<D>| e is File);
        let fd = d.filter(|e: ScannedEntry<D>| e is File);
        let gf = entries.filter(|e: ScannedEntry<D>| e is Directory);
        let gd = d.filter(|e: ScannedEntry<D>| e is Directory);
        match entries.last() {
            ScannedEntry::File { .. } => {
                assert(ff == fd.push(entries.last()));
                assert(gf == gd);
                assert(files_of(entries) =~= ff.map_values(
                    |e: ScannedEntry<D>| (e->path@, e->size, e->created, e->modified),
                ));
                assert(directories_of(entries) =~= gf.map_values(|e: ScannedEntry<D>| e->Directory_0));
            },
            ScannedEntry::Directory(_) => {
                assert(ff == fd);
                assert(gf == gd.push(entries.last()));
                assert(files_of(entries) =~= ff.map_values(
                    |e: ScannedEntry<D>| (e->path@, e->size, e->created, e->modified),
                ));
                assert(directories_of(entries) =~= gf.map_values(|e: ScannedEntry<D>| e->Directory_0));
            },
        }
    }
}

/// Reading a directory stops at its first unreadable entry and keeps every
/// entry before it: when the first `k` entries were read and the next one
/// (if any) could not be, the entries taken in are exactly those `k`.
pub proof fn law_reading_stops_at_first_gap<E>(s: Seq<Option<E>>, k: int)
    requires
        0 <= k <= s.len(),
        forall|i: int| 0 <= i < k ==> #[trigger] s[i] is Some,
        k == s.len() || s[k] is None,
    ensures
        readable_prefix(s) == s.take(k).map_values(|o: Option<E>| o->0),
    decreases s.len(),
{
    if s.len() > 0 {
        let d = s.drop_last();
        let n = d.len() as int;
        if k == s.len() {
            assert(!has_gap(d)) by {
                if has_gap(d) {
                    let j = choose|j: int| 0 <= j < d.len() && #[trigger] d[j] is None;
                    assert(s[j] is Some);
                }
            }
            assert forall|i: int| 0 <= i < n implies #[trigger] d[i] is Some by {
                assert(s[i] is Some);
            }
            law_reading_stops_at_first_gap(d, n);
            assert(s[n] is Some);
            assert(d.take(n) =~= d);
            assert(s.take(k) =~= s);
            assert(readable_prefix(s) =~= s.take(k).map_values(|o: Option<E>| o->0));
        } else if k < n {
            assert forall|i: int| 0 <= i < k implies #[trigger] d[i] is Some by {
                assert(s[i] is Some);
            }
            assert(d[k] is None);
            law_reading_stops_at_first_gap(d, k);
            assert(has_gap(d));
            assert(d.take(k) =~= s.take(k));
        } else {
            assert forall|i: int| 0 <= i < n implies #[trigger] d[i] is Some by {
                assert(s[i] is Some);
            }
            law_reading_stops_at_first_gap(d, n);
            assert(!has_gap(d)) by {
                if has_gap(d) {
                    let j = choose|j: int| 0 <= j < d.len() && #[trigger] d[j] is None;
                    assert(s[j] is Some);
                }
            }
            assert(s.last() is None);
            assert(d.take(n) =~= s.take(k));
        }
    }
}

/// The directories among `entries`, in order.
pub open spec fn directories_of<D>(entries: Seq<ScannedEntry<D>>) -> Seq<D>
    decreases entries.len(),
{
    if entries.len() == 0 {
        Seq::empty()
    } else {
        match entries.last() {
            ScannedEntry::Directory(d) => directories_of(entries.drop_last()).push(d),
            ScannedEntry::File { .. } => directories_of(entries.drop_last()),
        }
    }
}

/// The files among `entries`, in order: path, size, creation and
/// modification times.
pub open spec fn files_of<D>(entries: Seq<ScannedEntry<D>>) -> Seq<(Seq<char>, u64, u64, u64)>
    decreases entries.len(),
{
    if entries.len() == 0 {
        Seq::empty()
    } else {
        match entries.last() {
            ScannedEntry::File { path, size, created, modified } => files_of(entries.drop_last()).push(
                (path@, size, created, modified),
            ),
            ScannedEntry::Directory(_) => files_of(entries.drop_last()),
        }
    }
}

/// Whether `r` records the file `f`, with the media type guessed from its
/// path.
pub open spec fn record_matches(r: FileRecord, f: (Seq<char>, u64, u64, u64)) -> bool {
    &&& r.path@ == f.0
    &&& r.size == f.1
    &&& r.created == f.2
    &&& r.modified == f.3
    &&& match r.content_type {
        Some(c) => path_first_mime_essence(f.0) == Some(c@),
        None => path_first_mime_essence(f.0) is None,
    }
}

// ---------------------------------------------------------------------------
// The whole walk of the TV show storage
// ---------------------------------------------------------------------------

/// A directory of a storage as the walk sees it: the entries that reading
/// it gives, in order, `None` standing for an entry that could not be read.
pub struct DirModel {
    pub entries: Seq<Option<ScannedEntry<DirModel>>>,
}

/// The subdirectories that the walk puts on its stack after reading `d`
/// (see `ScanTVShowStorage::take_entries`).
pub open spec fn subdirs(d: DirModel) -> Seq<DirModel> {
    directories_of(readable_prefix(d.entries))
}

/// The files that the walk records when it reads `d`.
pub open spec fn files_here(d: DirModel) -> Seq<(Seq<char>, u64, u64, u64)> {
    files_of(readable_prefix(d.entries))
}

/// One step of the walk: the directory on top of the stack is read, and its
/// subdirectories go on the stack in place of it.
pub open spec fn walk_step(stack: Seq<DirModel>) -> Seq<DirModel> {
    stack.drop_last() + subdirs(stack.last())
}

proof fn lemma_readable_prefix_from(s: Seq<Option<ScannedEntry<DirModel>>>, i: int)
    requires
        0 <= i < readable_prefix(s).len(),
    ensures
        exists|j: int| 0 <= j < s.len() && s[j] == Some(#[trigger] readable_prefix(s)[i]),
    decreases s.len(),
{
    let p = readable_prefix(s.drop_last());
    if i < p.len() {
        lemma_readable_prefix_from(s.drop_last(), i);
        let j = choose|j: int| 0 <= j < s.drop_last().len() && s.drop_last()[j] == Some(#[trigger] p[i]);
        assert(s[j] == Some(readable_prefix(s)[i]));
    } else {
        assert(s[s.len() - 1] == Some(readable_prefix(s)[i]));
    }
}

proof fn lemma_directories_from(e: Seq<ScannedEntry<DirModel>>, i: int)
    requires
        0 <= i < directories_of(e).len(),
    ensures
        exists|j: int| 0 <= j < e.len() && e[j] == ScannedEntry::Directory(#[trigger] directories_of(e)[i]),
    decreases e.len(),
{
    let p = directories_of(e.drop_last());
    if i < p.len() {
        lemma_directories_from(e.drop_last(), i);
        let j = choose|j: int| 0 <= j < e.drop_last().len() && e.drop_last()[j] == ScannedEntry::Directory(#[trigger] p[i]);
        assert(e[j] == ScannedEntry::Directory(directories_of(e)[i]));
    } else {
        assert(e[e.len() - 1] == ScannedEntry::Directory(directories_of(e)[i]));
    }
}

/// A subdirectory is part of the directory it was read from.
pub proof fn lemma_subdir_smaller(d: DirModel, i: int)
    requires
        0 <= i < subdirs(d).len(),
    ensures
        decreases_to!(d => subdirs(d)[i]),
{
    let e = readable_prefix(d.entries);
    lemma_directories_from(e, i);
    let j = choose|j: int| 0 <= j < e.len() && e[j] == ScannedEntry::Directory(#[trigger] directories_of(e)[i]);
    lemma_readable_prefix_from(d.entries, j);
    let k = choose|k: int| 0 <= k < d.entries.len() && d.entries[k] == Some(#[trigger] readable_prefix(d.entries)[j]);
    let c = subdirs(d)[i];
    assert(decreases_to!(d => d.entries));
    assert(decreases_to!(d.entries => d.entries[k]));
    assert(decreases_to!(d.entries[k] => d.entries[k]->0));
    assert(d.entries[k]->0 == ScannedEntry::<DirModel>::Directory(c));
    assert(decreases_to!(d.entries[k]->0 => d.entries[k]->0->Directory_0));
}

/// The files under `d`, in the order the walk records them: those of `d`
/// itself, then those under each of its subdirectories, the last one found
/// first.
pub open spec fn tree_files(d: DirModel) -> Seq<(Seq<char>, u64, u64, u64)>
    decreases d, subdirs(d).len() + 1,
{
    files_here(d) + subtree_files(d, subdirs(d).len())
}

/// The files under the first `k` subdirectories of `d`, the last one first.
pub open spec fn subtree_files(d: DirModel, k: nat) -> Seq<(Seq<char>, u64, u64, u64)>
    decreases d, k,
{
    if k == 0 || k > subdirs(d).len() {
        Seq::empty()
    } else {
        proof {
            lemma_subdir_smaller(d, k - 1);
        }
        tree_files(subdirs(d)[k - 1]) + subtree_files(d, (k - 1) as nat)
    }
}

/// The directories under `d`, `d` included, in the order the walk reads
/// them.
pub open spec fn tree_dirs(d: DirModel) -> Seq<DirModel>
    decreases d, subdirs(d).len() + 1,
{
    seq![d] + subtree_dirs(d, subdirs(d).len())
}

/// The directories under the first `k` subdirectories of `d`, the last one
/// first.
pub open spec fn subtree_dirs(d: DirModel, k: nat) -> Seq<DirModel>
    decreases d, k,
{
    if k == 0 || k > subdirs(d).len() {
        Seq::empty()
    } else {
        proof {
            lemma_subdir_smaller(d, k - 1);
        }
        tree_dirs(subdirs(d)[k - 1]) + subtree_dirs(d, (k - 1) as nat)
    }
}

/// The files still to be recorded under the directories of a stack, the
/// top of the stack first.
pub open spec fn stack_files(stack: Seq<DirModel>) -> Seq<(Seq<char>, u64, u64, u64)>
    decreases stack.len(),
{
    if stack.len() == 0 {
        Seq::empty()
    } else {
        tree_files(stack.last()) + stack_files(stack.drop_last())
    }
}

/// The directories still to be read under those of a stack, the top of the
/// stack first.
pub open spec fn stack_dirs(stack: Seq<DirModel>) -> Seq<DirModel>
    decreases stack.len(),
{
    if stack.len() == 0 {
        Seq::empty()
    } else {
        tree_dirs(stack.last()) + stack_dirs(stack.drop_last())
    }
}

proof fn lemma_stack_concat(a: Seq<DirModel>, b: Seq<DirModel>)
    ensures
        stack_files(a + b) == stack_files(b) + stack_files(a),
        stack_dirs(a + b) == stack_dirs(b) + stack_dirs(a),
    decreases b.len(),
{
    if b.len() == 0 {
        assert(a + b =~= a);
        assert(stack_files(b) + stack_files(a) =~= stack_files(a));
        assert(stack_dirs(b) + stack_dirs(a) =~= stack_dirs(a));
    } else {
        assert((a + b).drop_last() =~= a + b.drop_last());
        assert((a + b).last() == b.last());
        lemma_stack_concat(a, b.drop_last());
        assert(stack_files(a + b) =~= stack_files(b) + stack_files(a));
        assert(stack_dirs(a + b) =~= stack_dirs(b) + stack_dirs(a));
    }
}

proof fn lemma_subtrees_are_stack(d: DirModel, k: nat)
    requires
        k <= subdirs(d).len(),
    ensures
        subtree_files(d, k) == stack_files(subdirs(d).take(k as int)),
        subtree_dirs(d, k) == stack_dirs(subdirs(d).take(k as int)),
    decreases k,
{
    if k > 0 {
        lemma_subtrees_are_stack(d, (k - 1) as nat);
        let t = subdirs(d).take(k as int);
        assert(t.drop_last() =~= subdirs(d).take(k - 1));
        assert(t.last() == subdirs(d)[k - 1]);
    }
}

/// One step of the walk records the files of the directory it reads and
/// leaves exactly the rest to the stack.
proof fn lemma_walk_step(stack: Seq<DirModel>)
    requires
        stack.len() > 0,
    ensures
        files_here(stack.last()) + stack_files(walk_step(stack)) == stack_files(stack),
        seq![stack.last()] + stack_dirs(walk_step(stack)) == stack_dirs(stack),
{
    let d = stack.last();
    let n = subdirs(d).len();
    lemma_stack_concat(stack.drop_last(), subdirs(d));
    lemma_subtrees_are_stack(d, n);
    assert(subdirs(d).take(n as int) =~= subdirs(d));
    assert(files_here(d) + stack_files(walk_step(stack)) =~= stack_files(stack));
    assert(seq![d] + stack_dirs(walk_step(stack)) =~= stack_dirs(stack));
}

/// The files recorded in the first `k` steps of a walk.
pub open spec fn run_files(stacks: Seq<Seq<DirModel>>, k: nat) -> Seq<(Seq<char>, u64, u64, u64)>
    decreases k,
{
    if k == 0 {
        Seq::empty()
    } else {
        run_files(stacks, (k - 1) as nat) + files_here(stacks[k - 1].last())
    }
}

/// The directories read in the first `k` steps of a walk.
pub open spec fn run_dirs(stacks: Seq<Seq<DirModel>>, k: nat) -> Seq<DirModel>
    decreases k,
{
    if k == 0 {
        Seq::empty()
    } else {
        run_dirs(stacks, (k - 1) as nat).push(stacks[k - 1].last())
    }
}

/// After `k` steps of a walk from `root`, what was recorded and what is
/// left under the stack make up the whole tree.
proof fn lemma_run_so_far(root: DirModel, stacks: Seq<Seq<DirModel>>, k: nat)
    requires
        k < stacks.len(),
        stacks[0] == seq![root],
        forall|i: int| 0 <= i < stacks.len() - 1 ==> #[trigger] stacks[i].len() > 0 && stacks[i + 1] == walk_step(stacks[i]),
    ensures
        run_files(stacks, k) + stack_files(stacks[k as int]) == tree_files(root),
        run_dirs(stacks, k) + stack_dirs(stacks[k as int]) == tree_dirs(root),
    decreases k,
{
    if k == 0 {
        assert(seq![root].drop_last() =~= Seq::<DirModel>::empty());
        assert(seq![root].last() == root);
        assert(stack_files(Seq::<DirModel>::empty()) == Seq::<(Seq<char>, u64, u64, u64)>::empty());
        assert(stack_dirs(Seq::<DirModel>::empty()) == Seq::<DirModel>::empty());
        assert(stack_files(seq![root]) =~= tree_files(root));
        assert(stack_dirs(seq![root]) =~= tree_dirs(root));
        assert(run_files(stacks, 0) + stack_files(stacks[0]) =~= tree_files(root));
        assert(run_dirs(stacks, 0) + stack_dirs(stacks[0]) =~= tree_dirs(root));
    } else {
        let p = (k - 1) as nat;
        lemma_run_so_far(root, stacks, p);
        assert(stacks[p as int].len() > 0 && stacks[p as int + 1] == walk_step(stacks[p as int]));
        lemma_walk_step(stacks[p as int]);
        assert(run_files(stacks, k) + stack_files(stacks[k as int]) =~= run_files(stacks, p) + stack_files(
            stacks[p as int],
        ));
        assert(run_dirs(stacks, k) + stack_dirs(stacks[k as int]) =~= run_dirs(stacks, p) + stack_dirs(
            stacks[p as int],
        ));
    }
}

/// The walk over a storage, driven by `next_directory` and `take_entries`
/// from its root until the stack is empty (the stacks it goes through are
/// `stacks`), reads every directory reachable through readable entries once
/// and records every file of those directories once: the directories in
/// the order `tree_dirs` gives and the files in the order `tree_files` gives.
pub proof fn law_walk_reads_each_once(root: DirModel, stacks: Seq<Seq<DirModel>>)
    requires
        stacks.len() > 0,
        stacks[0] == seq![root],
        stacks.last().len() == 0,
        forall|k: int| 0 <= k < stacks.len() - 1 ==> #[trigger] stacks[k].len() > 0 && stacks[k + 1] == walk_step(stacks[k]),
    ensures
        run_files(stacks, (stacks.len() - 1) as nat) == tree_files(root),
        run_dirs(stacks, (stacks.len() - 1) as nat) == tree_dirs(root),
{
    let n = (stacks.len() - 1) as nat;
    lemma_run_so_far(root, stacks, n);
    assert(stack_files(stacks[n as int]) =~= Seq::<(Seq<char>, u64, u64, u64)>::empty());
    assert(stack_dirs(stacks[n as int]) =~= Seq::<DirModel>::empty());
    assert(run_files(stacks, n) + stack_files(stacks[n as int]) =~= run_files(stacks, n));
    assert(run_dirs(stacks, n) + stack_dirs(stacks[n as int]) =~= run_dirs(stacks, n));
}

} // verus!
