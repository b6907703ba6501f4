use entertainarr::entry::{DirectoryInfo, EntryInfo, FileInfo};
use entertainarr::storage::{SourceConfig, StorageConfig};
use entertainarr::worker::{
    RunnerAction, RunnerEvent, RunnerState, ScanEveryStorage, ScanStoragePath, ScanTVShowStorage,
    ScannedEntry, SyncEveryTVShow, SyncTVShow, SyncTVShowSeason, WorkerConfig,
};

fn dir(name: &str) -> EntryInfo {
    EntryInfo::Directory(DirectoryInfo { name: name.into(), created_at: 0 })
}

fn file(name: &str) -> EntryInfo {
    EntryInfo::File(FileInfo { name: name.into(), size: 0, created_at: 0, modified_at: 0 })
}

#[test]
fn scanning_a_directory_queues_its_subdirectories() {
    let scan = ScanStoragePath { name: "tv".into(), path: "".into() };
    let next = scan.execute(&vec![dir("a"), file("x.mkv"), dir("b")]);
    assert_eq!(
        next,
        vec![
            ScanStoragePath { name: "tv".into(), path: "a".into() },
            ScanStoragePath { name: "tv".into(), path: "b".into() },
        ]
    );
    let scan = ScanStoragePath { name: "tv".into(), path: "a".into() };
    let next = scan.execute(&vec![dir("S01"), file("y")]);
    assert_eq!(next, vec![ScanStoragePath { name: "tv".into(), path: "a/S01".into() }]);
    assert!(scan.execute(&vec![file("z")]).is_empty());
}

#[test]
fn full_scan_starts_at_every_root() {
    let storage = StorageConfig::new()
        .with_source("a".into(), SourceConfig::Local { path: "/a".into() })
        .with_source("b".into(), SourceConfig::Local { path: "/b".into() })
        .build();
    let mut scans = ScanEveryStorage.execute(&storage);
    scans.sort_by(|x, y| x.name.cmp(&y.name));
    assert_eq!(
        scans,
        vec![
            ScanStoragePath { name: "a".into(), path: "".into() },
            ScanStoragePath { name: "b".into(), path: "".into() },
        ]
    );
}

#[test]
fn syncs() {
    let r = SyncEveryTVShow.execute(&vec![4, 2, 9]);
    assert_eq!(r, vec![SyncTVShow { tvshow_id: 4 }, SyncTVShow { tvshow_id: 2 }, SyncTVShow { tvshow_id: 9 }]);
    let s = SyncTVShow { tvshow_id: 4 }.season_syncs(&vec![0, 1]);
    assert_eq!(
        s,
        vec![
            SyncTVShowSeason { tvshow_id: 4, season_number: 0 },
            SyncTVShowSeason { tvshow_id: 4, season_number: 1 },
        ]
    );
    assert!(!s[0].stores_episodes(0));
    assert!(s[0].stores_episodes(3));
}

#[test]
fn runner_reacts_to_events() {
    let mut r = RunnerState::new();
    assert!(r.running());
    assert_eq!(r.on_event(RunnerEvent::Tick), RunnerAction::Tick);
    assert_eq!(r.on_event(RunnerEvent::Notified), RunnerAction::Iterate);
    assert!(r.running());
    assert_eq!(r.on_event(RunnerEvent::Cancelled), RunnerAction::Stop);
    assert!(!r.running());
    r.on_event(RunnerEvent::Tick);
    assert!(!r.running());
}

#[test]
fn worker_defaults() {
    let c = WorkerConfig::default();
    assert_eq!(c.size, 100);
    assert_eq!(c.tick_interval, 60);
}

#[test]
fn walking_the_tvshow_storage() {
    let mut walk: ScanTVShowStorage<&str> = ScanTVShowStorage::new(Some("root"));
    assert_eq!(walk.next_directory(), Some("root"));
    let records = walk.take_entries(vec![
        Some(ScannedEntry::Directory("s1")),
        Some(ScannedEntry::File { path: "show/e.mkv".into(), size: 10, created: 1, modified: 2 }),
        Some(ScannedEntry::Directory("s2")),
        Some(ScannedEntry::File { path: "show/notes".into(), size: 3, created: 4, modified: 5 }),
    ]);
    assert_eq!(records.len(), 2);
    assert_eq!(records[0].path, "show/e.mkv");
    assert_eq!(records[0].content_type.as_deref(), Some("video/x-matroska"));
    assert_eq!((records[0].size, records[0].created, records[0].modified), (10, 1, 2));
    assert_eq!(records[1].content_type, None);
    assert_eq!(walk.next_directory(), Some("s2"));
    assert_eq!(walk.next_directory(), Some("s1"));
    assert_eq!(walk.next_directory(), None);
    let mut empty: ScanTVShowStorage<u8> = ScanTVShowStorage::new(None);
    assert_eq!(empty.next_directory(), None);
}

#[test]
fn reading_a_directory_stops_at_an_unreadable_entry() {
    let mut walk: ScanTVShowStorage<&str> = ScanTVShowStorage::new(None);
    let records = walk.take_entries(vec![
        Some(ScannedEntry::File { path: "a.mkv".into(), size: 1, created: 0, modified: 0 }),
        Some(ScannedEntry::Directory("kept")),
        None,
        Some(ScannedEntry::Directory("skipped")),
        Some(ScannedEntry::File { path: "b.mkv".into(), size: 2, created: 0, modified: 0 }),
    ]);
    assert_eq!(records.len(), 1);
    assert_eq!(records[0].path, "a.mkv");
    assert_eq!(walk.next_directory(), Some("kept"));
    assert_eq!(walk.next_directory(), None);
    let records = walk.take_entries(vec![None, Some(ScannedEntry::Directory("x"))]);
    assert!(records.is_empty());
    assert_eq!(walk.next_directory(), None);
}

#[test]
fn the_walk_reads_each_directory_once_depth_first() {
    fn file(path: &str) -> Option<ScannedEntry<&'static str>> {
        Some(ScannedEntry::File { path: path.into(), size: 1, created: 0, modified: 0 })
    }
    let listing = |dir: &str| -> Vec<Option<ScannedEntry<&'static str>>> {
        match dir {
            "root" => vec![file("r.mkv"), Some(ScannedEntry::Directory("a")), Some(ScannedEntry::Directory("b"))],
            "a" => vec![file("a/1.mkv"), Some(ScannedEntry::Directory("a/x"))],
            "a/x" => vec![file("a/x/2.mkv")],
            "b" => vec![file("b/3.mkv"), None, file("b/4.mkv")],
            _ => vec![],
        }
    };
    let mut walk: ScanTVShowStorage<&str> = ScanTVShowStorage::new(Some("root"));
    let mut dirs = Vec::new();
    let mut files = Vec::new();
    while let Some(dir) = walk.next_directory() {
        dirs.push(dir);
        for r in walk.take_entries(listing(dir)) {
            files.push(r.path);
        }
    }
    assert_eq!(dirs, vec!["root", "b", "a", "a/x"]);
    assert_eq!(files, vec!["r.mkv", "b/3.mkv", "a/1.mkv", "a/x/2.mkv"]);
}
