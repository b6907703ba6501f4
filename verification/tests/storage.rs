use entertainarr::entry::{DirectoryInfo, EntryInfo, EntryKind, FileInfo};
use entertainarr::named_map::NamedMap;
use entertainarr::storage::{
    child_path, content_type, content_type_or_default, guess_content_type, region_from_name, AnySource, LocalSource,
    Region, SourceConfig, StorageConfig,
};

fn local(path: &str) -> SourceConfig {
    SourceConfig::Local { path: path.to_string() }
}

#[test]
fn storage_is_built_from_its_configuration() {
    let config = StorageConfig::new()
        .with_source("movies".to_string(), local("/srv/movies"))
        .with_source(
            "cloud".to_string(),
            SourceConfig::PCloud {
                region: "eu".into(),
                username: "me".into(),
                password: "SECRET-REDACTED".into(),
                path: "/tv".into(),
            },
        )
        .with_source("movies".to_string(), local("/data/movies"));
    let storage = config.build();
    let mut names = storage.sources();
    names.sort();
    assert_eq!(names, vec!["cloud".to_string(), "movies".to_string()]);
    assert!(storage.source("movies") == Some(&AnySource::Local(LocalSource { root: "/data/movies".into() })));
    match storage.source("cloud") {
        Some(AnySource::PCloud(p)) => {
            assert_eq!(p.region, Region::Eu);
            assert_eq!(p.username, "me");
            assert_eq!(p.root, "/tv");
        }
        Some(AnySource::Local(l)) => panic!("unexpected local source {:?}", l),
        None => panic!("no source named cloud"),
    }
    assert!(storage.source("music").is_none());
}

#[test]
fn add_source_replaces_by_name() {
    let mut config = StorageConfig::new();
    config.add_source("a".into(), local("1"));
    config.add_source("a".into(), local("2"));
    let storage = config.build();
    assert_eq!(storage.sources(), vec!["a".to_string()]);
    assert!(storage.source("a") == Some(&AnySource::Local(LocalSource { root: "2".into() })));
}

#[test]
fn regions_by_name() {
    assert_eq!(region_from_name("eu"), Region::Eu);
    assert_eq!(region_from_name("us"), Region::Us);
    assert_eq!(region_from_name("EU"), Region::Other("EU".into()));
    assert_eq!(region_from_name("api.example"), Region::Other("api.example".into()));
}

#[test]
fn local_child_paths_lose_one_leading_slash() {
    assert_eq!(child_path("/a/b.mkv"), "a/b.mkv");
    assert_eq!(child_path("a/b.mkv"), "a/b.mkv");
    assert_eq!(child_path("//a"), "/a");
    assert_eq!(child_path(""), "");
}

#[test]
fn content_types_are_guessed_from_the_path() {
    assert_eq!(content_type("show/S01/e.mp4"), "video/mp4");
    assert_eq!(content_type("cover.png"), "image/png");
    assert_eq!(content_type("README"), "application/octet-stream");
    assert_eq!(guess_content_type("a.mkv"), Some("video/x-matroska".to_string()));
    assert_eq!(guess_content_type("noext"), None);
}

#[test]
fn entry_kinds() {
    let d = EntryInfo::Directory(DirectoryInfo { name: "S01".into(), created_at: 1 });
    let f = EntryInfo::File(FileInfo { name: "e.mkv".into(), size: 5, created_at: 1, modified_at: 2 });
    assert_eq!(d.kind(), EntryKind::Directory);
    assert_eq!(f.kind(), EntryKind::File);
}

#[test]
fn named_map_reads_back_what_was_written() {
    let mut m: NamedMap<String> = NamedMap::new();
    assert_eq!(m.len(), 0);
    assert!(m.get("k").is_none());
    m.insert("k".into(), "v".into());
    m.insert("j".into(), "w".into());
    assert_eq!(m.get("k").unwrap(), "v");
    m.insert("k".into(), "x".into());
    assert_eq!(m.get("k").unwrap(), "x");
    assert_eq!(m.get("j").unwrap(), "w");
    assert_eq!(m.len(), 2);
    assert_eq!(m.names(), vec!["k".to_string(), "j".to_string()]);
}

#[test]
fn content_type_falls_back_to_octet_stream() {
    assert_eq!(content_type_or_default(Some("text/html".to_string())), "text/html");
    assert_eq!(content_type_or_default(None), "application/octet-stream");
}
