use entertainarr::entry::FileInfo;
use entertainarr::tvshow::{
    episode_file_prefix, folder_name, normalize_title, season_directory, select_episode_files,
    tvshow_file_from_groups, with_year, AnalyseFile, AnalysisOutcome, FileType, TVShowFile,
    TVShowFilenameParser,
};

fn check(filepath: &str, title: &str, year: Option<u16>, season: u16, episode: u16) {
    let parser = TVShowFilenameParser::default();
    let detected = parser.detect(filepath).unwrap();
    assert_eq!(detected.title, title);
    assert_eq!(detected.year, year);
    assert_eq!(detected.season, season);
    assert_eq!(detected.episode, episode);
}

#[test]
fn should_extract_name_season_and_episode() {
    check(
        "the-umbrella-academy_2019/S01/The_Umbrella_Academy_S01E05.mkv",
        "the umbrella academy",
        None,
        1,
        5,
    );
}

#[test]
fn should_extract_with_year_in_filename() {
    check("the-simpsons_1989/S36/the-simpsons_1989_S36E07.mkv", "the simpsons", Some(1989), 36, 7);
}

#[test]
fn should_extract_single_word() {
    check("disenchantment_2018/S01/disenchantment_2018_S01E13.mkv", "disenchantment", Some(2018), 1, 13);
}

#[test]
fn should_extract_different_space_schemes() {
    check("big-mouth_2017/S01/big-mouth_2017_S01E03.mkv", "big mouth", Some(2017), 1, 3);
}

#[test]
fn paths_without_episode_are_not_detected() {
    let parser = TVShowFilenameParser::default();
    assert!(parser.detect("movies/big-buck-bunny.mkv").is_none());
    assert!(parser.detect("show/S01E02").is_none());
    assert!(parser.detect("").is_none());
}

#[test]
fn season_number_too_large_is_not_detected() {
    let parser = TVShowFilenameParser::default();
    assert!(parser.detect("show_S70000E01.mkv").is_none());
    let lower = parser.detect("Show_s02e03.mp4").unwrap();
    assert_eq!(lower.title, "show");
    assert_eq!((lower.season, lower.episode), (2, 3));
}

#[test]
fn groups_are_read_into_an_episode() {
    let g = |s: &str| Some(s.to_string());
    let groups = vec![g("all"), g("My-Show"), g("2020"), None, g("03"), g("11")];
    let t = tvshow_file_from_groups(&groups).unwrap();
    assert_eq!(
        t,
        TVShowFile { title: "my show".to_string(), year: Some(2020), season: 3, episode: 11 }
    );
    let groups = vec![g("all"), None, None, g("__Other  Show__"), g("1"), g("2")];
    let t = tvshow_file_from_groups(&groups).unwrap();
    assert_eq!(t.title, "other show");
    assert_eq!(t.year, None);
    let groups = vec![g("all"), g("x"), g("99999"), None, g("1"), g("2")];
    assert_eq!(tvshow_file_from_groups(&groups).unwrap().year, None);
    let groups = vec![g("all"), None, None, None, g("1"), g("2")];
    assert!(tvshow_file_from_groups(&groups).is_none());
    let groups = vec![g("all"), g("x"), None, None, g("1")];
    assert!(tvshow_file_from_groups(&groups).is_none());
}

#[test]
fn titles_are_normalised() {
    let n = |s: &str| normalize_title(&s.chars().collect::<Vec<_>>()).into_iter().collect::<String>();
    assert_eq!(n("the-umbrella_academy"), "the umbrella academy");
    assert_eq!(n("  --a__b  c- "), "a b c");
    assert_eq!(n("---"), "");
    assert_eq!(n(""), "");
    assert_eq!(n("a\tb"), "a\tb");
    assert_eq!(n(&n("x - y")), n("x - y"));
}

#[test]
fn file_types_follow_the_extension() {
    assert_eq!(FileType::detect("episode.mkv"), Some(FileType::Video));
    assert_eq!(FileType::detect("a.b.MP4"), Some(FileType::Video));
    assert_eq!(FileType::detect("song.mp3"), Some(FileType::Audio));
    assert_eq!(FileType::detect("cover.png"), Some(FileType::Image));
    assert_eq!(FileType::detect("notes.txt"), None);
    assert_eq!(FileType::detect("no-extension"), None);
    assert_eq!(FileType::detect("trailing."), None);
}

fn file(name: &str) -> FileInfo {
    FileInfo { name: name.to_string(), size: 1, created_at: 2, modified_at: 3 }
}

#[test]
fn analysing_a_file() {
    let a = AnalyseFile { source: "tv".into(), path: "big-mouth_2017/S01".into(), file: file("big-mouth_2017_S01E03.mkv") };
    assert_eq!(a.relative_path(), "big-mouth_2017/S01/big-mouth_2017_S01E03.mkv");
    match a.execute() {
        AnalysisOutcome::Video(Some(t)) => {
            assert_eq!(t.title, "big mouth");
            assert_eq!((t.year, t.season, t.episode), (Some(2017), 1, 3));
        }
        other => panic!("unexpected {other:?}"),
    }
    let a = AnalyseFile { source: "tv".into(), path: "".into(), file: file("holiday.mkv") };
    assert_eq!(a.relative_path(), "holiday.mkv");
    assert_eq!(a.execute(), AnalysisOutcome::Video(None));
    let a = AnalyseFile { source: "tv".into(), path: "x".into(), file: file("cover.jpg") };
    assert_eq!(a.execute(), AnalysisOutcome::Unsupported(FileType::Image));
    let a = AnalyseFile { source: "tv".into(), path: "x".into(), file: file("README") };
    assert_eq!(a.execute(), AnalysisOutcome::Undetected);
}

#[test]
fn folder_names_are_slugs_with_the_year() {
    assert_eq!(folder_name("The Simpsons", Some(1989)), "the-simpsons_1989");
    assert_eq!(folder_name("Big Mouth!", None), "big-mouth");
    assert_eq!(folder_name("Crème brûlée", Some(-44)), "creme-brulee_-44");
    assert_eq!(folder_name("", Some(0)), "_0");
}

#[test]
fn season_directories_and_episode_prefixes() {
    assert_eq!(season_directory("the-simpsons_1989", 36), "the-simpsons_1989/S36");
    assert_eq!(season_directory("show", 1), "show/S01");
    assert_eq!(season_directory("", 7), "S07");
    assert_eq!(season_directory("show", 123), "show/S123");
    assert_eq!(episode_file_prefix("the-simpsons_1989", 36, 7), "the-simpsons_1989_S36E07");
    assert_eq!(episode_file_prefix("show", 0, 100), "show_S00E100");
}

#[test]
fn episode_files_are_selected_by_prefix() {
    let names = vec![
        Some("show_S01E02.mkv".to_string()),
        None,
        Some("show_S01E03.mkv".to_string()),
        Some("show_S01E02.en.srt".to_string()),
        Some("other".to_string()),
    ];
    assert_eq!(select_episode_files(&names, "show_S01E02"), vec![0, 3]);
    assert_eq!(select_episode_files(&names, ""), vec![0, 2, 3, 4]);
    assert_eq!(select_episode_files(&Vec::new(), "x"), Vec::<usize>::new());
}

#[test]
fn file_types_from_media_type_names() {
    let names = |v: &[&str]| v.iter().map(|s| s.to_string()).collect::<Vec<String>>();
    assert_eq!(FileType::from_type_names(&names(&["video"])), Some(FileType::Video));
    assert_eq!(FileType::from_type_names(&names(&["text", "audio"])), Some(FileType::Audio));
    assert_eq!(FileType::from_type_names(&names(&["image", "video"])), Some(FileType::Image));
    assert_eq!(FileType::from_type_names(&names(&["text", "application"])), None);
    assert_eq!(FileType::from_type_names(&names(&["videos", "Video"])), None);
    assert_eq!(FileType::from_type_names(&Vec::new()), None);
}

#[test]
fn slugs_take_the_year_after_an_underscore() {
    assert_eq!(with_year("the-office".to_string(), Some(2005)), "the-office_2005");
    assert_eq!(with_year("the-office".to_string(), None), "the-office");
    assert_eq!(with_year(String::new(), Some(-12)), "_-12");
    assert_eq!(with_year("x".to_string(), Some(i32::MIN)), "x_-2147483648");
}
