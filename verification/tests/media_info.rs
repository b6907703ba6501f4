use std::str::FromStr;

use entertainarr::media_info::{
    count_indent, parse_metadata, Duration, MediaInfo, MediaInfoError,
};

const BIGBUCKBUNNY_STDOUT: &str = "ffprobe version 6.1.1 Copyright (c) 2007-2023 the FFmpeg developers
  built with gcc 13.2.1 (GCC) 20230801
  configuration: --prefix=/usr --enable-gpl --enable-libx264
  libavutil      58. 29.100 / 58. 29.100
  libavcodec     60. 31.102 / 60. 31.102
  libavformat    60. 16.100 / 60. 16.100
Input #0, mov,mp4,m4a,3gp,3g2,mj2, from 'pipe:0':
  Metadata:
    major_brand     : M4V 
    minor_version   : 1
    compatible_brands: M4VEM4V mp42isom
    creation_time   : 2008-05-27T18:32:32.000000Z
  Duration: 00:09:56.46, start: 0.000000, bitrate: N/A
  Stream #0:0[0x1](und): Video: h264 (Constrained Baseline) (avc1 / 0x31637661), yuv420p(progressive), 640x360, 871 kb/s, 24 fps, 24 tbr, 24 tbn (default)
    Metadata:
      creation_time   : 2008-05-27T18:32:32.000000Z
      handler_name    : VideoHandler
      vendor_id       : [0][0][0][0]
  Stream #0:1[0x2](und): Audio: aac (LC) (mp4a / 0x6134706D), 48000 Hz, stereo, fltp, 125 kb/s (default)
    Metadata:
      creation_time   : 2008-05-27T18:32:32.000000Z
      handler_name    : SoundHandler
      vendor_id       : [0][0][0][0]
";

#[test]
fn parse_bigbuckbunny() {
    let res = MediaInfo::from_str(BIGBUCKBUNNY_STDOUT).unwrap();
    assert_eq!(res.metadata.get("major_brand").unwrap(), "M4V");
    assert_eq!(res.duration.unwrap().as_millis(), 596460);
}

#[test]
fn parse_duration() {
    assert_eq!(
        entertainarr::media_info::parse_duration("00:00:13.00").unwrap(),
        Duration::new(13, 0)
    );
    assert_eq!(
        entertainarr::media_info::parse_duration("00:01:13.1").unwrap(),
        Duration::new(73, 100_000_000)
    );
}

#[test]
fn bigbuckbunny_keeps_only_container_metadata() {
    let res = MediaInfo::from_str(BIGBUCKBUNNY_STDOUT).unwrap();
    assert_eq!(res.metadata.len(), 4);
    assert_eq!(res.metadata.get("minor_version").unwrap(), "1");
    assert_eq!(res.metadata.get("compatible_brands").unwrap(), "M4VEM4V mp42isom");
    assert_eq!(res.metadata.get("creation_time").unwrap(), "2008-05-27T18:32:32.000000Z");
    assert!(res.metadata.get("handler_name").is_none());
    assert_eq!(res.duration.unwrap().as_secs(), 596);
    assert_eq!(res.duration.unwrap().subsec_nanos(), 460_000_000);
}

#[test]
fn report_without_input_line_is_refused() {
    let res = MediaInfo::from_str("ffprobe version 6\n  Duration: 00:00:01.00\n");
    assert_eq!(res.unwrap_err(), MediaInfoError::MissingInputLine);
    assert_eq!(MediaInfoError::MissingInputLine.message(), "unable to find `Input` line");
    assert_eq!(MediaInfo::from_str("").unwrap_err(), MediaInfoError::MissingInputLine);
}

#[test]
fn input_line_alone_gives_nothing() {
    let res = MediaInfo::from_str("Input #0, matroska, from 'x':").unwrap();
    assert_eq!(res.metadata.len(), 0);
    assert!(res.duration.is_none());
}

#[test]
fn later_metadata_block_replaces_earlier_one() {
    let input = "Input #0\n  Metadata:\n    a: 1\n    b : 2\n  Metadata:\n    a: 3\n";
    let res = MediaInfo::from_str(input).unwrap();
    assert_eq!(res.metadata.len(), 1);
    assert_eq!(res.metadata.get("a").unwrap(), "3");
    assert!(res.metadata.get("b").is_none());
}

#[test]
fn later_metadata_line_wins() {
    let input = "Input #0\n  Metadata:\n    a: 1\n    nocolon\n    a :  2 \n";
    let res = MediaInfo::from_str(input).unwrap();
    assert_eq!(res.metadata.len(), 1);
    assert_eq!(res.metadata.get("a").unwrap(), "2");
}

#[test]
fn block_ends_at_first_line_not_indented_by_two() {
    let input = "Input #0\n Duration: 00:00:05.00\n  Duration: 00:00:07.00\n";
    let res = MediaInfo::from_str(input).unwrap();
    assert!(res.duration.is_none());
    let input = "Input #0\n  Duration: 00:00:05.00\nOutput\n  Duration: 00:00:07.00\n";
    let res = MediaInfo::from_str(input).unwrap();
    assert_eq!(res.duration.unwrap(), Duration::new(5, 0));
}

#[test]
fn unreadable_duration_clears_it() {
    let input = "Input #0\n  Duration: 00:00:05.00\n  Duration: N/A, start: 0\n";
    let res = MediaInfo::from_str(input).unwrap();
    assert!(res.duration.is_none());
}

#[test]
fn duration_line_without_duration_cell_keeps_it() {
    let mut info = MediaInfo::empty();
    info.parse_duration("Duration: 00:00:02.5, start: 0.0");
    assert_eq!(info.duration.unwrap(), Duration::new(2, 500_000_000));
    info.parse_duration("start: 0.0, bitrate: 12");
    assert_eq!(info.duration.unwrap(), Duration::new(2, 500_000_000));
}

#[test]
fn duration_forms() {
    assert_eq!(entertainarr::media_info::parse_duration("13").unwrap(), Duration::new(13, 0));
    assert_eq!(entertainarr::media_info::parse_duration("1:00:00").unwrap(), Duration::new(3600, 0));
    assert_eq!(entertainarr::media_info::parse_duration("+1:+2").unwrap(), Duration::new(62, 0));
    assert_eq!(entertainarr::media_info::parse_duration("0.123456789").unwrap(), Duration::new(0, 123_456_789));
    assert_eq!(entertainarr::media_info::parse_duration("0.1234567891").unwrap(), Duration::new(0, 123_456_789));
    assert_eq!(entertainarr::media_info::parse_duration("2.000000001").unwrap().subsec_nanos(), 1);
    assert!(entertainarr::media_info::parse_duration("").is_none());
    assert!(entertainarr::media_info::parse_duration(".5").is_none());
    assert!(entertainarr::media_info::parse_duration("13.").is_none());
    assert!(entertainarr::media_info::parse_duration("13.x").is_none());
    assert_eq!(entertainarr::media_info::parse_duration("1.+5").unwrap(), Duration::new(1, 50_000_000));
    assert_eq!(entertainarr::media_info::parse_duration("0:01.+25").unwrap(), Duration::new(1, 25_000_000));
    assert!(entertainarr::media_info::parse_duration("1.+").is_none());
    assert!(entertainarr::media_info::parse_duration("1.++5").is_none());
    assert!(entertainarr::media_info::parse_duration("1.5+").is_none());
    assert!(entertainarr::media_info::parse_duration("00::13").is_none());
    assert!(entertainarr::media_info::parse_duration("-1").is_none());
    assert!(entertainarr::media_info::parse_duration("N/A").is_none());
    assert!(entertainarr::media_info::parse_duration("307445734561825861:00").is_none());
    assert_eq!(
        entertainarr::media_info::parse_duration("307445734561825860:15").unwrap().as_secs(),
        18_446_744_073_709_551_615
    );
}

#[test]
fn duration_carries_whole_seconds() {
    let d = Duration::new(1, 2_500_000_000);
    assert_eq!(d.as_secs(), 3);
    assert_eq!(d.subsec_nanos(), 500_000_000);
    assert_eq!(d.as_millis(), 3500);
}

#[test]
fn count_indent_counts_leading_spaces() {
    assert_eq!(count_indent(""), 0);
    assert_eq!(count_indent("abc"), 0);
    assert_eq!(count_indent("  a b"), 2);
    assert_eq!(count_indent("    "), 4);
    assert_eq!(count_indent("\t a"), 0);
}

#[test]
fn parse_metadata_stops_at_other_indent() {
    let lines: Vec<&str> = vec!["  next", "    b: 2", "    a: 1"];
    let mut stack: Vec<Vec<char>> = lines.iter().map(|l| l.chars().collect()).collect();
    let m = parse_metadata(4, &mut stack);
    assert_eq!(m.len(), 2);
    assert_eq!(m.get("a").unwrap(), "1");
    assert_eq!(m.get("b").unwrap(), "2");
    assert_eq!(stack.len(), 1);
    assert_eq!(stack[0].iter().collect::<String>(), "  next");
}
