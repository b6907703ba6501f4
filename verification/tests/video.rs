use entertainarr::video::{
    probe_command, stdio_unavailable, Builder, Format, TranscodeError, TranscoderState, WaitStep,
};

#[test]
fn format_names() {
    assert_eq!(Format::Mp4.as_str(), "mp4");
    assert_eq!(Format::Mp4.as_mime(), "video/mp4");
}

#[test]
fn transcoding_command_line() {
    let cmd = Builder::new(Format::Mp4).command();
    assert_eq!(cmd.program, "ffmpeg");
    assert_eq!(
        cmd.args,
        vec!["-y", "-i", "pipe:0", "-f", "mp4", "-c", "copy", "-movflags", "frag_keyframe+empty_moov", "pipe:1"]
    );
    let mut args = vec!["x".to_string()];
    Builder::new(Format::Mp4).with_args(&mut args);
    assert_eq!(args.len(), 7);
    assert_eq!(args[1], "-f");
}

#[test]
fn probing_command_line() {
    let cmd = probe_command();
    assert_eq!(cmd.program, "ffprobe");
    assert_eq!(cmd.args, vec!["-i", "pipe:0"]);
}

#[test]
fn stdio_error() {
    assert_eq!(stdio_unavailable(), TranscodeError::StdioUnavailable);
    assert_eq!(stdio_unavailable().message(), "unable to get stdio from child process");
}

#[test]
fn waiting_after_abort_kills_first() {
    let mut s = TranscoderState::new();
    assert_eq!(s.wait_steps(), vec![WaitStep::WaitChild]);
    s.abort();
    assert_eq!(
        s.wait_steps(),
        vec![WaitStep::KillChild, WaitStep::JoinReader, WaitStep::JoinWriter, WaitStep::WaitChild]
    );
}
