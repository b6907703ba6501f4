//! Transcoding: the output formats, the command lines that run `ffmpeg` and
//! `ffprobe`, and what waiting for a transcoder involves.
use vstd::prelude::*;

verus! {

broadcast use vstd::string::group_string_axioms;

/// An output format of the transcoder.
#[derive(Clone, Copy, Debug, PartialEq, Eq)]
pub enum Format {
    Mp4,
}

impl Format {
    /// The format's short name.
    pub fn as_str(&self) -> (r: &'static str)
        ensures
            r@ == "mp4"@,
    {
        match self {
            Format::Mp4 => "mp4",
        }
    }

    /// The format's media type.
    pub fn as_mime(&self) -> (r: &'static str)
        ensures
            r@ == "video/mp4"@,
    {
        match self {
            Format::Mp4 => "video/mp4",
        }
    }
}

/// A program to run and its arguments.
#[derive(Clone, Debug, PartialEq, Eq)]
pub struct CommandLine {
    pub program: String,
    pub args: Vec<String>,
}

/// The text views of a list of arguments.
pub open spec fn args_view(args: Seq<String>) -> Seq<Seq<char>> {
    args.map_values(|a: String| a@)
}

/// The arguments that select the output format.
pub open spec fn format_args(format: Format) -> Seq<Seq<char>> {
    match format {
        Format::Mp4 => seq![
            "-f"@,
            "mp4"@,
            "-c"@,
            "copy"@,
            "-movflags"@,
            "frag_keyframe+empty_moov"@,
        ],
    }
}

/// The arguments of a transcoding `ffmpeg` run: overwrite, read standard
/// input, the format's arguments, write standard output.
pub open spec fn transcode_args(format: Format) -> Seq<Seq<char>> {
    seq!["-y"@, "-i"@, "pipe:0"@] + format_args(format) + seq!["pipe:1"@]
}

/// Appends `a` to `args`.
fn push_arg(args: &mut Vec<String>, a: &str)
    ensures
        args_view(final(args)@) == args_view(old(args)@).push(a@),
{
    let ghost before = old(args)@;
    args.push(a.to_owned());
    proof {
        assert(args_view(args@) =~= args_view(before).push(a@));
    }
}

/// Builds the transcoder for an output format.
#[derive(Clone, Copy, Debug)]
pub struct Builder {
    format: Format,
}

impl Builder {
    /// The format this builder transcodes to.
    pub closed spec fn format(&self) -> Format {
        self.format
    }

    /// A builder for `format`.
    pub fn new(format: Format) -> (r: Builder)
        ensures
            r.format() == format,
    {
        Builder { format }
    }

    /// Appends the arguments that select the output format to `args`.
    pub fn with_args(&self, args: &mut Vec<String>)
        ensures
            args_view(final(args)@) == args_view(old(args)@) + format_args(self.format()),
    {
        let ghost start = args_view(args@);
        match self.format {
            Format::Mp4 => {
                push_arg(args, "-f");
                push_arg(args, "mp4");
                push_arg(args, "-c");
                push_arg(args, "copy");
                push_arg(args, "-movflags");
                push_arg(args, "frag_keyframe+empty_moov");
            },
        }
        assert(args_view(args@) =~= start + format_args(self.format()));
    }

    /// The `ffmpeg` command line that transcodes standard input into
    /// standard output (see `transcode_args`).
    pub fn command(&self) -> (r: CommandLine)
        ensures
            r.program@ == "ffmpeg"@,
            args_view(r.args@) == transcode_args(self.format()),
    {
        let mut args: Vec<String> = Vec::new();
        push_arg(&mut args, "-y");
        push_arg(&mut args, "-i");
        push_arg(&mut args, "pipe:0");
        self.with_args(&mut args);
        push_arg(&mut args, "pipe:1");
        assert(args_view(args@) =~= transcode_args(self.format()));
        CommandLine { program: "ffmpeg".to_owned(), args }
    }
}

/// The `ffprobe` command line that reports on standard input.
pub fn probe_command() -> (r: CommandLine)
    ensures
        r.program@ == "ffprobe"@,
        args_view(r.args@) == seq!["-i"@, "pipe:0"@],
{
    let mut args: Vec<String> = Vec::new();
    push_arg(&mut args, "-i");
    push_arg(&mut args, "pipe:0");
    assert(args_view(args@) =~= seq!["-i"@, "pipe:0"@]);
    CommandLine { program: "ffprobe".to_owned(), args }
}

/// Why a transcoder could not be started.
#[derive(Clone, Copy, Debug, PartialEq, Eq)]
pub enum TranscodeError {
    /// The child process did not hand out its standard input or output.
    StdioUnavailable,
}

impl TranscodeError {
    /// The message that describes the error.
    pub fn message(&self) -> (r: &'static str)
        ensures
            r@ == "unable to get stdio from child process"@,
    {
        match self {
            TranscodeError::StdioUnavailable => "unable to get stdio from child process",
        }
    }
}

/// The error for a child process without standard input or output.
pub fn stdio_unavailable() -> (r: TranscodeError)
    ensures
        r == TranscodeError::StdioUnavailable,
{
    TranscodeError::StdioUnavailable
}

/// One step of waiting for a transcoder to finish.
#[derive(Clone, Copy, Debug, PartialEq, Eq)]
pub enum WaitStep {
    /// Kill the child process.
    KillChild,
    /// Wait for the task that feeds the child's input.
    JoinReader,
    /// Wait for the task that drains the child's output.
    JoinWriter,
    /// Wait for the child process to exit.
    WaitChild,
}

/// The state of a running transcoder that decides how waiting goes.
#[derive(Clone, Copy, Debug, PartialEq, Eq)]
pub struct TranscoderState {
    pub cancelled: bool,
}

impl TranscoderState {
    /// A transcoder that runs.
    pub fn new() -> (r: TranscoderState)
        ensures
            !r.cancelled,
    {
        TranscoderState { cancelled: false }
    }

    /// Asks the transcoder to stop.
    pub fn abort(&mut self)
        ensures
            final(self).cancelled,
    {
        self.cancelled = true;
    }

    /// The steps of waiting: once aborted, the child is killed and both copy
    /// tasks are awaited first; in every case the child is then awaited.
    pub fn wait_steps(&self) -> (r: Vec<WaitStep>)
        ensures
            r@ == (if self.cancelled {
                seq![WaitStep::KillChild, WaitStep::JoinReader, WaitStep::JoinWriter, WaitStep::WaitChild]
            } else {
                seq![WaitStep::WaitChild]
            }),
    {
        let mut r: Vec<WaitStep> = Vec::new();
        if self.cancelled {
            r.push(WaitStep::KillChild);
            r.push(WaitStep::JoinReader);
            r.push(WaitStep::JoinWriter);
        }
        r.push(WaitStep::WaitChild);
        assert(r@ =~= (if self.cancelled {
            seq![WaitStep::KillChild, WaitStep::JoinReader, WaitStep::JoinWriter, WaitStep::WaitChild]
        } else {
            seq![WaitStep::WaitChild]
        }));
        r
    }
}

/// Waiting always ends by waiting for the child, and the child is killed
/// exactly when the transcoder was aborted.
pub proof fn law_wait_ends_with_child(s: TranscoderState, steps: Seq<WaitStep>)
    requires
        steps == (if s.cancelled {
            seq![WaitStep::KillChild, WaitStep::JoinReader, WaitStep::JoinWriter, WaitStep::WaitChild]
        } else {
            seq![WaitStep::WaitChild]
        }),
    ensures
        steps.len() > 0 && steps.last() == WaitStep::WaitChild,
        steps.contains(WaitStep::KillChild) <==> s.cancelled,
{
    if !s.cancelled {
        assert(steps[0] == WaitStep::WaitChild);
    } else {
        assert(steps[0] == WaitStep::KillChild);
    }
}

} // verus!
