//! Reading the report that `ffprobe` prints on its error stream: the
//! container metadata and the duration of the input.
use vstd::prelude::*;

use crate::named_map::NamedMap;
use crate::text::{
    all_digits, chars_of, digit_value, digits_u64, digits_value, has_prefix, is_digit, only_digits, parse_u64, parsed_u64,
    same_chars, split, split_chars, split_once, split_once_chars, starts_with, string_of, trim,
    trim_chars,
};

verus! {

broadcast use vstd::string::group_string_axioms;

// ---------------------------------------------------------------------------
// Durations
// ---------------------------------------------------------------------------

/// A span of time: whole seconds and the nanoseconds beyond them.
#[derive(Clone, Copy, Debug, PartialEq, Eq)]
pub struct Duration {
    secs: u64,
    nanos: u32,
}

/// One billion: the nanoseconds in a second.
pub open spec fn nanos_per_sec() -> nat {
    1_000_000_000
}

impl View for Duration {
    /// Whole seconds and the nanoseconds beyond them (always below one second).
    type V = (nat, nat);

    closed spec fn view(&self) -> (nat, nat) {
        (self.secs as nat, self.nanos as nat)
    }
}

impl Duration {
    /// The invariant of a duration: the nanoseconds make less than a second.
    pub closed spec fn wf(self) -> bool {
        self.nanos < 1_000_000_000
    }

    /// `secs` seconds and `nanos` nanoseconds; whole seconds in `nanos` carry
    /// over into the seconds.
    pub fn new(secs: u64, nanos: u32) -> (r: Duration)
        requires
            secs + nanos / 1_000_000_000 <= u64::MAX,
        ensures
            r.wf(),
            r@ == ((secs + nanos / 1_000_000_000) as nat, (nanos % 1_000_000_000) as nat),
    {
        let carry = (nanos / 1_000_000_000) as u64;
        Duration { secs: secs + carry, nanos: nanos % 1_000_000_000 }
    }

    /// The whole seconds.
    pub fn as_secs(&self) -> (r: u64)
        ensures
            r == self@.0,
    {
        self.secs
    }

    /// The nanoseconds beyond the whole seconds.
    pub fn subsec_nanos(&self) -> (r: u32)
        ensures
            r == self@.1,
    {
        self.nanos
    }

    /// The whole milliseconds in the duration.
    pub fn as_millis(&self) -> (r: u128)
        ensures
            r == self@.0 * 1000 + self@.1 / 1_000_000,
    {
        self.secs as u128 * 1000 + (self.nanos / 1_000_000) as u128
    }
}

/// Ten to the power `n`.
pub open spec fn pow10(n: nat) -> nat
    decreases n,
{
    if n == 0 {
        1
    } else {
        10 * pow10((n - 1) as nat)
    }
}

/// The nanoseconds that the decimal fraction with digits `f` stands for,
/// cut after the ninth digit.
pub open spec fn fraction_nanos(f: Seq<char>) -> nat {
    if f.len() <= 9 {
        digits_value(f) * pow10((9 - f.len()) as nat)
    } else {
        digits_value(f.take(9))
    }
}

/// The seconds that clock fields such as `["01", "02", "03"]` stand for,
/// each field counting sixty of the next; `None` when a field is not a
/// number or a partial sum goes above `u64::MAX`.
pub open spec fn clock_seconds(cells: Seq<Seq<char>>) -> Option<nat>
    decreases cells.len(),
{
    if cells.len() == 0 {
        Some(0)
    } else {
        match (clock_seconds(cells.drop_last()), parsed_u64(cells.last())) {
            (Some(a), Some(c)) => if a * 60 + c <= u64::MAX {
                Some((a * 60 + c) as nat)
            } else {
                None
            },
            _ => None,
        }
    }
}

/// The nanoseconds of the text after the `.` of a timestamp: its digits
/// read as a decimal fraction; a leading `+` counts as one more place, so
/// that `+5` stands for five hundredths, as when the text is read as a
/// number and scaled down by one place per character. Any other text
/// (empty, a sign other than a leading `+`, an exponent, a second `.`) is
/// refused.
pub open spec fn fraction_text_nanos(f: Seq<char>) -> Option<nat> {
    if f.len() > 0 && all_digits(f) {
        Some(fraction_nanos(f))
    } else if f.len() > 1 && f[0] == '+' && all_digits(f.drop_first()) {
        Some(fraction_nanos(seq!['0'] + f.drop_first()))
    } else {
        None
    }
}

/// The duration that a timestamp such as `00:01:13.1` writes, as whole
/// seconds and nanoseconds: clock fields separated by `:`, then optionally
/// `.` and a fraction of a second (see `fraction_text_nanos`).
pub open spec fn duration_value(s: Seq<char>) -> Option<(nat, nat)> {
    let (whole, frac) = match split_once(s, '.') {
        Some((a, b)) => (a, Some(b)),
        None => (s, None),
    };
    let nanos = match frac {
        None => Some(0nat),
        Some(f) => fraction_text_nanos(f),
    };
    match (clock_seconds(split(whole, ':')), nanos) {
        (Some(secs), Some(n)) => Some((secs, n)),
        _ => None,
    }
}

/// The view of an optional duration.
pub open spec fn opt_duration_view(d: Option<Duration>) -> Option<(nat, nat)> {
    match d {
        Some(d) => Some(d@),
        None => None,
    }
}

proof fn lemma_pow10_positive(n: nat)
    ensures
        pow10(n) >= 1,
    decreases n,
{
    if n > 0 {
        lemma_pow10_positive((n - 1) as nat);
    }
}

proof fn lemma_pow10_mono(a: nat, b: nat)
    requires
        a <= b,
    ensures
        pow10(a) <= pow10(b),
    decreases b,
{
    if a < b {
        lemma_pow10_mono(a, (b - 1) as nat);
        lemma_pow10_positive((b - 1) as nat);
    }
}

proof fn lemma_digits_below_pow10(s: Seq<char>)
    requires
        all_digits(s),
    ensures
        digits_value(s) < pow10(s.len()),
    decreases s.len(),
{
    if s.len() > 0 {
        let d = s.drop_last();
        assert(all_digits(d)) by {
            assert forall|i: int| 0 <= i < d.len() implies is_digit(#[trigger] d[i]) by {
                assert(d[i] == s[i]);
            }
        }
        lemma_digits_below_pow10(d);
        assert(is_digit(s[s.len() - 1]));
        let a = digits_value(d);
        let p = pow10(d.len());
        let c = digit_value(s.last());
        assert(a * 10 + c < 10 * p) by (nonlinear_arith)
            requires
                a < p,
                c <= 9,
        ;
    }
}

/// The nanoseconds of the fraction digits `f` (all digits, at least one).
fn fraction_nanos_of(f: &[char]) -> (r: u32)
    requires
        f@.len() > 0,
        all_digits(f@),
    ensures
        r == fraction_nanos(f@),
        r < 1_000_000_000,
{
    let n = f.len();
    let k: usize = if n <= 9 { n } else { 9 };
    let head = vstd::slice::slice_subrange(f, 0, k);
    proof {
        assert forall|i: int| 0 <= i < head@.len() implies is_digit(#[trigger] head@[i]) by {
            assert(head@[i] == f@[i]);
        }
        lemma_digits_below_pow10(head@);
        assert(pow10(0) == 1);
        assert(pow10(1) == 10);
        assert(pow10(2) == 100);
        assert(pow10(3) == 1000);
        assert(pow10(4) == 10000);
        assert(pow10(5) == 100000);
        assert(pow10(6) == 1000000);
        assert(pow10(7) == 10000000);
        assert(pow10(8) == 100000000);
        assert(pow10(9) == 1000000000);
    }
    let v = match digits_u64(head) {
        Some(v) => v,
        None => {
            proof {
                assert(false);
            }
            0
        },
    };
    let mut r: u64 = v;
    let mut i: usize = k;
    assert(v * pow10(0) == v);
    while i < 9
        invariant
            k <= i <= 9,
            k == head@.len(),
            v == digits_value(head@),
            v < pow10(k as nat),
            r == v * pow10((i - k) as nat),
            r < pow10(i as nat),
            pow10(9) == 1000000000,
        decreases 9 - i,
    {
        proof {
            let p = pow10((i - k) as nat);
            let q = pow10(i as nat);
            lemma_pow10_mono(i as nat, 8);
            assert(pow10((i + 1 - k) as nat) == 10 * p);
            assert(pow10((i + 1) as nat) == 10 * q);
            assert(v * (10 * p) == (v * p) * 10) by (nonlinear_arith);
        }
        r = r * 10;
        i = i + 1;
    }
    proof {
        if n <= 9 {
            assert(head@ == f@);
        } else {
            assert(head@ == f@.take(9));
            assert(v * pow10(0) == v);
        }
    }
    r as u32
}

/// Reads a timestamp such as `00:01:13.1` (see `duration_value`).
pub fn parse_duration_chars(s: &[char]) -> (r: Option<Duration>)
    ensures
        opt_duration_view(r) == duration_value(s@),
        r matches Some(d) ==> d.wf(),
{
    let (whole, nanos): (Vec<char>, Option<u32>) = match split_once_chars(s, '.') {
        Some((a, b)) => {
            if b.len() > 0 && only_digits(b.as_slice()) {
                let n = fraction_nanos_of(b.as_slice());
                (a, Some(n))
            } else if b.len() > 1 && b[0] == '+'
                && only_digits(vstd::slice::slice_subrange(b.as_slice(), 1, b.len())) {
                let mut z = b;
                let ghost signed = z@;
                z.set(0, '0');
                proof {
                    assert(z@ =~= seq!['0'] + signed.drop_first());
                    assert forall|i: int| 0 <= i < z@.len() implies is_digit(#[trigger] z@[i]) by {
                        if i > 0 {
                            assert(z@[i] == signed.drop_first()[i - 1]);
                        }
                    }
                }
                let n = fraction_nanos_of(z.as_slice());
                (a, Some(n))
            } else {
                (a, None)
            }
        },
        None => (vstd::slice::slice_to_vec(s), Some(0)),
    };
    let cells = split_chars(whole.as_slice(), ':');
    let ghost spec_cells = split(whole@, ':');
    let mut secs: u64 = 0;
    let mut i: usize = 0;
    let mut ok = true;
    assert(spec_cells.take(0) =~= Seq::<Seq<char>>::empty());
    while i < cells.len()
        invariant
            i <= cells@.len() == spec_cells.len(),
            forall|k: int| 0 <= k < cells@.len() ==> #[trigger] cells@[k]@ == spec_cells[k],
            ok ==> clock_seconds(spec_cells.take(i as int)) == Some(secs as nat),
            !ok ==> clock_seconds(spec_cells.take(i as int)) is None,
        decreases cells@.len() - i,
    {
        let c = parse_u64(cells[i].as_slice());
        proof {
            assert(spec_cells.take(i + 1).drop_last() == spec_cells.take(i as int));
            assert(spec_cells.take(i + 1).last() == cells@[i as int]@);
        }
        if ok {
            match c {
                Some(c) => {
                    if secs <= (u64::MAX - c) / 60 {
                        assert(secs * 60 + c <= u64::MAX) by (nonlinear_arith)
                            requires
                                secs <= (u64::MAX - c) / 60,
                        ;
                        secs = secs * 60 + c;
                    } else {
                        assert(secs * 60 + c > u64::MAX) by (nonlinear_arith)
                            requires
                                secs > (u64::MAX - c) / 60,
                        ;
                        ok = false;
                    }
                },
                None => {
                    ok = false;
                },
            }
        }
        i = i + 1;
    }
    assert(spec_cells.take(cells@.len() as int) == spec_cells);
    match nanos {
        Some(n) => if ok {
            Some(Duration::new(secs, n))
        } else {
            None
        },
        None => None,
    }
}

/// Reads a timestamp such as `00:01:13.1`: clock fields separated by `:`,
/// then optionally `.` and a fraction of a second, digits with an optional
/// leading `+` (see `fraction_text_nanos`). The fraction is read exactly and
/// cut after the ninth place; other number syntax after the `.` (a `-`
/// sign, an exponent, `inf`) is refused.
pub fn parse_duration(input: &str) -> (r: Option<Duration>)
    ensures
        opt_duration_view(r) == duration_value(input@),
{
    let chars = chars_of(input);
    parse_duration_chars(chars.as_slice())
}

// ---------------------------------------------------------------------------
// Lines of the report
// ---------------------------------------------------------------------------

/// How many spaces a line begins with.
pub open spec fn indent_of(s: Seq<char>) -> nat
    decreases s.len(),
{
    if s.len() > 0 && s[0] == ' ' {
        1 + indent_of(s.drop_first())
    } else {
        0
    }
}

/// Counts the spaces that `s` begins with.
pub fn count_indent_chars(s: &[char]) -> (r: usize)
    ensures
        r == indent_of(s@),
{
    let mut i: usize = 0;
    assert(s@.skip(0) == s@);
    while i < s.len() && s[i] == ' '
        invariant
            i <= s@.len(),
            forall|k: int| 0 <= k < i ==> s@[k] == ' ',
            indent_of(s@) == i + indent_of(s@.skip(i as int)),
        decreases s@.len() - i,
    {
        assert(s@.skip(i as int).drop_first() == s@.skip(i + 1));
        i = i + 1;
    }
    proof {
        r_indent_end(s@, i as int);
    }
    i
}

proof fn r_indent_end(s: Seq<char>, i: int)
    requires
        0 <= i <= s.len(),
        i == s.len() || s[i] != ' ',
    ensures
        indent_of(s.skip(i)) == 0,
{
    if i < s.len() {
        assert(s.skip(i)[0] == s[i]);
    }
}

/// Counts the spaces that `input` begins with.
pub fn count_indent(input: &str) -> (r: usize)
    ensures
        r == indent_of(input@),
{
    let chars = chars_of(input);
    count_indent_chars(chars.as_slice())
}

/// The text views of a list of lines.
pub open spec fn lines_view(v: Seq<Vec<char>>) -> Seq<Seq<char>> {
    v.map_values(|l: Vec<char>| l@)
}

/// The metadata after reading one `name: value` line into `m`; a line
/// without `:` changes nothing.
pub open spec fn metadata_line(m: Map<Seq<char>, Seq<char>>, line: Seq<char>) -> Map<Seq<char>, Seq<char>> {
    match split_once(line, ':') {
        Some((name, value)) => m.insert(trim(name), trim(value)),
        None => m,
    }
}

/// Reads metadata lines off the end of `lines` (the next line to read comes
/// last) for as long as they are indented by exactly `indent` spaces; gives
/// the lines left and the metadata read into `m`.
pub open spec fn metadata_pop(lines: Seq<Seq<char>>, indent: nat, m: Map<Seq<char>, Seq<char>>) -> (Seq<Seq<char>>, Map<Seq<char>, Seq<char>>)
    decreases lines.len(),
{
    if lines.len() > 0 && indent_of(lines.last()) == indent {
        metadata_pop(lines.drop_last(), indent, metadata_line(m, lines.last()))
    } else {
        (lines, m)
    }
}

pub proof fn lemma_metadata_pop_shorter(lines: Seq<Seq<char>>, indent: nat, m: Map<Seq<char>, Seq<char>>)
    ensures
        metadata_pop(lines, indent, m).0.len() <= lines.len(),
    decreases lines.len(),
{
    if lines.len() > 0 && indent_of(lines.last()) == indent {
        lemma_metadata_pop_shorter(lines.drop_last(), indent, metadata_line(m, lines.last()));
    }
}

/// Reads the `name: value` lines at the end of `lines` (the next line to
/// read comes last) that are indented by exactly `indent` spaces, removing
/// them; each name and value is trimmed, and a later line wins over an
/// earlier one with the same name.
pub fn parse_metadata(indent: usize, lines: &mut Vec<Vec<char>>) -> (r: NamedMap<String>)
    ensures
        r.wf(),
        (lines_view(final(lines)@), r@) == metadata_pop(lines_view(old(lines)@), indent as nat, Map::empty()),
{
    let mut res: NamedMap<String> = NamedMap::new();
    let ghost start = lines_view(lines@);
    while lines.len() > 0 && count_indent_chars(lines[lines.len() - 1].as_slice()) == indent
        invariant
            res.wf(),
            metadata_pop(start, indent as nat, Map::empty()) == metadata_pop(lines_view(lines@), indent as nat, res@),
        decreases lines@.len(),
    {
        let ghost before = lines_view(lines@);
        let line = lines.pop().unwrap();
        proof {
            assert(lines_view(lines@) == before.drop_last());
            assert(line@ == before.last());
        }
        match split_once_chars(line.as_slice(), ':') {
            Some((name, value)) => {
                let name = trim_chars(name.as_slice());
                let value = trim_chars(value.as_slice());
                res.insert(string_of(name.as_slice()), string_of(value.as_slice()));
            },
            None => {},
        }
    }
    res
}

// ---------------------------------------------------------------------------
// The whole report
// ---------------------------------------------------------------------------

/// The characters of `Input #`.
pub open spec fn input_marker() -> Seq<char> {
    seq!['I', 'n', 'p', 'u', 't', ' ', '#']
}

/// The characters of `Metadata:`.
pub open spec fn metadata_marker() -> Seq<char> {
    seq!['M', 'e', 't', 'a', 'd', 'a', 't', 'a', ':']
}

/// The characters of `Duration:`.
pub open spec fn duration_marker() -> Seq<char> {
    seq!['D', 'u', 'r', 'a', 't', 'i', 'o', 'n', ':']
}

/// The characters of `Duration`.
pub open spec fn duration_name() -> Seq<char> {
    seq!['D', 'u', 'r', 'a', 't', 'i', 'o', 'n']
}

/// The duration after reading the comma-separated cells of a `Duration:`
/// line: the value of the last cell named `Duration` (nothing when that
/// value does not read), or `cur` when no cell has that name.
pub open spec fn duration_cells(cur: Option<(nat, nat)>, cells: Seq<Seq<char>>) -> Option<(nat, nat)>
    decreases cells.len(),
{
    if cells.len() == 0 {
        cur
    } else {
        let before = duration_cells(cur, cells.drop_last());
        match split_once(cells.last(), ':') {
            Some((name, value)) => if trim(name) == duration_name() {
                duration_value(trim(value))
            } else {
                before
            },
            None => before,
        }
    }
}

/// A report read so far: its metadata and its duration.
pub type MediaInfoModel = (Map<Seq<char>, Seq<char>>, Option<(nat, nat)>);

/// Reads the lines indented by exactly two spaces that follow the `Input`
/// line (the next line to read comes last in `stack`): a `Metadata:` line
/// takes the lines indented by four that follow it as the metadata, a
/// `Duration:` line gives the duration, other lines are passed over.
pub open spec fn scan_input_block(stack: Seq<Seq<char>>, info: MediaInfoModel) -> MediaInfoModel
    decreases stack.len(),
{
    if stack.len() > 0 && indent_of(stack.last()) == 2 {
        let line = trim(stack.last());
        let rest = stack.drop_last();
        if has_prefix(line, metadata_marker()) {
            let (rest2, m) = metadata_pop(rest, 4, Map::empty());
            proof {
                lemma_metadata_pop_shorter(rest, 4, Map::empty());
            }
            scan_input_block(rest2, (m, info.1))
        } else if has_prefix(line, duration_marker()) {
            scan_input_block(rest, (info.0, duration_cells(info.1, split(line, ','))))
        } else {
            scan_input_block(rest, info)
        }
    } else {
        info
    }
}

/// Drops the lines before the first one that begins with `Input #` (the next
/// line to read comes last in `stack`).
pub open spec fn skip_to_input(stack: Seq<Seq<char>>) -> Seq<Seq<char>>
    decreases stack.len(),
{
    if stack.len() > 0 && !has_prefix(stack.last(), input_marker()) {
        skip_to_input(stack.drop_last())
    } else {
        stack
    }
}

/// What the report `input` says: `None` when no line begins with `Input #`.
pub open spec fn media_info_of(input: Seq<char>) -> Option<MediaInfoModel> {
    let stack = skip_to_input(split(input, '\n').reverse());
    if stack.len() == 0 {
        None
    } else {
        Some(scan_input_block(stack.drop_last(), (Map::empty(), None)))
    }
}

/// Why a report could not be read.
#[derive(Clone, Copy, Debug, PartialEq, Eq)]
pub enum MediaInfoError {
    /// No line begins with `Input #`.
    MissingInputLine,
}

impl MediaInfoError {
    /// The message that describes the error.
    pub fn message(&self) -> (r: &'static str)
        ensures
            r@ == "unable to find `Input` line"@,
    {
        match self {
            MediaInfoError::MissingInputLine => "unable to find `Input` line",
        }
    }
}

/// What `ffprobe` reports of an input: its container metadata and its
/// duration.
#[derive(Debug)]
pub struct MediaInfo {
    pub metadata: NamedMap<String>,
    pub duration: Option<Duration>,
}

impl View for MediaInfo {
    type V = MediaInfoModel;

    open spec fn view(&self) -> MediaInfoModel {
        (self.metadata@, opt_duration_view(self.duration))
    }
}

impl MediaInfo {
    /// Whether the metadata map keeps its invariant.
    pub open spec fn wf(&self) -> bool {
        self.metadata.wf()
    }

    /// No metadata and no duration.
    pub fn empty() -> (r: MediaInfo)
        ensures
            r.wf(),
            r@ == (Map::<Seq<char>, Seq<char>>::empty(), None::<(nat, nat)>),
    {
        MediaInfo { metadata: NamedMap::new(), duration: None }
    }

    /// Reads the cells of a `Duration:` line (see `duration_cells`).
    pub fn parse_duration(&mut self, line: &str)
        ensures
            final(self).metadata == old(self).metadata,
            opt_duration_view(final(self).duration) == duration_cells(opt_duration_view(old(self).duration), split(line@, ',')),
    {
        let chars = chars_of(line);
        self.parse_duration_chars(chars.as_slice());
    }

    /// Reads the cells of a `Duration:` line given as characters.
    pub fn parse_duration_chars(&mut self, line: &[char])
        ensures
            final(self).metadata == old(self).metadata,
            opt_duration_view(final(self).duration) == duration_cells(opt_duration_view(old(self).duration), split(line@, ',')),
    {
        let cells = split_chars(line, ',');
        let ghost spec_cells = split(line@, ',');
        let ghost start = opt_duration_view(self.duration);
        let key = chars_of("Duration");
        proof {
            reveal_strlit("Duration");
        }
        let mut i: usize = 0;
        assert(spec_cells.take(0) =~= Seq::<Seq<char>>::empty());
        while i < cells.len()
            invariant
                key@ == duration_name(),
                i <= cells@.len() == spec_cells.len(),
                forall|k: int| 0 <= k < cells@.len() ==> #[trigger] cells@[k]@ == spec_cells[k],
                self.metadata == old(self).metadata,
                start == opt_duration_view(old(self).duration),
                opt_duration_view(self.duration) == duration_cells(start, spec_cells.take(i as int)),
            decreases cells@.len() - i,
        {
            proof {
                assert(spec_cells.take(i + 1).drop_last() == spec_cells.take(i as int));
                assert(spec_cells.take(i + 1).last() == cells@[i as int]@);
            }
            match split_once_chars(cells[i].as_slice(), ':') {
                Some((name, value)) => {
                    let name = trim_chars(name.as_slice());
                    if same_chars(name.as_slice(), key.as_slice()) {
                        let value = trim_chars(value.as_slice());
                        self.duration = parse_duration_chars(value.as_slice());
                    }
                },
                None => {},
            }
            i = i + 1;
        }
        assert(spec_cells.take(cells@.len() as int) == spec_cells);
    }

    /// Reads an `ffprobe` report: the lines before the first one that begins
    /// with `Input #` are passed over, then the block that follows it is read
    /// (see `scan_input_block`).
    pub fn parse(input: &str) -> (r: Result<MediaInfo, MediaInfoError>)
        ensures
            match media_info_of(input@) {
                Some(m) => r matches Ok(info) && info.wf() && info@ == m,
                None => r == Err::<MediaInfo, MediaInfoError>(MediaInfoError::MissingInputLine),
            },
    {
        let chars = chars_of(input);
        let pieces = split_chars(chars.as_slice(), '\n');
        let ghost spec_pieces = split(input@, '\n');
        // the lines, last line first, so that the next line to read is popped
        let mut lines: Vec<Vec<char>> = Vec::new();
        let mut k: usize = pieces.len();
        while k > 0
            invariant
                k <= pieces@.len() == spec_pieces.len(),
                forall|j: int| 0 <= j < pieces@.len() ==> #[trigger] pieces@[j]@ == spec_pieces[j],
                lines_view(lines@) == spec_pieces.skip(k as int).reverse(),
            decreases k,
        {
            k = k - 1;
            let ghost old_view = lines_view(lines@);
            lines.push(pieces[k].clone());
            proof {
                assert(lines_view(lines@) =~= old_view.push(spec_pieces[k as int]));
                assert(spec_pieces.skip(k as int).reverse() =~= spec_pieces.skip(k + 1).reverse().push(
                    spec_pieces[k as int],
                ));
            }
        }
        assert(spec_pieces.skip(0) == spec_pieces);
        let input_mark = chars_of("Input #");
        let metadata_mark = chars_of("Metadata:");
        let duration_mark = chars_of("Duration:");
        proof {
            reveal_strlit("Input #");
            reveal_strlit("Metadata:");
            reveal_strlit("Duration:");
        }
        let ghost all = lines_view(lines@);
        while lines.len() > 0 && !starts_with(lines[lines.len() - 1].as_slice(), input_mark.as_slice())
            invariant
                input_mark@ == input_marker(),
                skip_to_input(all) == skip_to_input(lines_view(lines@)),
            decreases lines@.len(),
        {
            let ghost before = lines_view(lines@);
            lines.pop();
            assert(lines_view(lines@) == before.drop_last());
        }
        if lines.len() == 0 {
            return Err(MediaInfoError::MissingInputLine);
        }
        let ghost found = lines_view(lines@);
        lines.pop();
        assert(lines_view(lines@) == found.drop_last());
        let mut res = MediaInfo::empty();
        let ghost target = scan_input_block(lines_view(lines@), res@);
        while lines.len() > 0 && count_indent_chars(lines[lines.len() - 1].as_slice()) == 2
            invariant
                metadata_mark@ == metadata_marker(),
                duration_mark@ == duration_marker(),
                res.wf(),
                target == scan_input_block(lines_view(lines@), res@),
            decreases lines@.len(),
        {
            let ghost before = lines_view(lines@);
            let next = lines.pop().unwrap();
            proof {
                assert(lines_view(lines@) == before.drop_last());
                assert(next@ == before.last());
            }
            let next = trim_chars(next.as_slice());
            if starts_with(next.as_slice(), metadata_mark.as_slice()) {
                let ghost rest = lines_view(lines@);
                res.metadata = parse_metadata(4, &mut lines);
                proof {
                    lemma_metadata_pop_shorter(rest, 4, Map::empty());
                }
            } else if starts_with(next.as_slice(), duration_mark.as_slice()) {
                res.parse_duration_chars(next.as_slice());
            }
        }
        Ok(res)
    }
}

impl std::str::FromStr for MediaInfo {
    type Err = MediaInfoError;

    fn from_str(input: &str) -> (r: Result<MediaInfo, MediaInfoError>)
        ensures
            match media_info_of(input@) {
                Some(m) => r matches Ok(info) && info.wf() && info@ == m,
                None => r == Err::<MediaInfo, MediaInfoError>(MediaInfoError::MissingInputLine),
            },
    {
        MediaInfo::parse(input)
    }
}

} // verus!
