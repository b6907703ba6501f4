//! Recognising TV show episodes among the files of a storage, and naming
//! the folders and files that hold them.
use vstd::prelude::*;

use crate::entry::FileInfo;
use crate::text::{
    all_digits, digits_value, is_pad2_writing, law_pad2_writes_the_number, chars_of, decimal, lemma_decimal_digits, decimal_pad2, has_prefix, parse_u16, parsed_u16, push_char, push_decimal,
    push_decimal_pad2, push_str, rfind_char, rsplit_once, same_chars, starts_with, string_of,
};

verus! {

broadcast use vstd::string::group_string_axioms;

// ---------------------------------------------------------------------------
// Outside crates: regex, mime_guess, limace, and str::to_lowercase
// ---------------------------------------------------------------------------

#[verifier::external_type_specification]
#[verifier::external_body]
pub struct ExRegexError(regex::Error);

/// Whether `regex::Regex::new` accepts `pattern`.
pub uninterp spec fn regex_compiles(pattern: Seq<char>) -> bool;

/// The capture groups (group 0, the whole match, first) of the leftmost
/// match of `pattern` in `haystack`, as `regex::Regex::captures` reports
/// them: `None` when there is no match, and `None` for each group that did
/// not take part in the match.
pub uninterp spec fn regex_capture_groups(pattern: Seq<char>, haystack: Seq<char>) -> Option<Seq<Option<Seq<char>>>>;

/// The text views of capture groups.
pub open spec fn groups_view(g: Seq<Option<String>>) -> Seq<Option<Seq<char>>> {
    g.map_values(|m: Option<String>| match m {
        Some(s) => Some(s@),
        None => None,
    })
}

/// Compiles `pattern` with `regex::Regex::new` and takes the capture groups
/// of its first match in `haystack` with `Regex::captures`. The contract
/// claims that compiling succeeds exactly when `regex_compiles` holds of the
/// pattern, and that the groups are `regex_capture_groups` of the pattern and
/// the haystack; what the regex engine matches is not stated here.
#[verifier::external_body]
fn regex_captures(pattern: &str, haystack: &str) -> (r: Result<Option<Vec<Option<String>>>, regex::Error>)
    ensures
        r is Ok <==> regex_compiles(pattern@),
        r matches Ok(c) ==> match c {
            Some(g) => regex_capture_groups(pattern@, haystack@) == Some(groups_view(g@)),
            None => regex_capture_groups(pattern@, haystack@) is None,
        },
{
    let re = regex::Regex::new(pattern)?;
    Ok(re.captures(haystack).map(|c| c.iter().map(|m| m.map(|m| m.as_str().to_string())).collect()))
}

/// What `str::to_lowercase` gives for `s` (Unicode lowercase mapping).
pub uninterp spec fn lowercase(s: Seq<char>) -> Seq<char>;

/// Wraps `str::to_lowercase`; the contract claims only that the result is
/// `lowercase` of the input, not what the Unicode mapping is.
#[verifier::external_body]
fn to_lowercase(s: &str) -> (r: String)
    ensures
        r@ == lowercase(s@),
{
    s.to_lowercase()
}

/// The top-level type names (`video`, `audio`, ...) of the media types that
/// `mime_guess::from_ext` guesses for the extension `ext`, in its order.
pub uninterp spec fn ext_mime_type_names(ext: Seq<char>) -> Seq<Seq<char>>;

/// Wraps `mime_guess::from_ext` and gives the top-level type name of each
/// guess. The contract claims the names are `ext_mime_type_names` of the
/// extension, and, as the crate's source shows, that an empty extension has
/// no guess.
#[verifier::external_body]
fn mime_type_names_for_ext(ext: &str) -> (r: Vec<String>)
    ensures
        r@.map_values(|s: String| s@) == ext_mime_type_names(ext@),
        ext@.len() == 0 ==> r@.len() == 0,
{
    mime_guess::from_ext(ext).iter().map(|m| m.type_().as_str().to_string()).collect()
}

/// The slug that `limace::Slugifier::default().slugify` makes of `s`.
pub uninterp spec fn slug_of(s: Seq<char>) -> Seq<char>;

/// Whether `c` may stand in a slug: a lowercase ASCII letter, a digit or `-`.
pub open spec fn is_slug_char(c: char) -> bool {
    ('a' <= c && c <= 'z') || ('0' <= c && c <= '9') || c == '-'
}

/// The shape of every slug: made of slug characters, with no `-` at either
/// end and no two `-` in a row.
pub open spec fn slug_shaped(s: Seq<char>) -> bool {
    &&& forall|i: int| 0 <= i < s.len() ==> is_slug_char(#[trigger] s[i])
    &&& s.len() > 0 ==> s[0] != '-' && s.last() != '-'
    &&& forall|i: int| 0 <= i < s.len() - 1 ==> !(#[trigger] s[i] == '-' && s[i + 1] == '-')
}

/// Wraps `limace::Slugifier::default().slugify`. The contract claims that the
/// result is `slug_of` the input and has the shape that the crate's source
/// gives every slug (`slug_shaped`); how characters are transliterated is
/// not stated.
#[verifier::external_body]
fn slugify(s: &str) -> (r: String)
    ensures
        r@ == slug_of(s@),
        slug_shaped(r@),
{
    limace::Slugifier::default().slugify(s)
}

// ---------------------------------------------------------------------------
// Kinds of files
// ---------------------------------------------------------------------------

/// The kind of media a file holds, as its name suggests.
#[derive(Clone, Copy, Debug, PartialEq, Eq)]
pub enum FileType {
    Audio,
    Image,
    Video,
}

/// The characters of `audio`.
pub open spec fn audio_name() -> Seq<char> {
    seq!['a', 'u', 'd', 'i', 'o']
}

/// The characters of `video`.
pub open spec fn video_name() -> Seq<char> {
    seq!['v', 'i', 'd', 'e', 'o']
}

/// The characters of `image`.
pub open spec fn image_name() -> Seq<char> {
    seq!['i', 'm', 'a', 'g', 'e']
}

/// The kind named by the first of `names` that is `audio`, `video` or
/// `image`.
pub open spec fn file_type_of_names(names: Seq<Seq<char>>) -> Option<FileType>
    decreases names.len(),
{
    if names.len() == 0 {
        None
    } else if names[0] == audio_name() {
        Some(FileType::Audio)
    } else if names[0] == video_name() {
        Some(FileType::Video)
    } else if names[0] == image_name() {
        Some(FileType::Image)
    } else {
        file_type_of_names(names.drop_first())
    }
}

/// The kind of the file called `name`: looked up by the text after its last
/// `.`; `None` for a name without `.`.
pub open spec fn file_type_of_name(name: Seq<char>) -> Option<FileType> {
    match rsplit_once(name, '.') {
        Some((_, ext)) => file_type_of_names(ext_mime_type_names(ext)),
        None => None,
    }
}

impl FileType {
    /// The kind named by the first of `names` that is `audio`, `video` or
    /// `image` (see `file_type_of_names`).
    pub fn from_type_names(names: &Vec<String>) -> (r: Option<FileType>)
        ensures
            r == file_type_of_names(names@.map_values(|s: String| s@)),
    {
        let ghost spec_names = names@.map_values(|s: String| s@);
        let audio = chars_of("audio");
        let video = chars_of("video");
        let image = chars_of("image");
        proof {
            reveal_strlit("audio");
            reveal_strlit("video");
            reveal_strlit("image");
            assert(spec_names.skip(0) == spec_names);
        }
        let mut i: usize = 0;
        while i < names.len()
            invariant
                i <= names@.len() == spec_names.len(),
                spec_names == names@.map_values(|s: String| s@),
                file_type_of_names(spec_names) == file_type_of_names(spec_names.skip(i as int)),
                audio@ == audio_name(),
                video@ == video_name(),
                image@ == image_name(),
            decreases names@.len() - i,
        {
            let n = chars_of(names[i].as_str());
            proof {
                assert(spec_names.skip(i as int)[0] == n@);
                assert(spec_names.skip(i as int).drop_first() == spec_names.skip(i + 1));
            }
            if same_chars(n.as_slice(), audio.as_slice()) {
                return Some(FileType::Audio);
            } else if same_chars(n.as_slice(), video.as_slice()) {
                return Some(FileType::Video);
            } else if same_chars(n.as_slice(), image.as_slice()) {
                return Some(FileType::Image);
            }
            i = i + 1;
        }
        None
    }

    /// The kind of the file called `name` (see `file_type_of_name`).
    pub fn detect(name: &str) -> (r: Option<FileType>)
        ensures
            r == file_type_of_name(name@),
    {
        let chars = chars_of(name);
        let dot = match rfind_char(chars.as_slice(), '.') {
            Some(i) => i,
            None => return None,
        };
        let len = chars.len();
        assert(dot < len);
        let ext = string_of(vstd::slice::slice_subrange(chars.as_slice(), dot + 1, len));
        assert(ext@ == name@.skip(dot + 1));
        assert(rsplit_once(name@, '.') == Some((name@.take(dot as int), name@.skip(dot + 1))));
        let names = mime_type_names_for_ext(ext.as_str());
        FileType::from_type_names(&names)
    }
}

// ---------------------------------------------------------------------------
// Episode file names
// ---------------------------------------------------------------------------

/// Whether `c` separates the words of a title: a space, `-` or `_`.
pub open spec fn is_title_gap(c: char) -> bool {
    c == ' ' || c == '-' || c == '_'
}

/// The words of `s` (the runs between spaces, `-` and `_`), joined by single
/// spaces.
pub open spec fn title_words(s: Seq<char>) -> Seq<char>
    decreases s.len(),
{
    if s.len() == 0 {
        Seq::<char>::empty()
    } else {
        let r = title_words(s.drop_last());
        let c = s.last();
        if is_title_gap(c) {
            r
        } else if s.len() >= 2 && !is_title_gap(s[s.len() - 2]) {
            r.push(c)
        } else if r.len() == 0 {
            r.push(c)
        } else {
            r.push(' ').push(c)
        }
    }
}

/// Joins the words of `s` by single spaces (see `title_words`).
pub fn normalize_title(s: &[char]) -> (r: Vec<char>)
    ensures
        r@ == title_words(s@),
{
    let mut r: Vec<char> = Vec::new();
    let mut i: usize = 0;
    assert(s@.take(0) =~= Seq::<char>::empty());
    while i < s.len()
        invariant
            i <= s@.len(),
            r@ == title_words(s@.take(i as int)),
        decreases s@.len() - i,
    {
        let c = s[i];
        proof {
            let t = s@.take(i + 1);
            assert(t.drop_last() == s@.take(i as int));
            assert(t.last() == c);
            if i >= 1 {
                assert(t[t.len() - 2] == s@[i - 1]);
            }
        }
        let gap = c == ' ' || c == '-' || c == '_';
        if gap {
        } else if i >= 1 && !(s[i - 1] == ' ' || s[i - 1] == '-' || s[i - 1] == '_') {
            r.push(c);
        } else if r.len() == 0 {
            r.push(c);
        } else {
            r.push(' ');
            r.push(c);
        }
        i = i + 1;
    }
    assert(s@.take(s@.len() as int) == s@);
    r
}

/// A title whose words are already joined by single spaces: no `-` or `_`,
/// no space at either end and no two spaces in a row.
pub open spec fn is_normal_title(s: Seq<char>) -> bool {
    &&& forall|i: int| 0 <= i < s.len() ==> #[trigger] s[i] != '-' && s[i] != '_'
    &&& s.len() > 0 ==> s[0] != ' ' && s.last() != ' '
    &&& forall|i: int| 0 <= i < s.len() - 1 ==> !(#[trigger] s[i] == ' ' && s[i + 1] == ' ')
}

/// A title made by `title_words` is normal.
pub proof fn law_title_words_normal(s: Seq<char>)
    ensures
        is_normal_title(title_words(s)),
    decreases s.len(),
{
    if s.len() > 0 {
        law_title_words_normal(s.drop_last());
        let r = title_words(s.drop_last());
        let c = s.last();
        if !is_title_gap(c) {
            if s.len() >= 2 && !is_title_gap(s[s.len() - 2]) {
                assert(r.push(c)[r.len() as int] == c);
            } else if r.len() > 0 {
                let t = r.push(' ').push(c);
                assert(t[r.len() as int] == ' ');
                assert(t[r.len() as int + 1] == c);
                assert forall|i: int| 0 <= i < t.len() - 1 implies !(#[trigger] t[i] == ' ' && t[i + 1] == ' ') by {
                    if i < r.len() - 1 {
                        assert(t[i] == r[i] && t[i + 1] == r[i + 1]);
                    } else if i == r.len() - 1 {
                        assert(t[i] == r.last());
                    }
                }
                assert forall|i: int| 0 <= i < t.len() implies #[trigger] t[i] != '-' && t[i] != '_' by {
                    if i < r.len() {
                        assert(t[i] == r[i]);
                    }
                }
            }
        }
    }
}

/// A title whose words are joined by single spaces, except that it may end
/// with one space: what the beginning of a normal title looks like.
pub open spec fn is_title_prefix(s: Seq<char>) -> bool {
    &&& forall|i: int| 0 <= i < s.len() ==> #[trigger] s[i] != '-' && s[i] != '_'
    &&& s.len() > 0 ==> s[0] != ' '
    &&& forall|i: int| 0 <= i < s.len() - 1 ==> !(#[trigger] s[i] == ' ' && s[i + 1] == ' ')
}

proof fn lemma_title_words_of_prefix(t: Seq<char>)
    requires
        is_title_prefix(t),
    ensures
        title_words(t) == (if t.len() > 0 && t.last() == ' ' {
            t.drop_last()
        } else {
            t
        }),
    decreases t.len(),
{
    if t.len() > 0 {
        let d = t.drop_last();
        assert(is_title_prefix(d)) by {
            assert forall|i: int| 0 <= i < d.len() implies #[trigger] d[i] != '-' && d[i] != '_' by {
                assert(d[i] == t[i]);
            }
            assert forall|i: int| 0 <= i < d.len() - 1 implies !(#[trigger] d[i] == ' ' && d[i + 1] == ' ') by {
                assert(d[i] == t[i] && d[i + 1] == t[i + 1]);
            }
            if d.len() > 0 {
                assert(d[0] == t[0]);
            }
        }
        lemma_title_words_of_prefix(d);
        let c = t.last();
        assert(c != '-' && c != '_');
        if t.len() >= 2 {
            assert(!(t[t.len() - 2] == ' ' && t[t.len() - 1] == ' '));
            assert(d.last() == t[t.len() - 2]);
        }
        if c == ' ' {
            assert(t.len() >= 2);
        } else if t.len() >= 2 && !is_title_gap(t[t.len() - 2]) {
            assert(title_words(t) =~= t);
        } else if t.len() >= 2 {
            assert(d.last() == ' ');
            assert(d.len() >= 2);
            assert(title_words(d) == d.drop_last());
            assert(title_words(t) =~= t);
        } else {
            assert(title_words(t) =~= t);
        }
    }
}

/// A title that is already normal comes out of `title_words` unchanged.
pub proof fn law_title_words_fixes_normal(s: Seq<char>)
    requires
        is_normal_title(s),
    ensures
        title_words(s) == s,
{
    lemma_title_words_of_prefix(s);
}

/// Normalising a title twice gives what normalising it once gives.
pub proof fn law_title_words_idempotent(s: Seq<char>)
    ensures
        title_words(title_words(s)) == title_words(s),
{
    law_title_words_normal(s);
    law_title_words_fixes_normal(title_words(s));
}

/// What an episode file name says: the show's title, its year when given,
/// the season and the episode.
#[derive(Clone, Debug, PartialEq, Eq)]
pub struct TVShowFile {
    pub title: String,
    pub year: Option<u16>,
    pub season: u16,
    pub episode: u16,
}

/// The view of an episode description.
pub type TVShowFileModel = (Seq<char>, Option<u16>, u16, u16);

impl View for TVShowFile {
    type V = TVShowFileModel;

    open spec fn view(&self) -> TVShowFileModel {
        (self.title@, self.year, self.season, self.episode)
    }
}

/// The view of an optional episode description.
pub open spec fn opt_tvshow_view(t: Option<TVShowFile>) -> Option<TVShowFileModel> {
    match t {
        Some(t) => Some(t@),
        None => None,
    }
}

/// Capture group `i` of `g`, `None` when there is no such group.
pub open spec fn group(g: Seq<Option<Seq<char>>>, i: int) -> Option<Seq<char>> {
    if 0 <= i < g.len() {
        g[i]
    } else {
        None
    }
}

/// Capture group `i` of `g` read as a `u16`.
pub open spec fn group_u16(g: Seq<Option<Seq<char>>>, i: int) -> Option<u16> {
    match group(g, i) {
        Some(t) => parsed_u16(t),
        None => None,
    }
}

/// The episode that the capture groups of the episode pattern describe:
/// the title is group 1, or group 3 when group 1 is absent, lowercased, its
/// words joined by single spaces; the year is group 2 when it reads as a
/// `u16`; season and episode are groups 4 and 5 and must read as `u16`.
pub open spec fn tvshow_of_groups(g: Seq<Option<Seq<char>>>) -> Option<TVShowFileModel> {
    let raw = match group(g, 1) {
        Some(t) => Some(t),
        None => group(g, 3),
    };
    match raw {
        None => None,
        Some(t) => match (group_u16(g, 4), group_u16(g, 5)) {
            (Some(season), Some(episode)) => Some(
                (title_words(lowercase(t)), group_u16(g, 2), season, episode),
            ),
            _ => None,
        },
    }
}

/// The numbers of a recognised episode come from their capture groups: the
/// year is what group 2 writes when it is present and writes a number that
/// fits a `u16`, and there is no year without group 2; the season and the
/// episode are what groups 4 and 5 write. An episode is recognised whenever
/// a title group (1 or 3) is present and groups 4 and 5 write such numbers.
pub proof fn law_episode_numbers_come_from_groups(g: Seq<Option<Seq<char>>>)
    ensures
        tvshow_of_groups(g) is Some ==> {
            let t = tvshow_of_groups(g)->0;
            &&& (g.len() > 2 && g[2] is Some && g[2]->0.len() > 0 && all_digits(g[2]->0) && digits_value(g[2]->0)
                <= u16::MAX) ==> t.1 == Some(digits_value(g[2]->0) as u16)
            &&& (g.len() <= 2 || g[2] is None) ==> t.1 is None
            &&& g.len() > 5 && g[4] is Some && g[5] is Some
            &&& (g[4]->0.len() > 0 && all_digits(g[4]->0)) ==> t.2 == digits_value(g[4]->0)
            &&& (g[5]->0.len() > 0 && all_digits(g[5]->0)) ==> t.3 == digits_value(g[5]->0)
        },
        (g.len() > 5 && (g[1] is Some || g[3] is Some) && g[4] is Some && g[4]->0.len() > 0 && all_digits(g[4]->0)
            && digits_value(g[4]->0) <= u16::MAX && g[5] is Some && g[5]->0.len() > 0 && all_digits(g[5]->0)
            && digits_value(g[5]->0) <= u16::MAX) ==> tvshow_of_groups(g) is Some,
{
    if g.len() > 2 && g[2] is Some {
        let y = g[2]->0;
        if y.len() > 0 && all_digits(y) {
            assert(y[0] != '+');
        }
    }
    if g.len() > 4 && g[4] is Some {
        let s = g[4]->0;
        if s.len() > 0 && all_digits(s) {
            assert(s[0] != '+');
        }
    }
    if g.len() > 5 && g[5] is Some {
        let e = g[5]->0;
        if e.len() > 0 && all_digits(e) {
            assert(e[0] != '+');
        }
    }
}

/// Group `i` of `groups` read as a `u16`.
fn group_number(groups: &Vec<Option<String>>, i: usize) -> (r: Option<u16>)
    ensures
        r == group_u16(groups_view(groups@), i as int),
{
    if i < groups.len() {
        match &groups[i] {
            Some(t) => {
                let c = chars_of(t.as_str());
                parse_u16(c.as_slice())
            },
            None => None,
        }
    } else {
        None
    }
}

/// The episode that capture groups of the episode pattern describe (see
/// `tvshow_of_groups`).
pub fn tvshow_file_from_groups(groups: &Vec<Option<String>>) -> (r: Option<TVShowFile>)
    ensures
        opt_tvshow_view(r) == tvshow_of_groups(groups_view(groups@)),
{
    let ghost g = groups_view(groups@);
    let raw: Option<&String> = if 1 < groups.len() && groups[1].is_some() {
        groups[1].as_ref()
    } else if 3 < groups.len() {
        groups[3].as_ref()
    } else {
        None
    };
    let raw = match raw {
        Some(t) => t,
        None => return None,
    };
    let season = match group_number(groups, 4) {
        Some(n) => n,
        None => return None,
    };
    let episode = match group_number(groups, 5) {
        Some(n) => n,
        None => return None,
    };
    let lower = to_lowercase(raw.as_str());
    let lower_chars = chars_of(lower.as_str());
    let title = normalize_title(lower_chars.as_slice());
    let year = group_number(groups, 2);
    Some(TVShowFile { title: string_of(title.as_slice()), year, season, episode })
}

/// The pattern that episode file paths follow: a title, optionally followed
/// by a four-digit year, then `S<season>E<episode>`, anything, and an
/// extension.
pub const TVSHOW_FILENAME_PATTERN: &'static str = r#"(?:([^\/]+)(?:[_\-\s]+(\d{4}))|([^\/]+))[_\-\s]+(?:[sS](\d+)[eE](\d+))(?:.*)\.\w+$"#;

/// Recognises episode files by their path.
pub struct TVShowFilenameParser {
    pattern: String,
}

impl TVShowFilenameParser {
    /// The pattern that the parser matches paths against.
    pub closed spec fn pattern(&self) -> Seq<char> {
        self.pattern@
    }

    /// A parser for the episode pattern.
    pub fn new() -> (r: TVShowFilenameParser)
        ensures
            r.pattern() == TVSHOW_FILENAME_PATTERN@,
    {
        TVShowFilenameParser { pattern: TVSHOW_FILENAME_PATTERN.to_owned() }
    }

    /// The episode that `filepath` names: the capture groups of the parser's
    /// pattern on the path, read by `tvshow_of_groups`; `None` when the path
    /// does not match or the pattern does not compile.
    pub fn detect(&self, filepath: &str) -> (r: Option<TVShowFile>)
        ensures
            opt_tvshow_view(r) == (if regex_compiles(self.pattern()) {
                match regex_capture_groups(self.pattern(), filepath@) {
                    Some(g) => tvshow_of_groups(g),
                    None => None,
                }
            } else {
                None
            }),
    {
        match regex_captures(self.pattern.as_str(), filepath) {
            Ok(Some(groups)) => tvshow_file_from_groups(&groups),
            Ok(None) => None,
            Err(_) => None,
        }
    }
}

impl Default for TVShowFilenameParser {
    fn default() -> (r: TVShowFilenameParser)
        ensures
            r.pattern() == TVSHOW_FILENAME_PATTERN@,
    {
        TVShowFilenameParser::new()
    }
}

// ---------------------------------------------------------------------------
// Analysing a file found in a storage
// ---------------------------------------------------------------------------

/// A file to analyse: the source it was found in, the directory path within
/// the source, and the file.
#[derive(Clone, Debug)]
pub struct AnalyseFile {
    pub source: String,
    pub path: String,
    pub file: FileInfo,
}

/// The path of the file `name` within the directory `path` (empty for the
/// root of the source).
pub open spec fn joined_path(path: Seq<char>, name: Seq<char>) -> Seq<char> {
    if path.len() == 0 {
        name
    } else {
        path + seq!['/'] + name
    }
}

/// What analysing a file found.
#[derive(Clone, Debug, PartialEq, Eq)]
pub enum AnalysisOutcome {
    /// The name says nothing of the kind of file.
    Undetected,
    /// A kind of file that is not analysed further yet.
    Unsupported(FileType),
    /// A video, with the episode its path names, if any.
    Video(Option<TVShowFile>),
}

impl AnalyseFile {
    /// The path of the file within its source (see `joined_path`).
    pub fn relative_path(&self) -> (r: String)
        ensures
            r@ == joined_path(self.path@, self.file.name@),
    {
        if self.path.as_str().is_empty() {
            self.file.name.clone()
        } else {
            let mut r = String::new();
            push_str(&mut r, self.path.as_str());
            push_char(&mut r, '/');
            push_str(&mut r, self.file.name.as_str());
            r
        }
    }

    /// Analyses the file: its kind by its name, and for a video the episode
    /// that its path names.
    pub fn execute(&self) -> (r: AnalysisOutcome)
        ensures
            match file_type_of_name(self.file.name@) {
                None => r == AnalysisOutcome::Undetected,
                Some(FileType::Video) => r matches AnalysisOutcome::Video(t) && opt_tvshow_view(t) == (
                if regex_compiles(TVSHOW_FILENAME_PATTERN@) {
                    match regex_capture_groups(
                        TVSHOW_FILENAME_PATTERN@,
                        joined_path(self.path@, self.file.name@),
                    ) {
                        Some(g) => tvshow_of_groups(g),
                        None => None,
                    }
                } else {
                    None
                }),
                Some(kind) => r == AnalysisOutcome::Unsupported(kind),
            },
    {
        match FileType::detect(self.file.name.as_str()) {
            None => AnalysisOutcome::Undetected,
            Some(FileType::Video) => {
                let filepath = self.relative_path();
                let parser = TVShowFilenameParser::new();
                AnalysisOutcome::Video(parser.detect(filepath.as_str()))
            },
            Some(kind) => AnalysisOutcome::Unsupported(kind),
        }
    }
}

// ---------------------------------------------------------------------------
// Where a show's episodes are stored
// ---------------------------------------------------------------------------

/// The base-ten writing of a signed number, with `-` before a negative one.
pub open spec fn int_decimal(n: int) -> Seq<char> {
    if n < 0 {
        seq!['-'] + decimal((-n) as nat)
    } else {
        decimal(n as nat)
    }
}

/// The folder of a show: the slug of its name, then `_` and the year of its
/// first air date when it has one.
pub open spec fn folder_name_of(name: Seq<char>, first_air_year: Option<i32>) -> Seq<char> {
    match first_air_year {
        Some(y) => slug_of(name) + seq!['_'] + int_decimal(y as int),
        None => slug_of(name),
    }
}

/// The folder of a show (see `folder_name_of`).
pub fn folder_name(name: &str, first_air_year: Option<i32>) -> (r: String)
    ensures
        r@ == folder_name_of(name@, first_air_year),
        forall|i: int| 0 <= i < r@.len() ==> #[trigger] r@[i] != '/',
{
    let slug = slugify(name);
    proof {
        lemma_slug_has_no_slash(slug@);
    }
    with_year(slug, first_air_year)
}

/// `slug`, then `_` and `year` when there is one.
pub open spec fn with_year_of(slug: Seq<char>, year: Option<i32>) -> Seq<char> {
    match year {
        Some(y) => slug + seq!['_'] + int_decimal(y as int),
        None => slug,
    }
}

/// A show's folder from the slug of its name (see `with_year_of`); no `/`
/// comes in that was not in the slug.
pub fn with_year(slug: String, first_air_year: Option<i32>) -> (r: String)
    ensures
        r@ == with_year_of(slug@, first_air_year),
        (forall|i: int| 0 <= i < slug@.len() ==> #[trigger] slug@[i] != '/') ==> forall|i: int|
            0 <= i < r@.len() ==> #[trigger] r@[i] != '/',
{
    let ghost slug_view = slug@;
    let mut r = slug;
    let ghost slug = slug_view;
    match first_air_year {
        Some(y) => {
            push_char(&mut r, '_');
            if y < 0 {
                push_char(&mut r, '-');
                let m = (0i64 - y as i64) as u64;
                push_decimal(&mut r, m);
                proof {
                    lemma_decimal_digits(m as nat);
                    assert forall|i: int| 0 <= i < r@.len() && (forall|i: int| 0 <= i < slug.len() ==> #[trigger] slug[i] != '/') implies #[trigger] r@[i] != '/' by {
                        if i >= slug.len() + 2 {
                            assert(r@[i] == decimal(m as nat)[i - slug.len() - 2]);
                        } else if i < slug.len() {
                            assert(r@[i] == slug[i]);
                        }
                    }
                }
            } else {
                push_decimal(&mut r, y as u64);
                proof {
                    lemma_decimal_digits(y as nat);
                    assert forall|i: int| 0 <= i < r@.len() && (forall|i: int| 0 <= i < slug.len() ==> #[trigger] slug[i] != '/') implies #[trigger] r@[i] != '/' by {
                        if i >= slug.len() + 1 {
                            assert(r@[i] == decimal(y as nat)[i - slug.len() - 1]);
                        } else if i < slug.len() {
                            assert(r@[i] == slug[i]);
                        }
                    }
                }
            }
        },
        None => {},
    }
    r
}

proof fn lemma_slug_has_no_slash(s: Seq<char>)
    requires
        slug_shaped(s),
    ensures
        forall|i: int| 0 <= i < s.len() ==> #[trigger] s[i] != '/',
{
    assert forall|i: int| 0 <= i < s.len() implies #[trigger] s[i] != '/' by {
        assert(is_slug_char(s[i]));
    }
}

/// The folder of a season within a show's folder `base`: `S` and the season
/// number on two digits, under `base` unless `base` is empty.
pub open spec fn season_directory_of(base: Seq<char>, season: u64) -> Seq<char> {
    let dir = seq!['S'] + decimal_pad2(season as nat);
    if base.len() == 0 {
        dir
    } else {
        base + seq!['/'] + dir
    }
}

/// The folder of a season (see `season_directory_of`).
pub fn season_directory(base: &str, season: u64) -> (r: String)
    ensures
        r@ == season_directory_of(base@, season),
{
    let mut r = String::new();
    if !base.is_empty() {
        push_str(&mut r, base);
        push_char(&mut r, '/');
    }
    push_char(&mut r, 'S');
    push_decimal_pad2(&mut r, season);
    proof {
        if base@.len() == 0 {
            assert(r@ =~= seq!['S'] + decimal_pad2(season as nat));
        } else {
            assert(r@ =~= base@ + seq!['/'] + (seq!['S'] + decimal_pad2(season as nat)));
        }
    }
    r
}

/// The beginning of the names of an episode's files: the show's folder,
/// `_S`, the season and `E`, the episode, both on two digits.
pub open spec fn episode_file_prefix_of(base: Seq<char>, season: u64, episode: u64) -> Seq<char> {
    base + seq!['_', 'S'] + decimal_pad2(season as nat) + seq!['E'] + decimal_pad2(episode as nat)
}

/// The beginning of an episode's file names is the show's folder name, `_S`,
/// the season padded to two digits, `E` and the episode padded to two
/// digits (see `is_pad2_writing`); the folder of a season is `S` and the
/// season padded the same way, under the show's folder when there is one.
pub proof fn law_episode_names_pad_to_two_digits(base: Seq<char>, season: u64, episode: u64)
    ensures
        exists|p: Seq<char>, q: Seq<char>|
            #![trigger is_pad2_writing(p, season as nat), is_pad2_writing(q, episode as nat)]
            is_pad2_writing(p, season as nat) && is_pad2_writing(q, episode as nat)
                && episode_file_prefix_of(base, season, episode) == base + seq!['_', 'S'] + p + seq!['E'] + q,
        exists|p: Seq<char>|
            #![trigger is_pad2_writing(p, season as nat)]
            is_pad2_writing(p, season as nat) && season_directory_of(base, season) == (if base.len() == 0 {
                seq!['S'] + p
            } else {
                base + seq!['/', 'S'] + p
            }),
{
    law_pad2_writes_the_number(season as nat);
    law_pad2_writes_the_number(episode as nat);
    let p = decimal_pad2(season as nat);
    let q = decimal_pad2(episode as nat);
    assert(is_pad2_writing(p, season as nat) && is_pad2_writing(q, episode as nat));
    assert(base + seq!['/'] + (seq!['S'] + p) =~= base + seq!['/', 'S'] + p);
}

/// The beginning of the names of an episode's files (see
/// `episode_file_prefix_of`).
pub fn episode_file_prefix(base: &str, season: u64, episode: u64) -> (r: String)
    ensures
        r@ == episode_file_prefix_of(base@, season, episode),
{
    let mut r = String::new();
    push_str(&mut r, base);
    push_char(&mut r, '_');
    push_char(&mut r, 'S');
    push_decimal_pad2(&mut r, season);
    push_char(&mut r, 'E');
    push_decimal_pad2(&mut r, episode);
    proof {
        assert(r@ =~= episode_file_prefix_of(base@, season, episode));
    }
    r
}

/// Among the files of a season folder, given by their names (`None` for a
/// file whose name cannot be read), the positions of those whose name
/// begins with `prefix`, in order.
pub fn select_episode_files(names: &Vec<Option<String>>, prefix: &str) -> (r: Vec<usize>)
    ensures
        forall|k: int| 0 <= k < r@.len() ==> #[trigger] r@[k] < names@.len(),
        forall|k: int, l: int| 0 <= k < l < r@.len() ==> #[trigger] r@[k] < #[trigger] r@[l],
        forall|i: int|
            0 <= i < names@.len() ==> (r@.contains(i as usize) <==> (#[trigger] names@[i] matches Some(n)
                && has_prefix(n@, prefix@))),
{
    let p = chars_of(prefix);
    let mut r: Vec<usize> = Vec::new();
    let mut i: usize = 0;
    while i < names.len()
        invariant
            p@ == prefix@,
            i <= names@.len(),
            forall|k: int| 0 <= k < r@.len() ==> #[trigger] r@[k] < i,
            forall|k: int, l: int| 0 <= k < l < r@.len() ==> #[trigger] r@[k] < #[trigger] r@[l],
            forall|j: int|
                0 <= j < i ==> (r@.contains(j as usize) <==> (#[trigger] names@[j] matches Some(n)
                    && has_prefix(n@, prefix@))),
        decreases names@.len() - i,
    {
        let keep = match &names[i] {
            Some(n) => {
                let c = chars_of(n.as_str());
                starts_with(c.as_slice(), p.as_slice())
            },
            None => false,
        };
        let ghost before = r@;
        if keep {
            r.push(i);
        }
        proof {
            assert forall|j: int|
                0 <= j < i + 1 implies (r@.contains(j as usize) <==> (#[trigger] names@[j] matches Some(n)
                && has_prefix(n@, prefix@))) by {
                if j < i {
                    if r@.contains(j as usize) && !before.contains(j as usize) {
                        assert(r@.last() == i);
                    }
                    if before.contains(j as usize) {
                        let k = choose|k: int| 0 <= k < before.len() && before[k] == j as usize;
                        assert(r@[k] == j as usize);
                    }
                } else {
                    if keep {
                        assert(r@[r@.len() - 1] == i);
                    } else {
                        if r@.contains(i) {
                            let k = choose|k: int| 0 <= k < r@.len() && r@[k] == i;
                            assert(r@[k] < i);
                        }
                    }
                }
            }
        }
        i = i + 1;
    }
    r
}

} // verus!
