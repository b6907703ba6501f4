//! Storage sources: their configuration, the named set of them, and what the
//! library decides about paths and media types within a source.
use vstd::prelude::*;

use crate::named_map::NamedMap;
use crate::text::{chars_of, string_of};

verus! {

broadcast use vstd::string::group_string_axioms;

/// The essence (`type/subtype`) of the first media type that
/// `mime_guess::from_path` guesses for `path`, if any.
pub uninterp spec fn path_first_mime_essence(path: Seq<char>) -> Option<Seq<char>>;

/// Wraps `mime_guess::from_path(path).first()` and gives the guess's essence
/// string. The contract claims only that the result is
/// `path_first_mime_essence` of the path; the extension table is not stated.
#[verifier::external_body]
fn first_mime_essence(path: &str) -> (r: Option<String>)
    ensures
        match r {
            Some(e) => path_first_mime_essence(path@) == Some(e@),
            None => path_first_mime_essence(path@) is None,
        },
{
    mime_guess::from_path(path).first().map(|m| m.essence_str().to_string())
}

/// The media type recorded for a file found at `path`, when one is guessed.
pub fn guess_content_type(path: &str) -> (r: Option<String>)
    ensures
        match r {
            Some(e) => path_first_mime_essence(path@) == Some(e@),
            None => path_first_mime_essence(path@) is None,
        },
{
    first_mime_essence(path)
}

/// The media type a file is served with: the first guess for its path, or
/// `application/octet-stream`.
pub fn content_type(path: &str) -> (r: String)
    ensures
        r@ == (match path_first_mime_essence(path@) {
            Some(e) => e,
            None => "application/octet-stream"@,
        }),
{
    content_type_or_default(first_mime_essence(path))
}

/// The media type a file is served with, from the guess for its path: the
/// guess, or `application/octet-stream` without one.
pub fn content_type_or_default(guess: Option<String>) -> (r: String)
    ensures
        r@ == (match guess {
            Some(e) => e@,
            None => "application/octet-stream"@,
        }),
{
    match guess {
        Some(e) => e,
        None => "application/octet-stream".to_owned(),
    }
}

/// The region of a remote storage account.
#[derive(Clone, Debug, PartialEq, Eq)]
pub enum Region {
    Eu,
    Us,
    Other(String),
}

/// Whether `r` is the region that the configured name `name` selects: `eu`
/// and `us` name the two known regions, any other name a custom region of
/// that name.
pub open spec fn region_matches(r: Region, name: Seq<char>) -> bool {
    if name == "eu"@ {
        r == Region::Eu
    } else if name == "us"@ {
        r == Region::Us
    } else {
        (r matches Region::Other(n) && n@ == name)
    }
}

/// Selects the region named `name` (see `region_matches`).
pub fn region_from_name(name: &str) -> (r: Region)
    ensures
        region_matches(r, name@),
{
    let n = name.to_owned();
    let eu = "eu".to_owned();
    let us = "us".to_owned();
    if n == eu {
        Region::Eu
    } else if n == us {
        Region::Us
    } else {
        Region::Other(n)
    }
}

/// How a source is configured.
#[derive(Clone, Debug, PartialEq, Eq)]
pub enum SourceConfig {
    /// A directory of the local file system.
    Local { path: String },
    /// A folder of a remote storage account.
    PCloud { region: String, username: String, password: String, path: String },
}

/// A source of the local file system, rooted at a directory.
#[derive(Clone, Debug, PartialEq, Eq)]
pub struct LocalSource {
    pub root: String,
}

/// A source on a remote storage account: where the account lives, how to
/// sign in, and the folder the source is rooted at. It has no `Debug`, so
/// that the credentials it holds are never printed.
#[derive(Clone, PartialEq, Eq)]
pub struct PCloudSource {
    pub region: Region,
    pub username: String,
    pub password: String,
    pub root: String,
}

/// A source of either kind (no `Debug`: a remote source holds credentials).
#[derive(Clone, PartialEq, Eq)]
pub enum AnySource {
    Local(LocalSource),
    PCloud(PCloudSource),
}

impl View for SourceConfig {
    type V = SourceConfig;

    open spec fn view(&self) -> SourceConfig {
        *self
    }
}

impl View for AnySource {
    type V = AnySource;

    open spec fn view(&self) -> AnySource {
        *self
    }
}

/// Whether `s` is the source that `c` configures.
pub open spec fn built_from(c: SourceConfig, s: AnySource) -> bool {
    match c {
        SourceConfig::Local { path } => s matches AnySource::Local(l) && l.root@ == path@,
        SourceConfig::PCloud { region, username, password, path } => s matches AnySource::PCloud(p)
            && region_matches(p.region, region@) && p.username@ == username@ && p.password@
            == password@ && p.root@ == path@,
    }
}

impl SourceConfig {
    /// The source this configuration describes.
    pub fn build(&self) -> (r: AnySource)
        ensures
            built_from(*self, r),
    {
        match self {
            SourceConfig::Local { path } => AnySource::Local(LocalSource { root: path.clone() }),
            SourceConfig::PCloud { region, username, password, path } => AnySource::PCloud(
                PCloudSource {
                    region: region_from_name(region.as_str()),
                    username: username.clone(),
                    password: password.clone(),
                    root: path.clone(),
                },
            ),
        }
    }
}

/// The path of a file within a local source: the requested path without
/// its leading `/`, when it has one.
pub open spec fn child_path_of(path: Seq<char>) -> Seq<char> {
    if path.len() > 0 && path[0] == '/' {
        path.drop_first()
    } else {
        path
    }
}

/// The path of a file within a local source (see `child_path_of`).
pub fn child_path(path: &str) -> (r: String)
    ensures
        r@ == child_path_of(path@),
{
    let c = chars_of(path);
    if c.len() > 0 && c[0] == '/' {
        let rest = vstd::slice::slice_subrange(c.as_slice(), 1, c.len());
        string_of(rest)
    } else {
        path.to_owned()
    }
}

/// The named sources that a storage is configured with.
#[derive(Debug)]
pub struct StorageConfig {
    sources: NamedMap<SourceConfig>,
}

impl View for StorageConfig {
    type V = Map<Seq<char>, SourceConfig>;

    closed spec fn view(&self) -> Map<Seq<char>, SourceConfig> {
        self.sources@
    }
}

impl StorageConfig {
    /// The configuration's invariant.
    pub closed spec fn wf(&self) -> bool {
        self.sources.wf()
    }

    /// A configuration without sources.
    pub fn new() -> (r: StorageConfig)
        ensures
            r.wf(),
            r@ == Map::<Seq<char>, SourceConfig>::empty(),
    {
        StorageConfig { sources: NamedMap::new() }
    }

    /// Adds the source `source` under `name`, replacing a source of that name.
    pub fn add_source(&mut self, name: String, source: SourceConfig)
        requires
            old(self).wf(),
        ensures
            final(self).wf(),
            final(self)@ == old(self)@.insert(name@, source),
    {
        self.sources.insert(name, source);
    }

    /// The configuration with `source` added under `name`.
    pub fn with_source(self, name: String, source: SourceConfig) -> (r: StorageConfig)
        requires
            self.wf(),
        ensures
            r.wf(),
            r@ == self@.insert(name@, source),
    {
        let mut s = self;
        s.add_source(name, source);
        s
    }

    /// The storage with one source for each configured one, under the same
    /// name.
    pub fn build(&self) -> (r: Storage)
        requires
            self.wf(),
        ensures
            r.wf(),
            r@.dom() == self@.dom(),
            forall|k: Seq<char>| #[trigger] self@.contains_key(k) ==> built_from(self@[k], r@[k]),
    {
        let names = self.sources.names();
        let mut sources: NamedMap<AnySource> = NamedMap::new();
        let mut i: usize = 0;
        while i < names.len()
            invariant
                self.wf(),
                sources.wf(),
                i <= names@.len(),
                forall|k: Seq<char>| self@.contains_key(k) <==> exists|j: int| 0 <= j < names@.len() && #[trigger] names@[j]@ == k,
                forall|k: Seq<char>| sources@.contains_key(k) <==> exists|j: int| 0 <= j < i && #[trigger] names@[j]@ == k,
                forall|k: Seq<char>| #[trigger] sources@.contains_key(k) ==> self@.contains_key(k) && built_from(self@[k], sources@[k]),
            decreases names@.len() - i,
        {
            let name = &names[i];
            match self.sources.get(name.as_str()) {
                Some(config) => {
                    let source = config.build();
                    let ghost before = sources@;
                    sources.insert(name.clone(), source);
                    proof {
                        assert forall|k: Seq<char>| sources@.contains_key(k) <==> exists|j: int| 0 <= j < i + 1 && #[trigger] names@[j]@ == k by {
                            if k == name@ {
                                assert(names@[i as int]@ == k);
                            } else if sources@.contains_key(k) {
                                assert(before.contains_key(k));
                            } else {
                                if exists|j: int| 0 <= j < i + 1 && #[trigger] names@[j]@ == k {
                                    let j = choose|j: int| 0 <= j < i + 1 && #[trigger] names@[j]@ == k;
                                    assert(j < i);
                                }
                            }
                        }
                    }
                },
                None => {
                    proof {
                        assert(self@.contains_key(names@[i as int]@));
                    }
                },
            }
            i = i + 1;
        }
        proof {
            assert(sources@.dom() =~= self@.dom());
        }
        Storage { sources }
    }
}

/// The named sources of a storage (no `Debug`: a remote source holds
/// credentials).
pub struct Storage {
    sources: NamedMap<AnySource>,
}

impl View for Storage {
    type V = Map<Seq<char>, AnySource>;

    closed spec fn view(&self) -> Map<Seq<char>, AnySource> {
        self.sources@
    }
}

impl Storage {
    /// The storage's invariant.
    pub closed spec fn wf(&self) -> bool {
        self.sources.wf()
    }

    /// A storage without sources.
    pub fn new() -> (r: Storage)
        ensures
            r.wf(),
            r@ == Map::<Seq<char>, AnySource>::empty(),
    {
        Storage { sources: NamedMap::new() }
    }

    /// The source called `name`.
    pub fn source(&self, name: &str) -> (r: Option<&AnySource>)
        requires
            self.wf(),
        ensures
            match r {
                Some(s) => self@.contains_key(name@) && *s == self@[name@],
                None => !self@.contains_key(name@),
            },
    {
        self.sources.get(name)
    }

    /// The names of the sources, each once.
    pub fn sources(&self) -> (r: Vec<String>)
        requires
            self.wf(),
        ensures
            forall|k: Seq<char>| self@.contains_key(k) <==> exists|i: int| 0 <= i < r@.len() && #[trigger] r@[i]@ == k,
            forall|i: int, j: int| 0 <= i < j < r@.len() ==> #[trigger] r@[i]@ != #[trigger] r@[j]@,
    {
        self.sources.names()
    }
}

} // verus!
