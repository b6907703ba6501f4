//! The data of the server-rendered pages.
use vstd::prelude::*;

use crate::entry::EntryInfo;

verus! {

/// The sign-in page, with the error of a failed attempt.
#[derive(Clone, Copy, Debug, Default, PartialEq, Eq)]
pub struct LoginView {
    pub error: Option<&'static str>,
}

impl LoginView {
    /// The sign-in page showing `error`.
    pub fn new(error: Option<&'static str>) -> (r: LoginView)
        ensures
            r.error == error,
    {
        LoginView { error }
    }
}

/// A page that sends the browser on to `redirect_url`.
#[derive(Clone, Debug, PartialEq, Eq)]
pub struct RedirectView {
    pub redirect_url: String,
}

impl RedirectView {
    /// A page that sends the browser to `redirect_url`.
    pub fn new(redirect_url: String) -> (r: RedirectView)
        ensures
            r.redirect_url == redirect_url,
    {
        RedirectView { redirect_url }
    }
}

/// The home page.
#[derive(Clone, Copy, Debug, PartialEq, Eq)]
pub struct HomeView {}

/// A page listing a directory of a source.
#[derive(Clone, Debug, PartialEq, Eq)]
pub struct StorageView {
    pub source: String,
    pub path: String,
    pub entries: Vec<EntryInfo>,
}

impl StorageView {
    /// The listing of `path` in `source`.
    pub fn new(source: String, path: String, entries: Vec<EntryInfo>) -> (r: StorageView)
        ensures
            r.source == source,
            r.path == path,
            r.entries == entries,
    {
        StorageView { source, path, entries }
    }
}

/// A video source of the player: its media type and address.
#[derive(Clone, Debug, PartialEq, Eq)]
pub struct Source {
    pub kind: String,
    pub src: String,
}

impl Source {
    /// The source of type `kind` at `src`.
    pub fn new(kind: String, src: String) -> (r: Source)
        ensures
            r.kind == kind,
            r.src == src,
    {
        Source { kind, src }
    }
}

/// The player page.
#[derive(Clone, Debug, PartialEq, Eq)]
pub struct WatchView {
    pub sources: Vec<Source>,
}

impl WatchView {
    /// The player with `sources`.
    pub fn new(sources: Vec<Source>) -> (r: WatchView)
        ensures
            r.sources == sources,
    {
        WatchView { sources }
    }
}

} // verus!
