//! The server's settings and their defaults.
use vstd::prelude::*;

verus! {

broadcast use vstd::string::group_string_axioms;

/// Where the database lives.
#[derive(Clone, Debug, PartialEq, Eq)]
pub struct DatabaseConfig {
    pub url: String,
}

impl DatabaseConfig {
    /// The default database: one in memory.
    pub fn default_url() -> (r: String)
        ensures
            r@ == ":memory:"@,
    {
        ":memory:".to_owned()
    }
}

impl Default for DatabaseConfig {
    fn default() -> (r: DatabaseConfig)
        ensures
            r.url@ == ":memory:"@,
    {
        DatabaseConfig { url: DatabaseConfig::default_url() }
    }
}

/// Where fetched resources are cached.
#[derive(Clone, Debug, PartialEq, Eq)]
pub struct FetcherConfig {
    pub path: String,
}

impl FetcherConfig {
    /// The default cache directory.
    pub fn default_path() -> (r: String)
        ensures
            r@ == ".cache"@,
    {
        ".cache".to_owned()
    }
}

impl Default for FetcherConfig {
    fn default() -> (r: FetcherConfig)
        ensures
            r.path@ == ".cache"@,
    {
        FetcherConfig { path: FetcherConfig::default_path() }
    }
}

/// How the show catalogue is reached.
#[derive(Clone, Debug, PartialEq, Eq)]
pub struct TmdbConfig {
    pub base_url: String,
    pub token: Option<String>,
}

/// Why the catalogue client cannot be made.
#[derive(Clone, Copy, Debug, PartialEq, Eq)]
pub enum TmdbConfigError {
    /// No token is configured.
    MissingToken,
}

impl TmdbConfigError {
    /// The message that describes the error.
    pub fn message(&self) -> (r: &'static str)
        ensures
            r@ == "missing tmdb token"@,
    {
        match self {
            TmdbConfigError::MissingToken => "missing tmdb token",
        }
    }
}

impl TmdbConfig {
    /// The address of the public catalogue, used when none is configured.
    pub fn default_base_url() -> (r: String)
        ensures
            r@ == "https://api.themoviedb.org/3"@,
    {
        "https://api.themoviedb.org/3".to_owned()
    }

    /// The token the client signs in with: the configured one, or an error
    /// when there is none.
    pub fn api_key(&self) -> (r: Result<String, TmdbConfigError>)
        ensures
            match self.token {
                Some(t) => r matches Ok(k) && k@ == t@,
                None => r == Err::<String, TmdbConfigError>(TmdbConfigError::MissingToken),
            },
    {
        match &self.token {
            Some(t) => Ok(t.clone()),
            None => Err(TmdbConfigError::MissingToken),
        }
    }
}

impl Default for TmdbConfig {
    fn default() -> (r: TmdbConfig)
        ensures
            r.base_url@.len() == 0,
            r.token is None,
    {
        TmdbConfig { base_url: String::new(), token: None }
    }
}

} // verus!
