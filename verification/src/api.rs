//! The requests the web interface sends to the server's API, and how it
//! reads the answers it does not decode.
use vstd::prelude::*;

use crate::text::{decimal, has_prefix, push_decimal, push_str};

verus! {

broadcast use vstd::string::group_string_axioms;

/// The HTTP method of a request.
#[derive(Clone, Copy, Debug, PartialEq, Eq)]
pub enum HttpMethod {
    Get,
    Post,
    Delete,
}

/// A request to the API: method, path and query parameters; every request
/// carries the session's credentials.
#[derive(Clone, Debug, PartialEq, Eq)]
pub struct ApiRequest {
    pub method: HttpMethod,
    pub path: String,
    pub query: Vec<(String, String)>,
}

/// The path of a show.
pub open spec fn tvshow_path(id: u64) -> Seq<char> {
    "/api/tvshows/"@ + decimal(id as nat)
}

/// The path of a season of a show.
pub open spec fn season_path(id: u64, season: u64) -> Seq<char> {
    tvshow_path(id) + "/seasons/"@ + decimal(season as nat)
}

/// The path of an episode of a season.
pub open spec fn episode_path(id: u64, season: u64, episode: u64) -> Seq<char> {
    season_path(id, season) + "/episodes/"@ + decimal(episode as nat)
}

/// Whether `r` is a request by `method` for `path` with no query.
pub open spec fn is_request(r: ApiRequest, method: HttpMethod, path: Seq<char>) -> bool {
    r.method == method && r.path@ == path && r.query@.len() == 0
}

fn request(method: HttpMethod, path: String) -> (r: ApiRequest)
    ensures
        is_request(r, method, path@),
{
    ApiRequest { method, path, query: Vec::new() }
}

fn tvshow_base(id: u64) -> (r: String)
    ensures
        r@ == tvshow_path(id),
{
    let mut p = String::new();
    push_str(&mut p, "/api/tvshows/");
    push_decimal(&mut p, id);
    p
}

fn season_base(id: u64, season: u64) -> (r: String)
    ensures
        r@ == season_path(id, season),
{
    let mut p = tvshow_base(id);
    push_str(&mut p, "/seasons/");
    push_decimal(&mut p, season);
    p
}

fn episode_base(id: u64, season: u64, episode: u64) -> (r: String)
    ensures
        r@ == episode_path(id, season, episode),
{
    let mut p = season_base(id, season);
    push_str(&mut p, "/episodes/");
    push_decimal(&mut p, episode);
    p
}

/// The shows the user follows.
pub fn get_followed_tvshows_request() -> (r: ApiRequest)
    ensures
        is_request(r, HttpMethod::Get, "/api/tvshows"@),
{
    request(HttpMethod::Get, "/api/tvshows".to_owned())
}

/// A search for shows: nothing is asked for an empty query (the answer is
/// then an empty list), otherwise the query goes in the `q` parameter.
pub fn search_request(query: &str) -> (r: Option<ApiRequest>)
    ensures
        query@.len() == 0 ==> r is None,
        query@.len() > 0 ==> (r matches Some(req) && req.method == HttpMethod::Get && req.path@
            == "/api/tvshows/search"@ && req.query@.len() == 1 && req.query@[0].0@ == "q"@
            && req.query@[0].1@ == query@),
{
    if query.is_empty() {
        return None;
    }
    let mut q: Vec<(String, String)> = Vec::new();
    q.push(("q".to_owned(), query.to_owned()));
    Some(ApiRequest { method: HttpMethod::Get, path: "/api/tvshows/search".to_owned(), query: q })
}

/// A show.
pub fn get_by_id_request(tvshow_id: u64) -> (r: ApiRequest)
    ensures
        is_request(r, HttpMethod::Get, tvshow_path(tvshow_id)),
{
    request(HttpMethod::Get, tvshow_base(tvshow_id))
}

fn tvshow_action(method: HttpMethod, tvshow_id: u64, action: &str) -> (r: ApiRequest)
    ensures
        is_request(r, method, tvshow_path(tvshow_id) + action@),
{
    let mut p = tvshow_base(tvshow_id);
    push_str(&mut p, action);
    request(method, p)
}

/// Following a show.
pub fn follow_tvshow_request(tvshow_id: u64) -> (r: ApiRequest)
    ensures
        is_request(r, HttpMethod::Post, tvshow_path(tvshow_id) + "/follow"@),
{
    tvshow_action(HttpMethod::Post, tvshow_id, "/follow")
}

/// No longer following a show.
pub fn unfollow_tvshow_request(tvshow_id: u64) -> (r: ApiRequest)
    ensures
        is_request(r, HttpMethod::Delete, tvshow_path(tvshow_id) + "/follow"@),
{
    tvshow_action(HttpMethod::Delete, tvshow_id, "/follow")
}

/// Marking every episode of a show watched.
pub fn watch_tvshow_request(tvshow_id: u64) -> (r: ApiRequest)
    ensures
        is_request(r, HttpMethod::Post, tvshow_path(tvshow_id) + "/watch"@),
{
    tvshow_action(HttpMethod::Post, tvshow_id, "/watch")
}

/// Marking every episode of a show not watched.
pub fn unwatch_tvshow_request(tvshow_id: u64) -> (r: ApiRequest)
    ensures
        is_request(r, HttpMethod::Delete, tvshow_path(tvshow_id) + "/watch"@),
{
    tvshow_action(HttpMethod::Delete, tvshow_id, "/watch")
}

/// Synchronising a show with the catalogue.
pub fn tvshow_sync_request(tvshow_id: u64) -> (r: ApiRequest)
    ensures
        is_request(r, HttpMethod::Post, tvshow_path(tvshow_id) + "/sync"@),
{
    tvshow_action(HttpMethod::Post, tvshow_id, "/sync")
}

/// Whether a synchronisation answer with `status` succeeded (a 2xx status);
/// any other answer carries the error to decode.
pub fn sync_succeeded(status: u16) -> (r: bool)
    ensures
        r == (200 <= status && status < 300),
{
    status >= 200 && status < 300
}

/// The seasons of a show.
pub fn list_seasons_request(tvshow_id: u64) -> (r: ApiRequest)
    ensures
        is_request(r, HttpMethod::Get, tvshow_path(tvshow_id) + "/seasons"@),
{
    tvshow_action(HttpMethod::Get, tvshow_id, "/seasons")
}

/// A season of a show.
pub fn get_season_request(tvshow_id: u64, season_number: u64) -> (r: ApiRequest)
    ensures
        is_request(r, HttpMethod::Get, season_path(tvshow_id, season_number)),
{
    request(HttpMethod::Get, season_base(tvshow_id, season_number))
}

fn season_action(method: HttpMethod, tvshow_id: u64, season_number: u64, action: &str) -> (r: ApiRequest)
    ensures
        is_request(r, method, season_path(tvshow_id, season_number) + action@),
{
    let mut p = season_base(tvshow_id, season_number);
    push_str(&mut p, action);
    request(method, p)
}

/// Marking every episode of a season watched.
pub fn watch_season_request(tvshow_id: u64, season_number: u64) -> (r: ApiRequest)
    ensures
        is_request(r, HttpMethod::Post, season_path(tvshow_id, season_number) + "/watch"@),
{
    season_action(HttpMethod::Post, tvshow_id, season_number, "/watch")
}

/// Marking every episode of a season not watched.
pub fn unwatch_season_request(tvshow_id: u64, season_number: u64) -> (r: ApiRequest)
    ensures
        is_request(r, HttpMethod::Delete, season_path(tvshow_id, season_number) + "/watch"@),
{
    season_action(HttpMethod::Delete, tvshow_id, season_number, "/watch")
}

/// The episodes of a season.
pub fn list_episodes_request(tvshow_id: u64, season_number: u64) -> (r: ApiRequest)
    ensures
        is_request(r, HttpMethod::Get, season_path(tvshow_id, season_number) + "/episodes"@),
{
    season_action(HttpMethod::Get, tvshow_id, season_number, "/episodes")
}

fn episode_action(method: HttpMethod, tvshow_id: u64, season_number: u64, episode_number: u64, action: &str) -> (r: ApiRequest)
    ensures
        is_request(r, method, episode_path(tvshow_id, season_number, episode_number) + action@),
{
    let mut p = episode_base(tvshow_id, season_number, episode_number);
    push_str(&mut p, action);
    request(method, p)
}

/// Marking an episode watched.
pub fn watch_episode_request(tvshow_id: u64, season_number: u64, episode_number: u64) -> (r: ApiRequest)
    ensures
        is_request(r, HttpMethod::Post, episode_path(tvshow_id, season_number, episode_number) + "/watch"@),
{
    episode_action(HttpMethod::Post, tvshow_id, season_number, episode_number, "/watch")
}

/// Marking an episode not watched.
pub fn unwatch_episode_request(tvshow_id: u64, season_number: u64, episode_number: u64) -> (r: ApiRequest)
    ensures
        is_request(r, HttpMethod::Delete, episode_path(tvshow_id, season_number, episode_number) + "/watch"@),
{
    episode_action(HttpMethod::Delete, tvshow_id, season_number, episode_number, "/watch")
}

/// The next episodes to watch.
pub fn episode_watchlist_request() -> (r: ApiRequest)
    ensures
        is_request(r, HttpMethod::Get, "/api/tvshows/watchlist"@),
{
    request(HttpMethod::Get, "/api/tvshows/watchlist".to_owned())
}

/// The signed-in user.
pub fn get_me_request() -> (r: ApiRequest)
    ensures
        is_request(r, HttpMethod::Get, "/api/users/me"@),
{
    request(HttpMethod::Get, "/api/users/me".to_owned())
}

/// Signing in; the user name goes in the JSON body.
pub fn post_login_request() -> (r: ApiRequest)
    ensures
        is_request(r, HttpMethod::Post, "/api/users/login"@),
{
    request(HttpMethod::Post, "/api/users/login".to_owned())
}

/// What the follow button asks for: to stop following a followed show, to
/// follow any other.
pub fn toggle_follow_request(tvshow_id: u64, following: bool) -> (r: ApiRequest)
    ensures
        is_request(
            r,
            if following {
                HttpMethod::Delete
            } else {
                HttpMethod::Post
            },
            tvshow_path(tvshow_id) + "/follow"@,
        ),
{
    if following {
        unfollow_tvshow_request(tvshow_id)
    } else {
        follow_tvshow_request(tvshow_id)
    }
}

/// What the watch button of a season asks for: to mark it not watched once
/// watched, watched otherwise.
pub fn toggle_season_watch_request(tvshow_id: u64, season_number: u64, watched: bool) -> (r: ApiRequest)
    ensures
        is_request(
            r,
            if watched {
                HttpMethod::Delete
            } else {
                HttpMethod::Post
            },
            season_path(tvshow_id, season_number) + "/watch"@,
        ),
{
    if watched {
        unwatch_season_request(tvshow_id, season_number)
    } else {
        watch_season_request(tvshow_id, season_number)
    }
}

/// What the watch button of a season's page asks for. The page decides by
/// whether the show, not the season, is watched to the end, taken as not
/// watched while the show has not loaded: then it marks the season not
/// watched, otherwise watched.
pub fn season_page_watch_request(tvshow_id: u64, season_number: u64, show_watch_completed: Option<bool>) -> (r: ApiRequest)
    ensures
        is_request(
            r,
            if show_watch_completed == Some(true) {
                HttpMethod::Delete
            } else {
                HttpMethod::Post
            },
            season_path(tvshow_id, season_number) + "/watch"@,
        ),
{
    let watched = match show_watch_completed {
        Some(w) => w,
        None => false,
    };
    toggle_season_watch_request(tvshow_id, season_number, watched)
}

/// What the button of an episode in a season's list asks for.
pub fn toggle_episode_watch_request(tvshow_id: u64, season_number: u64, episode_number: u64, watched: bool) -> (r: ApiRequest)
    ensures
        is_request(
            r,
            if watched {
                HttpMethod::Delete
            } else {
                HttpMethod::Post
            },
            episode_path(tvshow_id, season_number, episode_number) + "/watch"@,
        ),
{
    if watched {
        unwatch_episode_request(tvshow_id, season_number, episode_number)
    } else {
        watch_episode_request(tvshow_id, season_number, episode_number)
    }
}

/// Replaces, in a season's list of episode numbers, every entry numbered
/// like `changed` by the changed episode: gives, for each position, whether
/// the entry there is replaced.
pub fn replaced_episodes(numbers: &Vec<u64>, changed: u64) -> (r: Vec<bool>)
    ensures
        r@.len() == numbers@.len(),
        forall|k: int| 0 <= k < r@.len() ==> #[trigger] r@[k] == (numbers@[k] == changed),
{
    let mut r: Vec<bool> = Vec::new();
    let mut i: usize = 0;
    while i < numbers.len()
        invariant
            i <= numbers@.len(),
            r@.len() == i,
            forall|k: int| 0 <= k < i ==> #[trigger] r@[k] == (numbers@[k] == changed),
        decreases numbers@.len() - i,
    {
        r.push(numbers[i] == changed);
        i = i + 1;
    }
    r
}

/// The paths nest: an episode's path begins with its season's path, which
/// begins with its show's path.
pub proof fn law_paths_nest(tvshow_id: u64, season: u64, episode: u64)
    ensures
        has_prefix(season_path(tvshow_id, season), tvshow_path(tvshow_id)),
        has_prefix(episode_path(tvshow_id, season, episode), season_path(tvshow_id, season)),
{
    let t = tvshow_path(tvshow_id);
    let s = season_path(tvshow_id, season);
    assert(s.take(t.len() as int) =~= t);
    let e = episode_path(tvshow_id, season, episode);
    assert(e.take(s.len() as int) =~= s);
}

} // verus!
