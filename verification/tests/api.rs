use entertainarr::api::{
    episode_watchlist_request, follow_tvshow_request, get_by_id_request,
    get_followed_tvshows_request, get_me_request, get_season_request, list_episodes_request,
    list_seasons_request, search_request, sync_succeeded, tvshow_sync_request,
    unfollow_tvshow_request, unwatch_episode_request, unwatch_season_request,
    unwatch_tvshow_request, watch_episode_request, watch_season_request, watch_tvshow_request,
    ApiRequest, HttpMethod,
};

fn req(method: HttpMethod, path: &str) -> ApiRequest {
    ApiRequest { method, path: path.to_string(), query: Vec::new() }
}

#[test]
fn show_requests() {
    assert_eq!(get_followed_tvshows_request(), req(HttpMethod::Get, "/api/tvshows"));
    assert_eq!(get_by_id_request(42), req(HttpMethod::Get, "/api/tvshows/42"));
    assert_eq!(follow_tvshow_request(7), req(HttpMethod::Post, "/api/tvshows/7/follow"));
    assert_eq!(unfollow_tvshow_request(7), req(HttpMethod::Delete, "/api/tvshows/7/follow"));
    assert_eq!(watch_tvshow_request(0), req(HttpMethod::Post, "/api/tvshows/0/watch"));
    assert_eq!(unwatch_tvshow_request(10), req(HttpMethod::Delete, "/api/tvshows/10/watch"));
    assert_eq!(tvshow_sync_request(1399), req(HttpMethod::Post, "/api/tvshows/1399/sync"));
}

#[test]
fn season_and_episode_requests() {
    assert_eq!(list_seasons_request(5), req(HttpMethod::Get, "/api/tvshows/5/seasons"));
    assert_eq!(get_season_request(5, 2), req(HttpMethod::Get, "/api/tvshows/5/seasons/2"));
    assert_eq!(watch_season_request(5, 2), req(HttpMethod::Post, "/api/tvshows/5/seasons/2/watch"));
    assert_eq!(unwatch_season_request(5, 2), req(HttpMethod::Delete, "/api/tvshows/5/seasons/2/watch"));
    assert_eq!(list_episodes_request(5, 2), req(HttpMethod::Get, "/api/tvshows/5/seasons/2/episodes"));
    assert_eq!(
        watch_episode_request(5, 2, 13),
        req(HttpMethod::Post, "/api/tvshows/5/seasons/2/episodes/13/watch")
    );
    assert_eq!(
        unwatch_episode_request(18446744073709551615, 0, 1),
        req(HttpMethod::Delete, "/api/tvshows/18446744073709551615/seasons/0/episodes/1/watch")
    );
    assert_eq!(episode_watchlist_request(), req(HttpMethod::Get, "/api/tvshows/watchlist"));
    assert_eq!(get_me_request(), req(HttpMethod::Get, "/api/users/me"));
}

#[test]
fn search_requests() {
    assert_eq!(search_request(""), None);
    let r = search_request("the office").unwrap();
    assert_eq!(r.method, HttpMethod::Get);
    assert_eq!(r.path, "/api/tvshows/search");
    assert_eq!(r.query, vec![("q".to_string(), "the office".to_string())]);
}

#[test]
fn sync_statuses() {
    assert!(sync_succeeded(200));
    assert!(sync_succeeded(204));
    assert!(sync_succeeded(299));
    assert!(!sync_succeeded(199));
    assert!(!sync_succeeded(300));
    assert!(!sync_succeeded(500));
}

use entertainarr::api::{
    post_login_request, replaced_episodes, toggle_episode_watch_request, toggle_follow_request,
    toggle_season_watch_request, season_page_watch_request,
};

#[test]
fn toggles() {
    assert_eq!(toggle_follow_request(8, true), req(HttpMethod::Delete, "/api/tvshows/8/follow"));
    assert_eq!(toggle_follow_request(8, false), req(HttpMethod::Post, "/api/tvshows/8/follow"));
    assert_eq!(toggle_season_watch_request(8, 1, true), req(HttpMethod::Delete, "/api/tvshows/8/seasons/1/watch"));
    assert_eq!(toggle_season_watch_request(8, 1, false), req(HttpMethod::Post, "/api/tvshows/8/seasons/1/watch"));
    assert_eq!(
        toggle_episode_watch_request(8, 1, 2, false),
        req(HttpMethod::Post, "/api/tvshows/8/seasons/1/episodes/2/watch")
    );
    assert_eq!(post_login_request(), req(HttpMethod::Post, "/api/users/login"));
    assert_eq!(replaced_episodes(&vec![1, 2, 3, 2], 2), vec![false, true, false, true]);
}

#[test]
fn season_page_decides_by_the_show() {
    assert_eq!(season_page_watch_request(8, 1, Some(true)), req(HttpMethod::Delete, "/api/tvshows/8/seasons/1/watch"));
    assert_eq!(season_page_watch_request(8, 1, Some(false)), req(HttpMethod::Post, "/api/tvshows/8/seasons/1/watch"));
    assert_eq!(season_page_watch_request(8, 1, None), req(HttpMethod::Post, "/api/tvshows/8/seasons/1/watch"));
}
