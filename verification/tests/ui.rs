use entertainarr::config::{DatabaseConfig, FetcherConfig, TmdbConfig, TmdbConfigError};
use entertainarr::entry::EntryInfo;
use entertainarr::ui::{
    authentication_state, badge_classes, button_classes, episode_file_status,
    episode_watch_status, follow_button_kind, follow_button_label, placeholder_classes,
    placeholder_height, placeholder_round, shows_completed_badge, text_classes, unseen_episodes,
    watch_button_alt, watch_button_kind, watch_button_label, AuthenticationState, BadgeKind,
    BadgeSize, ButtonKind, ButtonSize, TextColor, TextSize,
};
use entertainarr::views::{HomeView, LoginView, RedirectView, Source, StorageView, WatchView};

#[test]
fn badge_and_button_classes() {
    assert_eq!(
        badge_classes(BadgeKind::Info, BadgeSize::Small, ""),
        "border border-blue-800 text-blue-800 bg-blue-100 px-2 py-0.5 rounded-full"
    );
    assert_eq!(
        badge_classes(BadgeKind::default(), BadgeSize::default(), "ml-2"),
        "border border-gray-800 text-gray-800 bg-gray-200 px-3 py-1 rounded-full ml-2"
    );
    assert_eq!(
        button_classes(ButtonKind::Primary, ButtonSize::Normal, "w-full"),
        "text-white bg-blue-500 hover:bg-blue-700 text-sm px-4 py-2 rounded transition w-full"
    );
    assert_eq!(ButtonKind::default(), ButtonKind::Default);
    assert_eq!(ButtonSize::Small.classes(), "text-xs px-3 py-1");
    assert_eq!(BadgeKind::Danger.classes(), "border-red-800 text-red-800 bg-red-100");
    assert_eq!(BadgeKind::Warning.classes(), "border-orange-800 text-orange-800 bg-orange-100");
    assert_eq!(BadgeKind::Primary.classes(), "border-green-800 text-green-800 bg-green-100");
    assert_eq!(ButtonKind::Secondary.classes(), "text-white bg-emerald-500 hover:bg-emerald-700");
    assert_eq!(ButtonKind::Info.classes(), "text-white bg-cyan-500 hover:bg-cyan-700");
}

#[test]
fn text_classes_and_placeholders() {
    assert_eq!(text_classes("", TextSize::default(), false, TextColor::default()), "text-md text-black");
    assert_eq!(text_classes("mb-2", TextSize::Xxl, true, TextColor::Gray), "mb-2 text-2xl font-bold text-gray-600");
    assert_eq!(TextSize::Xs.as_text_class(), "text-xs");
    assert_eq!(TextSize::Lg.as_text_class(), "text-lg");
    assert_eq!(placeholder_height(TextSize::Lg), "h-[1.75rem]");
    assert_eq!(placeholder_height(TextSize::Sm), "h-[1rem]");
    assert_eq!(placeholder_round(TextSize::Xl), "rounded-lg");
    assert_eq!(placeholder_round(TextSize::Md), "rounded-md");
    assert_eq!(
        placeholder_classes("", false, None, TextSize::Md),
        " h-[1.5rem] w-[240px] animate-pulse rounded-md bg-gray-400"
    );
    assert_eq!(
        placeholder_classes("x", true, Some("w-[10rem]"), TextSize::Xxl),
        "x h-[2rem] w-full animate-pulse rounded-xl bg-gray-400"
    );
    assert_eq!(
        placeholder_classes("x", false, Some("w-[10rem]"), TextSize::Xs),
        "x h-[1rem] w-[10rem] animate-pulse rounded-md bg-gray-400"
    );
}

#[test]
fn buttons_and_states() {
    assert_eq!(follow_button_kind(false, false), ButtonKind::Primary);
    assert_eq!(follow_button_kind(true, false), ButtonKind::Default);
    assert_eq!(follow_button_kind(false, true), ButtonKind::Default);
    assert_eq!(follow_button_label(true, true), "Loading...");
    assert_eq!(follow_button_label(false, true), "Following");
    assert_eq!(follow_button_label(false, false), "Follow");
    assert_eq!(watch_button_kind(), ButtonKind::Default);
    assert_eq!(watch_button_alt(false, true), "Mark as unwatched");
    assert_eq!(watch_button_alt(false, false), "Mark as watched");
    assert_eq!(watch_button_label(true, false), "Loading...");
    assert_eq!(watch_button_label(false, true), "Mark unwatched");
    assert_eq!(watch_button_label(false, false), "Mark watched");
    assert_eq!(authentication_state(true, true), AuthenticationState::Authenticated);
    assert_eq!(authentication_state(false, true), AuthenticationState::Loading);
    assert_eq!(authentication_state(false, false), AuthenticationState::Anonymous);
    assert_eq!(unseen_episodes(10, 3), 7);
    assert_eq!(unseen_episodes(3, 10), 0);
    assert!(shows_completed_badge(true, 4, 4));
    assert!(!shows_completed_badge(true, 0, 0));
    assert!(!shows_completed_badge(false, 4, 4));
    assert_eq!(episode_watch_status(true), "Watched");
    assert_eq!(episode_watch_status(false), "Not Watched");
    assert_eq!(episode_file_status(2), "Available");
    assert_eq!(episode_file_status(0), "Not Available");
}

#[test]
fn settings_defaults() {
    assert_eq!(DatabaseConfig::default().url, ":memory:");
    assert_eq!(DatabaseConfig::default_url(), ":memory:");
    assert_eq!(FetcherConfig::default().path, ".cache");
    assert_eq!(TmdbConfig::default_base_url(), "https://api.themoviedb.org/3");
    let t = TmdbConfig::default();
    assert_eq!(t.base_url, "");
    assert_eq!(t.api_key(), Err(TmdbConfigError::MissingToken));
    assert_eq!(TmdbConfigError::MissingToken.message(), "missing tmdb token");
    let t = TmdbConfig { base_url: TmdbConfig::default_base_url(), token: Some("abc".into()) };
    assert_eq!(t.api_key(), Ok("abc".to_string()));
}

#[test]
fn page_data() {
    assert_eq!(LoginView::new(Some("bad password")).error, Some("bad password"));
    assert_eq!(LoginView::new(None), LoginView::default());
    assert_eq!(RedirectView::new("/home".into()).redirect_url, "/home");
    let _ = HomeView {};
    let v = StorageView::new("tv".into(), "a".into(), Vec::<EntryInfo>::new());
    assert_eq!((v.source.as_str(), v.path.as_str(), v.entries.len()), ("tv", "a", 0));
    let w = WatchView::new(vec![Source::new("video/mp4".into(), "/x.mp4".into())]);
    assert_eq!(w.sources[0].kind, "video/mp4");
    assert_eq!(w.sources[0].src, "/x.mp4");
}

use entertainarr::ui::{
    backdrop_url, cached_poster_url, episode_heading, episode_title, login_destination,
    redirect_after_login, season_badge_count, season_poster_url, signed_in_redirect, Route,
};

#[test]
fn route_paths() {
    assert_eq!(Route::Home.path(), "/");
    assert_eq!(Route::Login.path(), "/login");
    assert_eq!(Route::TvshowIndex.path(), "/tvshows");
    assert_eq!(Route::TvshowSearch.path(), "/tvshows/search");
    assert_eq!(Route::TvshowView { tvshow_id: 3 }.path(), "/tvshows/3");
    assert_eq!(Route::TvshowSeasonView { tvshow_id: 3, season_number: 1 }.path(), "/tvshows/3/seasons/1");
    assert_eq!(
        Route::TvshowEpisodeView { tvshow_id: 3, season_number: 1, episode_number: 12 }.path(),
        "/tvshows/3/seasons/1/episodes/12"
    );
    assert_eq!(Route::NotFound.path(), "/404");
}

#[test]
fn sign_in_redirections() {
    assert_eq!(redirect_after_login(Route::Login), None);
    assert_eq!(redirect_after_login(Route::TvshowIndex), Some(Route::TvshowIndex));
    assert_eq!(login_destination(None), Route::Home);
    assert_eq!(login_destination(Some(Route::TvshowSearch)), Route::TvshowSearch);
    assert_eq!(signed_in_redirect(Route::Login), Some(Route::Home));
    assert_eq!(signed_in_redirect(Route::Home), None);
}

#[test]
fn titles_and_images() {
    assert_eq!(episode_title("The Office", 2, 5), "The Office S02E05");
    assert_eq!(episode_title("X", 10, 100), "X S10E100");
    assert_eq!(episode_heading(4, "Pilot"), "Episode 4: Pilot");
    assert_eq!(backdrop_url("/a.jpg"), "https://image.tmdb.org/t/p/w780/a.jpg");
    assert_eq!(season_poster_url("/b.jpg"), "https://image.tmdb.org/t/p/w300/b.jpg");
    assert_eq!(cached_poster_url("/c.jpg"), "/resources/tmdb/w500/c.jpg");
    assert_eq!(season_badge_count(10, 4), Some(6));
    assert_eq!(season_badge_count(4, 4), None);
    assert_eq!(season_badge_count(0, 3), None);
}

use entertainarr::ui::{
    list_view, season_section_view, seasons_section_view, show_action_alt, show_action_disabled,
    show_action_label, show_actions, show_badges, show_section_view, ListView, SectionView,
    ShowAction, ShowBadge,
};

#[test]
fn lists_show_loading_error_empty_or_items() {
    assert_eq!(list_view(true, true, Some(3)), ListView::Loading);
    assert_eq!(list_view(false, true, Some(3)), ListView::Failed);
    assert_eq!(list_view(false, false, Some(3)), ListView::Items);
    assert_eq!(list_view(false, false, Some(0)), ListView::Empty);
    assert_eq!(list_view(false, false, None), ListView::Empty);
}

#[test]
fn records_show_in_the_order_each_page_checks() {
    assert_eq!(show_section_view(true, true, true), SectionView::Shown);
    assert_eq!(show_section_view(false, true, true), SectionView::Loading);
    assert_eq!(show_section_view(false, false, true), SectionView::Failed);
    assert_eq!(show_section_view(false, false, false), SectionView::Nothing);
    assert_eq!(seasons_section_view(true, true, true), SectionView::Loading);
    assert_eq!(seasons_section_view(true, false, true), SectionView::Failed);
    assert_eq!(seasons_section_view(true, false, false), SectionView::Shown);
    assert_eq!(seasons_section_view(false, false, false), SectionView::Nothing);
    assert_eq!(season_section_view(true, true), SectionView::Failed);
    assert_eq!(season_section_view(true, false), SectionView::Shown);
    assert_eq!(season_section_view(false, false), SectionView::Loading);
}

#[test]
fn show_badges_row() {
    assert_eq!(show_badges(false, false, true, 3, 3), None);
    assert_eq!(show_badges(true, false, true, 3, 3), Some(vec![ShowBadge::Completed]));
    assert_eq!(show_badges(true, true, true, 3, 3), Some(vec![ShowBadge::Completed, ShowBadge::Terminated]));
    assert_eq!(show_badges(false, true, false, 3, 3), Some(vec![ShowBadge::Terminated]));
    assert_eq!(show_badges(true, false, false, 3, 3), Some(vec![]));
    assert_eq!(show_badges(true, false, true, 0, 0), Some(vec![]));
}

#[test]
fn show_buttons_only_when_following() {
    assert_eq!(show_actions(false, true), vec![]);
    assert_eq!(show_actions(true, false), vec![ShowAction::Refresh, ShowAction::WatchAll]);
    assert_eq!(show_actions(true, true), vec![ShowAction::Refresh, ShowAction::UnwatchAll]);
    assert_eq!(show_action_label(ShowAction::Refresh, true), "Refreshing...");
    assert_eq!(show_action_label(ShowAction::Refresh, false), "Refresh");
    assert_eq!(show_action_label(ShowAction::WatchAll, true), "Mark all watched");
    assert_eq!(show_action_label(ShowAction::UnwatchAll, false), "Unwatch all");
    assert_eq!(show_action_alt(ShowAction::Refresh), "Refresh TV Show");
    assert_eq!(show_action_alt(ShowAction::WatchAll), "Mark all episodes as watched");
    assert_eq!(show_action_alt(ShowAction::UnwatchAll), "Mark all episodes as not watched");
    assert!(show_action_disabled(ShowAction::Refresh, true, false, false));
    assert!(!show_action_disabled(ShowAction::WatchAll, true, false, true));
    assert!(show_action_disabled(ShowAction::UnwatchAll, false, false, true));
}

use entertainarr::ui::cardlet_marks;

#[test]
fn cardlet_marks_for_followed_shows() {
    assert_eq!(cardlet_marks(false, 10, 2), (None, false));
    assert_eq!(cardlet_marks(true, 10, 2), (Some(Some(8)), true));
    assert_eq!(cardlet_marks(true, 10, 10), (Some(None), true));
    assert_eq!(cardlet_marks(true, 10, 12), (Some(None), true));
    assert_eq!(cardlet_marks(true, 0, 0), (None, true));
}
