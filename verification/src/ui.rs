//! The decisions of the web interface: the style classes of its components,
//! the labels of its buttons and badges, and the authentication state.
use vstd::prelude::*;

use crate::text::{decimal, decimal_pad2, push_char, push_decimal, push_decimal_pad2, push_str};

verus! {

broadcast use vstd::string::group_string_axioms;

/// The look of a badge.
#[derive(Clone, Copy, Debug, PartialEq, Eq)]
pub enum BadgeKind {
    Primary,
    Info,
    Warning,
    Danger,
    Default,
}

impl Default for BadgeKind {
    fn default() -> (r: BadgeKind)
        ensures
            r == BadgeKind::Default,
    {
        BadgeKind::Default
    }
}

/// The classes of a badge kind.
pub open spec fn badge_kind_classes(k: BadgeKind) -> Seq<char> {
    match k {
        BadgeKind::Primary => "border-green-800 text-green-800 bg-green-100"@,
        BadgeKind::Info => "border-blue-800 text-blue-800 bg-blue-100"@,
        BadgeKind::Warning => "border-orange-800 text-orange-800 bg-orange-100"@,
        BadgeKind::Danger => "border-red-800 text-red-800 bg-red-100"@,
        BadgeKind::Default => "border-gray-800 text-gray-800 bg-gray-200"@,
    }
}

impl BadgeKind {
    /// The classes of the kind (see `badge_kind_classes`).
    pub fn classes(&self) -> (r: &'static str)
        ensures
            r@ == badge_kind_classes(*self),
    {
        match self {
            BadgeKind::Primary => "border-green-800 text-green-800 bg-green-100",
            BadgeKind::Info => "border-blue-800 text-blue-800 bg-blue-100",
            BadgeKind::Warning => "border-orange-800 text-orange-800 bg-orange-100",
            BadgeKind::Danger => "border-red-800 text-red-800 bg-red-100",
            BadgeKind::Default => "border-gray-800 text-gray-800 bg-gray-200",
        }
    }
}

/// The size of a badge.
#[derive(Clone, Copy, Debug, PartialEq, Eq)]
pub enum BadgeSize {
    Normal,
    Small,
}

impl Default for BadgeSize {
    fn default() -> (r: BadgeSize)
        ensures
            r == BadgeSize::Normal,
    {
        BadgeSize::Normal
    }
}

/// The classes of a badge size.
pub open spec fn badge_size_classes(s: BadgeSize) -> Seq<char> {
    match s {
        BadgeSize::Normal => "px-3 py-1"@,
        BadgeSize::Small => "px-2 py-0.5"@,
    }
}

impl BadgeSize {
    /// The classes of the size (see `badge_size_classes`).
    pub fn classes(&self) -> (r: &'static str)
        ensures
            r@ == badge_size_classes(*self),
    {
        match self {
            BadgeSize::Normal => "px-3 py-1",
            BadgeSize::Small => "px-2 py-0.5",
        }
    }
}

/// `base`, then a space and `extra` when `extra` is not empty.
pub open spec fn with_extra(base: Seq<char>, extra: Seq<char>) -> Seq<char> {
    if extra.len() == 0 {
        base
    } else {
        base + seq![' '] + extra
    }
}

/// Appends a space and `extra` to `out` when `extra` is not empty.
fn push_extra(out: &mut String, extra: &str)
    ensures
        final(out)@ == with_extra(old(out)@, extra@),
{
    if !extra.is_empty() {
        push_char(out, ' ');
        push_str(out, extra);
    }
}

/// The classes of a badge: `border`, the kind's and the size's classes,
/// `rounded-full`, then the caller's classes.
pub open spec fn badge_classes_of(kind: BadgeKind, size: BadgeSize, extra: Seq<char>) -> Seq<char> {
    with_extra(
        "border "@ + badge_kind_classes(kind) + " "@ + badge_size_classes(size) + " rounded-full"@,
        extra,
    )
}

/// The classes of a badge (see `badge_classes_of`).
pub fn badge_classes(kind: BadgeKind, size: BadgeSize, extra: &str) -> (r: String)
    ensures
        r@ == badge_classes_of(kind, size, extra@),
{
    let mut r = String::new();
    push_str(&mut r, "border ");
    push_str(&mut r, kind.classes());
    push_str(&mut r, " ");
    push_str(&mut r, size.classes());
    push_str(&mut r, " rounded-full");
    let ghost base = r@;
    assert(base =~= "border "@ + badge_kind_classes(kind) + " "@ + badge_size_classes(size) + " rounded-full"@);
    push_extra(&mut r, extra);
    r
}

/// The look of a button.
#[derive(Clone, Copy, Debug, PartialEq, Eq)]
pub enum ButtonKind {
    Primary,
    Secondary,
    Info,
    Default,
}

impl Default for ButtonKind {
    fn default() -> (r: ButtonKind)
        ensures
            r == ButtonKind::Default,
    {
        ButtonKind::Default
    }
}

/// The classes of a button kind.
pub open spec fn button_kind_classes(k: ButtonKind) -> Seq<char> {
    match k {
        ButtonKind::Primary => "text-white bg-blue-500 hover:bg-blue-700"@,
        ButtonKind::Secondary => "text-white bg-emerald-500 hover:bg-emerald-700"@,
        ButtonKind::Info => "text-white bg-cyan-500 hover:bg-cyan-700"@,
        ButtonKind::Default => "bg-gray-300 hover:bg-gray-400"@,
    }
}

impl ButtonKind {
    /// The classes of the kind (see `button_kind_classes`).
    pub fn classes(&self) -> (r: &'static str)
        ensures
            r@ == button_kind_classes(*self),
    {
        match self {
            ButtonKind::Primary => "text-white bg-blue-500 hover:bg-blue-700",
            ButtonKind::Secondary => "text-white bg-emerald-500 hover:bg-emerald-700",
            ButtonKind::Info => "text-white bg-cyan-500 hover:bg-cyan-700",
            ButtonKind::Default => "bg-gray-300 hover:bg-gray-400",
        }
    }
}

/// The size of a button.
#[derive(Clone, Copy, Debug, PartialEq, Eq)]
pub enum ButtonSize {
    Normal,
    Small,
}

impl Default for ButtonSize {
    fn default() -> (r: ButtonSize)
        ensures
            r == ButtonSize::Normal,
    {
        ButtonSize::Normal
    }
}

/// The classes of a button size.
pub open spec fn button_size_classes(s: ButtonSize) -> Seq<char> {
    match s {
        ButtonSize::Normal => "text-sm px-4 py-2"@,
        ButtonSize::Small => "text-xs px-3 py-1"@,
    }
}

impl ButtonSize {
    /// The classes of the size (see `button_size_classes`).
    pub fn classes(&self) -> (r: &'static str)
        ensures
            r@ == button_size_classes(*self),
    {
        match self {
            ButtonSize::Normal => "text-sm px-4 py-2",
            ButtonSize::Small => "text-xs px-3 py-1",
        }
    }
}

/// The classes of a button: the kind's and the size's classes, `rounded
/// transition`, then the caller's classes.
pub open spec fn button_classes_of(kind: ButtonKind, size: ButtonSize, extra: Seq<char>) -> Seq<char> {
    with_extra(button_kind_classes(kind) + " "@ + button_size_classes(size) + " rounded transition"@, extra)
}

/// The classes of a button (see `button_classes_of`).
pub fn button_classes(kind: ButtonKind, size: ButtonSize, extra: &str) -> (r: String)
    ensures
        r@ == button_classes_of(kind, size, extra@),
{
    let mut r = String::new();
    push_str(&mut r, kind.classes());
    push_str(&mut r, " ");
    push_str(&mut r, size.classes());
    push_str(&mut r, " rounded transition");
    let ghost base = r@;
    assert(base =~= button_kind_classes(kind) + " "@ + button_size_classes(size) + " rounded transition"@);
    push_extra(&mut r, extra);
    r
}

/// The colour of a text.
#[derive(Clone, Copy, Debug, PartialEq, Eq)]
pub enum TextColor {
    Black,
    Gray,
}

impl Default for TextColor {
    fn default() -> (r: TextColor)
        ensures
            r == TextColor::Black,
    {
        TextColor::Black
    }
}

/// The class of a text colour.
pub open spec fn text_color_class(c: TextColor) -> Seq<char> {
    match c {
        TextColor::Black => "text-black"@,
        TextColor::Gray => "text-gray-600"@,
    }
}

impl TextColor {
    /// The class of the colour (see `text_color_class`).
    pub fn as_text_class(&self) -> (r: &'static str)
        ensures
            r@ == text_color_class(*self),
    {
        match self {
            TextColor::Black => "text-black",
            TextColor::Gray => "text-gray-600",
        }
    }
}

/// The size of a text.
#[derive(Clone, Copy, Debug, PartialEq, Eq)]
pub enum TextSize {
    Xxl,
    Xl,
    Lg,
    Md,
    Sm,
    Xs,
}

impl Default for TextSize {
    fn default() -> (r: TextSize)
        ensures
            r == TextSize::Md,
    {
        TextSize::Md
    }
}

/// The class of a text size.
pub open spec fn text_size_class(s: TextSize) -> Seq<char> {
    match s {
        TextSize::Xxl => "text-2xl"@,
        TextSize::Xl => "text-xl"@,
        TextSize::Lg => "text-lg"@,
        TextSize::Md => "text-md"@,
        TextSize::Sm => "text-sm"@,
        TextSize::Xs => "text-xs"@,
    }
}

impl TextSize {
    /// The class of the size (see `text_size_class`).
    pub fn as_text_class(&self) -> (r: &'static str)
        ensures
            r@ == text_size_class(*self),
    {
        match self {
            TextSize::Xxl => "text-2xl",
            TextSize::Xl => "text-xl",
            TextSize::Lg => "text-lg",
            TextSize::Md => "text-md",
            TextSize::Sm => "text-sm",
            TextSize::Xs => "text-xs",
        }
    }
}

/// Each text size has a class of its own, and so has each text colour:
/// two sizes (or two colours) with the same class are the same. Every one
/// of these classes is a `text-` class.
pub proof fn law_text_classes_are_distinct(a: TextSize, b: TextSize, c: TextColor, d: TextColor)
    ensures
        text_size_class(a) == text_size_class(b) ==> a == b,
        text_color_class(c) == text_color_class(d) ==> c == d,
        text_size_class(a).len() > 5 && text_size_class(a).take(5) == "text-"@,
        text_color_class(c).len() > 5 && text_color_class(c).take(5) == "text-"@,
{
    reveal_strlit("text-");
    reveal_strlit("text-2xl");
    reveal_strlit("text-xl");
    reveal_strlit("text-lg");
    reveal_strlit("text-md");
    reveal_strlit("text-sm");
    reveal_strlit("text-xs");
    reveal_strlit("text-black");
    reveal_strlit("text-gray-600");
    assert(text_size_class(a).take(5) =~= "text-"@);
    assert(text_color_class(c).take(5) =~= "text-"@);
    if text_size_class(a) == text_size_class(b) && a != b {
        assert(text_size_class(a)[5] != text_size_class(b)[5] || text_size_class(a)[6] != text_size_class(b)[6]
            || text_size_class(a).len() != text_size_class(b).len());
    }
    if text_color_class(c) == text_color_class(d) && c != d {
        assert(text_color_class(c).len() != text_color_class(d).len());
    }
}

/// The classes of a text: the caller's classes and a space when there are
/// any, the size's class, ` font-bold` when bold, a space and the colour's
/// class.
pub open spec fn text_classes_of(classes: Seq<char>, size: TextSize, bold: bool, color: TextColor) -> Seq<char> {
    (if classes.len() == 0 {
        classes
    } else {
        classes + seq![' ']
    }) + text_size_class(size) + (if bold {
        " font-bold"@
    } else {
        Seq::<char>::empty()
    }) + seq![' '] + text_color_class(color)
}

/// The classes of a text (see `text_classes_of`).
pub fn text_classes(classes: &str, size: TextSize, bold: bool, color: TextColor) -> (r: String)
    ensures
        r@ == text_classes_of(classes@, size, bold, color),
{
    let mut r = String::new();
    push_str(&mut r, classes);
    if !classes.is_empty() {
        push_char(&mut r, ' ');
    }
    push_str(&mut r, size.as_text_class());
    if bold {
        push_str(&mut r, " font-bold");
    }
    push_char(&mut r, ' ');
    push_str(&mut r, color.as_text_class());
    assert(r@ =~= text_classes_of(classes@, size, bold, color));
    r
}

/// The height class of a text placeholder.
pub open spec fn placeholder_height_of(size: TextSize) -> Seq<char> {
    match size {
        TextSize::Xxl => "h-[2rem]"@,
        TextSize::Xl | TextSize::Lg => "h-[1.75rem]"@,
        TextSize::Md => "h-[1.5rem]"@,
        _ => "h-[1rem]"@,
    }
}

/// The height class of a text placeholder (see `placeholder_height_of`).
pub fn placeholder_height(size: TextSize) -> (r: &'static str)
    ensures
        r@ == placeholder_height_of(size),
{
    match size {
        TextSize::Xxl => "h-[2rem]",
        TextSize::Xl | TextSize::Lg => "h-[1.75rem]",
        TextSize::Md => "h-[1.5rem]",
        _ => "h-[1rem]",
    }
}

/// The rounding class of a text placeholder.
pub open spec fn placeholder_round_of(size: TextSize) -> Seq<char> {
    match size {
        TextSize::Xxl => "rounded-xl"@,
        TextSize::Xl => "rounded-lg"@,
        _ => "rounded-md"@,
    }
}

/// The rounding class of a text placeholder (see `placeholder_round_of`).
pub fn placeholder_round(size: TextSize) -> (r: &'static str)
    ensures
        r@ == placeholder_round_of(size),
{
    match size {
        TextSize::Xxl => "rounded-xl",
        TextSize::Xl => "rounded-lg",
        _ => "rounded-md",
    }
}

/// The width class of a text placeholder: `w-full` when it spans the whole
/// width, else the given width, else `w-[240px]`.
pub open spec fn placeholder_width_of(full_width: bool, width: Option<Seq<char>>) -> Seq<char> {
    if full_width {
        "w-full"@
    } else {
        match width {
            Some(w) => w,
            None => "w-[240px]"@,
        }
    }
}

/// The classes of a text placeholder that stands for a value not there yet.
pub open spec fn placeholder_classes_of(classes: Seq<char>, full_width: bool, width: Option<Seq<char>>, size: TextSize) -> Seq<char> {
    classes + seq![' '] + placeholder_height_of(size) + seq![' '] + placeholder_width_of(full_width, width)
        + " animate-pulse "@ + placeholder_round_of(size) + " bg-gray-400"@
}

/// The classes of a text placeholder (see `placeholder_classes_of`).
pub fn placeholder_classes(classes: &str, full_width: bool, width: Option<&str>, size: TextSize) -> (r: String)
    ensures
        r@ == placeholder_classes_of(
            classes@,
            full_width,
            match width {
                Some(w) => Some(w@),
                None => None,
            },
            size,
        ),
{
    let w: &str = if full_width {
        "w-full"
    } else {
        match width {
            Some(w) => w,
            None => "w-[240px]",
        }
    };
    let mut r = String::new();
    push_str(&mut r, classes);
    push_char(&mut r, ' ');
    push_str(&mut r, placeholder_height(size));
    push_char(&mut r, ' ');
    push_str(&mut r, w);
    push_str(&mut r, " animate-pulse ");
    push_str(&mut r, placeholder_round(size));
    push_str(&mut r, " bg-gray-400");
    assert(r@ =~= placeholder_classes_of(
        classes@,
        full_width,
        match width {
            Some(w) => Some(w@),
            None => None,
        },
        size,
    ));
    r
}

/// The look of the follow button: plain while loading or once followed,
/// primary otherwise.
pub fn follow_button_kind(loading: bool, following: bool) -> (r: ButtonKind)
    ensures
        r == (if loading || following {
            ButtonKind::Default
        } else {
            ButtonKind::Primary
        }),
{
    if loading || following {
        ButtonKind::Default
    } else {
        ButtonKind::Primary
    }
}

/// The label of the follow button.
pub fn follow_button_label(loading: bool, following: bool) -> (r: &'static str)
    ensures
        r@ == (if loading {
            "Loading..."@
        } else if following {
            "Following"@
        } else {
            "Follow"@
        }),
{
    if loading {
        "Loading..."
    } else if following {
        "Following"
    } else {
        "Follow"
    }
}

/// The look of the watch button: always plain.
pub fn watch_button_kind() -> (r: ButtonKind)
    ensures
        r == ButtonKind::Default,
{
    ButtonKind::Default
}

/// The alternative text of the watch button.
pub fn watch_button_alt(loading: bool, completed: bool) -> (r: &'static str)
    ensures
        r@ == (if loading {
            "Loading..."@
        } else if completed {
            "Mark as unwatched"@
        } else {
            "Mark as watched"@
        }),
{
    if loading {
        "Loading..."
    } else if completed {
        "Mark as unwatched"
    } else {
        "Mark as watched"
    }
}

/// The label of the watch button.
pub fn watch_button_label(loading: bool, completed: bool) -> (r: &'static str)
    ensures
        r@ == (if loading {
            "Loading..."@
        } else if completed {
            "Mark unwatched"@
        } else {
            "Mark watched"@
        }),
{
    if loading {
        "Loading..."
    } else if completed {
        "Mark unwatched"
    } else {
        "Mark watched"
    }
}

/// Whether the signed-in user is known yet.
#[derive(Clone, Copy, Debug, PartialEq, Eq)]
pub enum AuthenticationState {
    Loading,
    Authenticated,
    Anonymous,
}

/// The authentication state: authenticated once a user came back, loading
/// while the request runs, anonymous otherwise.
pub fn authentication_state(has_user: bool, loading: bool) -> (r: AuthenticationState)
    ensures
        r == (if has_user {
            AuthenticationState::Authenticated
        } else if loading {
            AuthenticationState::Loading
        } else {
            AuthenticationState::Anonymous
        }),
{
    if has_user {
        AuthenticationState::Authenticated
    } else if loading {
        AuthenticationState::Loading
    } else {
        AuthenticationState::Anonymous
    }
}

/// The episodes of a show not watched yet (none when more are marked
/// watched than there are).
pub fn unseen_episodes(episode_count: u64, watched_episode_count: u64) -> (r: u64)
    ensures
        r == (if episode_count >= watched_episode_count {
            (episode_count - watched_episode_count) as u64
        } else {
            0
        }),
{
    episode_count.saturating_sub(watched_episode_count)
}

/// Whether a followed show is shown as completed: it has episodes and all of
/// them are watched.
pub fn shows_completed_badge(following: bool, episode_count: u64, watched_episode_count: u64) -> (r: bool)
    ensures
        r == (following && episode_count > 0 && episode_count == watched_episode_count),
{
    following && episode_count > 0 && episode_count == watched_episode_count
}

/// The watch status shown for an episode.
pub fn episode_watch_status(watched: bool) -> (r: &'static str)
    ensures
        r@ == (if watched {
            "Watched"@
        } else {
            "Not Watched"@
        }),
{
    if watched {
        "Watched"
    } else {
        "Not Watched"
    }
}

/// The availability shown for an episode: available when it has files.
pub fn episode_file_status(file_count: u64) -> (r: &'static str)
    ensures
        r@ == (if file_count > 0 {
            "Available"@
        } else {
            "Not Available"@
        }),
{
    if file_count > 0 {
        "Available"
    } else {
        "Not Available"
    }
}

// ---------------------------------------------------------------------------
// Pages and links
// ---------------------------------------------------------------------------

/// A page of the web interface.
#[derive(Clone, Copy, Debug, PartialEq, Eq)]
pub enum Route {
    Home,
    Login,
    TvshowIndex,
    TvshowSearch,
    TvshowView { tvshow_id: u64 },
    TvshowSeasonView { tvshow_id: u64, season_number: u64 },
    TvshowEpisodeView { tvshow_id: u64, season_number: u64, episode_number: u64 },
    NotFound,
}

/// The address of a page.
pub open spec fn route_path(r: Route) -> Seq<char> {
    match r {
        Route::Home => "/"@,
        Route::Login => "/login"@,
        Route::TvshowIndex => "/tvshows"@,
        Route::TvshowSearch => "/tvshows/search"@,
        Route::TvshowView { tvshow_id } => "/tvshows/"@ + decimal(tvshow_id as nat),
        Route::TvshowSeasonView { tvshow_id, season_number } => "/tvshows/"@ + decimal(tvshow_id as nat)
            + "/seasons/"@ + decimal(season_number as nat),
        Route::TvshowEpisodeView { tvshow_id, season_number, episode_number } => "/tvshows/"@
            + decimal(tvshow_id as nat) + "/seasons/"@ + decimal(season_number as nat) + "/episodes/"@
            + decimal(episode_number as nat),
        Route::NotFound => "/404"@,
    }
}

impl Route {
    /// The address of the page (see `route_path`).
    pub fn path(&self) -> (r: String)
        ensures
            r@ == route_path(*self),
    {
        let mut r = String::new();
        match *self {
            Route::Home => push_str(&mut r, "/"),
            Route::Login => push_str(&mut r, "/login"),
            Route::TvshowIndex => push_str(&mut r, "/tvshows"),
            Route::TvshowSearch => push_str(&mut r, "/tvshows/search"),
            Route::TvshowView { tvshow_id } => {
                push_str(&mut r, "/tvshows/");
                push_decimal(&mut r, tvshow_id);
            },
            Route::TvshowSeasonView { tvshow_id, season_number } => {
                push_str(&mut r, "/tvshows/");
                push_decimal(&mut r, tvshow_id);
                push_str(&mut r, "/seasons/");
                push_decimal(&mut r, season_number);
            },
            Route::TvshowEpisodeView { tvshow_id, season_number, episode_number } => {
                push_str(&mut r, "/tvshows/");
                push_decimal(&mut r, tvshow_id);
                push_str(&mut r, "/seasons/");
                push_decimal(&mut r, season_number);
                push_str(&mut r, "/episodes/");
                push_decimal(&mut r, episode_number);
            },
            Route::NotFound => push_str(&mut r, "/404"),
        }
        assert(r@ =~= route_path(*self));
        r
    }
}

/// The page an anonymous visitor asking for `route` is sent to after
/// signing in: none for the sign-in page itself, else the page asked for.
pub fn redirect_after_login(route: Route) -> (r: Option<Route>)
    ensures
        r == (if route == Route::Login {
            None
        } else {
            Some(route)
        }),
{
    match route {
        Route::Login => None,
        other => Some(other),
    }
}

/// Where the sign-in page goes once signed in: the page asked for, else home.
pub fn login_destination(redirect: Option<Route>) -> (r: Route)
    ensures
        r == (match redirect {
            Some(x) => x,
            None => Route::Home,
        }),
{
    match redirect {
        Some(x) => x,
        None => Route::Home,
    }
}

/// Where a signed-in user asking for `route` is sent instead: home for the
/// sign-in page, nowhere else.
pub fn signed_in_redirect(route: Route) -> (r: Option<Route>)
    ensures
        r == (if route == Route::Login {
            Some(Route::Home)
        } else {
            None
        }),
{
    match route {
        Route::Login => Some(Route::Home),
        _ => None,
    }
}

/// The title of an episode: the show's name, then ` S`, the season and `E`,
/// the episode, both on two digits.
pub open spec fn episode_title_of(name: Seq<char>, season: u64, episode: u64) -> Seq<char> {
    name + " S"@ + decimal_pad2(season as nat) + "E"@ + decimal_pad2(episode as nat)
}

/// The title of an episode (see `episode_title_of`).
pub fn episode_title(name: &str, season: u64, episode: u64) -> (r: String)
    ensures
        r@ == episode_title_of(name@, season, episode),
{
    let mut r = String::new();
    push_str(&mut r, name);
    push_str(&mut r, " S");
    push_decimal_pad2(&mut r, season);
    push_str(&mut r, "E");
    push_decimal_pad2(&mut r, episode);
    assert(r@ =~= episode_title_of(name@, season, episode));
    r
}

/// The heading of an episode in a season's list.
pub open spec fn episode_heading_of(number: u64, name: Seq<char>) -> Seq<char> {
    "Episode "@ + decimal(number as nat) + ": "@ + name
}

/// The heading of an episode in a season's list (see `episode_heading_of`).
pub fn episode_heading(number: u64, name: &str) -> (r: String)
    ensures
        r@ == episode_heading_of(number, name@),
{
    let mut r = String::new();
    push_str(&mut r, "Episode ");
    push_decimal(&mut r, number);
    push_str(&mut r, ": ");
    push_str(&mut r, name);
    assert(r@ =~= episode_heading_of(number, name@));
    r
}

/// `prefix` followed by `path`.
fn prefixed(prefix: &str, path: &str) -> (r: String)
    ensures
        r@ == prefix@ + path@,
{
    let mut r = String::new();
    push_str(&mut r, prefix);
    push_str(&mut r, path);
    assert(r@ =~= prefix@ + path@);
    r
}

/// The address of a show's or an episode's wide image.
pub fn backdrop_url(path: &str) -> (r: String)
    ensures
        r@ == "https://image.tmdb.org/t/p/w780"@ + path@,
{
    prefixed("https://image.tmdb.org/t/p/w780", path)
}

/// The address of a season's poster in a season card.
pub fn season_poster_url(path: &str) -> (r: String)
    ensures
        r@ == "https://image.tmdb.org/t/p/w300"@ + path@,
{
    prefixed("https://image.tmdb.org/t/p/w300", path)
}

/// The address of a poster on a show's or a season's page, through the
/// server's image cache.
pub fn cached_poster_url(path: &str) -> (r: String)
    ensures
        r@ == "/resources/tmdb/w500"@ + path@,
{
    prefixed("/resources/tmdb/w500", path)
}

/// The count shown on a season's card: the episodes left to watch, or
/// nothing (a check mark) once all are watched; the card shows no count for
/// a season without episodes.
pub fn season_badge_count(episode_count: u64, watched_episode_count: u64) -> (r: Option<u64>)
    ensures
        r == (if episode_count > watched_episode_count {
            Some((episode_count - watched_episode_count) as u64)
        } else {
            None::<u64>
        }),
{
    if episode_count > watched_episode_count {
        Some(episode_count - watched_episode_count)
    } else {
        None
    }
}

// ---------------------------------------------------------------------------
// What the pages show while their data loads
// ---------------------------------------------------------------------------

/// What a page shows in place of a list it loads.
#[derive(Clone, Copy, Debug, PartialEq, Eq)]
pub enum ListView {
    /// The loading indicator.
    Loading,
    /// The error message.
    Failed,
    /// The empty state.
    Empty,
    /// The items.
    Items,
}

/// What the search page and the followed shows page show of their list:
/// the loading indicator while it loads, the error message once loading
/// failed, the items when some came back, and the empty state when none
/// came back or the list is not there.
pub fn list_view(loading: bool, failed: bool, item_count: Option<usize>) -> (r: ListView)
    ensures
        r == (if loading {
            ListView::Loading
        } else if failed {
            ListView::Failed
        } else if item_count matches Some(n) && n > 0 {
            ListView::Items
        } else {
            ListView::Empty
        }),
{
    if loading {
        ListView::Loading
    } else if failed {
        ListView::Failed
    } else {
        match item_count {
            Some(n) => if n > 0 {
                ListView::Items
            } else {
                ListView::Empty
            },
            None => ListView::Empty,
        }
    }
}

/// What a page shows in place of a record it loads.
#[derive(Clone, Copy, Debug, PartialEq, Eq)]
pub enum SectionView {
    /// The loading indicator.
    Loading,
    /// The error message.
    Failed,
    /// The record.
    Shown,
    /// Nothing at all.
    Nothing,
}

/// The show on its own page: the show once it came back (even while a
/// reload runs), else the loading indicator while it loads, else the error
/// once loading failed, else nothing.
pub fn show_section_view(has_data: bool, loading: bool, failed: bool) -> (r: SectionView)
    ensures
        r == (if has_data {
            SectionView::Shown
        } else if loading {
            SectionView::Loading
        } else if failed {
            SectionView::Failed
        } else {
            SectionView::Nothing
        }),
{
    if has_data {
        SectionView::Shown
    } else if loading {
        SectionView::Loading
    } else if failed {
        SectionView::Failed
    } else {
        SectionView::Nothing
    }
}

/// The seasons on a show's page: the loading indicator while they load,
/// else the error once loading failed, else the seasons once they came
/// back, else nothing.
pub fn seasons_section_view(has_data: bool, loading: bool, failed: bool) -> (r: SectionView)
    ensures
        r == (if loading {
            SectionView::Loading
        } else if failed {
            SectionView::Failed
        } else if has_data {
            SectionView::Shown
        } else {
            SectionView::Nothing
        }),
{
    if loading {
        SectionView::Loading
    } else if failed {
        SectionView::Failed
    } else if has_data {
        SectionView::Shown
    } else {
        SectionView::Nothing
    }
}

/// The season, and its list of episodes, on a season's page: the error
/// once loading failed, else what came back, else the loading indicator.
pub fn season_section_view(has_data: bool, failed: bool) -> (r: SectionView)
    ensures
        r == (if failed {
            SectionView::Failed
        } else if has_data {
            SectionView::Shown
        } else {
            SectionView::Loading
        }),
{
    if failed {
        SectionView::Failed
    } else if has_data {
        SectionView::Shown
    } else {
        SectionView::Loading
    }
}

// ---------------------------------------------------------------------------
// A show's page
// ---------------------------------------------------------------------------

/// A badge beside a show's details.
#[derive(Clone, Copy, Debug, PartialEq, Eq)]
pub enum ShowBadge {
    /// Every episode watched.
    Completed,
    /// The show will have no more episodes.
    Terminated,
}

/// The badges in a row of badges: `Completed` when shown (see
/// `shows_completed_badge`), then `Terminated` for a terminated show.
pub open spec fn show_badge_list(completed: bool, terminated: bool) -> Seq<ShowBadge> {
    (if completed {
        seq![ShowBadge::Completed]
    } else {
        Seq::<ShowBadge>::empty()
    }) + (if terminated {
        seq![ShowBadge::Terminated]
    } else {
        Seq::<ShowBadge>::empty()
    })
}

/// The row of badges of a show: there is a row only for a show watched to
/// the end or terminated; it holds `Completed` for a followed show with
/// episodes that are all watched, and `Terminated` for a terminated show.
pub fn show_badges(
    watch_completed: bool,
    terminated: bool,
    following: bool,
    episode_count: u64,
    watched_episode_count: u64,
) -> (r: Option<Vec<ShowBadge>>)
    ensures
        r is Some <==> (watch_completed || terminated),
        r matches Some(v) ==> v@ == show_badge_list(
            following && episode_count > 0 && episode_count == watched_episode_count,
            terminated,
        ),
{
    if !(watch_completed || terminated) {
        return None;
    }
    let mut v: Vec<ShowBadge> = Vec::new();
    if shows_completed_badge(following, episode_count, watched_episode_count) {
        v.push(ShowBadge::Completed);
    }
    if terminated {
        v.push(ShowBadge::Terminated);
    }
    assert(v@ =~= show_badge_list(
        following && episode_count > 0 && episode_count == watched_episode_count,
        terminated,
    ));
    Some(v)
}

/// A button beside the follow button of a show.
#[derive(Clone, Copy, Debug, PartialEq, Eq)]
pub enum ShowAction {
    /// Refresh the show from its source.
    Refresh,
    /// Mark every episode watched.
    WatchAll,
    /// Mark every episode not watched.
    UnwatchAll,
}

/// The buttons beside the follow button: none for a show not followed;
/// for a followed show, `Refresh`, then `UnwatchAll` once it is watched to
/// the end, else `WatchAll`.
pub open spec fn show_action_list(following: bool, watch_completed: bool) -> Seq<ShowAction> {
    if following {
        seq![
            ShowAction::Refresh,
            if watch_completed {
                ShowAction::UnwatchAll
            } else {
                ShowAction::WatchAll
            },
        ]
    } else {
        Seq::empty()
    }
}

/// The buttons beside the follow button (see `show_action_list`).
pub fn show_actions(following: bool, watch_completed: bool) -> (r: Vec<ShowAction>)
    ensures
        r@ == show_action_list(following, watch_completed),
{
    let mut v: Vec<ShowAction> = Vec::new();
    if following {
        v.push(ShowAction::Refresh);
        if watch_completed {
            v.push(ShowAction::UnwatchAll);
        } else {
            v.push(ShowAction::WatchAll);
        }
    }
    assert(v@ =~= show_action_list(following, watch_completed));
    v
}

/// The label of a button beside the follow button; `refreshing` tells
/// whether a refresh runs.
pub fn show_action_label(action: ShowAction, refreshing: bool) -> (r: &'static str)
    ensures
        r@ == (match action {
            ShowAction::Refresh => if refreshing {
                "Refreshing..."@
            } else {
                "Refresh"@
            },
            ShowAction::WatchAll => "Mark all watched"@,
            ShowAction::UnwatchAll => "Unwatch all"@,
        }),
{
    match action {
        ShowAction::Refresh => if refreshing {
            "Refreshing..."
        } else {
            "Refresh"
        },
        ShowAction::WatchAll => "Mark all watched",
        ShowAction::UnwatchAll => "Unwatch all",
    }
}

/// The alternative text of a button beside the follow button.
pub fn show_action_alt(action: ShowAction) -> (r: &'static str)
    ensures
        r@ == (match action {
            ShowAction::Refresh => "Refresh TV Show"@,
            ShowAction::WatchAll => "Mark all episodes as watched"@,
            ShowAction::UnwatchAll => "Mark all episodes as not watched"@,
        }),
{
    match action {
        ShowAction::Refresh => "Refresh TV Show",
        ShowAction::WatchAll => "Mark all episodes as watched",
        ShowAction::UnwatchAll => "Mark all episodes as not watched",
    }
}

/// Whether a button beside the follow button is disabled: while its own
/// request runs.
pub fn show_action_disabled(action: ShowAction, refreshing: bool, watching: bool, unwatching: bool) -> (r: bool)
    ensures
        r == (match action {
            ShowAction::Refresh => refreshing,
            ShowAction::WatchAll => watching,
            ShowAction::UnwatchAll => unwatching,
        }),
{
    match action {
        ShowAction::Refresh => refreshing,
        ShowAction::WatchAll => watching,
        ShowAction::UnwatchAll => unwatching,
    }
}

/// The marks in the corner of a show's card. The first is the count badge:
/// shown only for a followed show with episodes, holding the episodes left
/// to watch, or `None` (a check mark) once all are watched. The second is
/// whether the heart is shown: for a followed show.
pub fn cardlet_marks(following: bool, episode_count: u64, watched_episode_count: u64) -> (r: (Option<Option<u64>>, bool))
    ensures
        r.0 == (if following && episode_count > 0 {
            Some(
                if episode_count > watched_episode_count {
                    Some((episode_count - watched_episode_count) as u64)
                } else {
                    None::<u64>
                },
            )
        } else {
            None::<Option<u64>>
        }),
        r.1 == following,
{
    let badge = if following && episode_count > 0 {
        let unseen = unseen_episodes(episode_count, watched_episode_count);
        if unseen > 0 {
            Some(Some(unseen))
        } else {
            Some(None)
        }
    } else {
        None
    };
    (badge, following)
}

} // verus!
