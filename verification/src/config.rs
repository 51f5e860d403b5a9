//! The configuration as it is read, and its validation into an `AppConfig`.
//!
//! A TOML file is parsed into a `RawConfig`, where every setting may be
//! missing; `RawConfig::into_domain` fills in the defaults and rejects the
//! settings that are not allowed.

use vstd::prelude::*;

use crate::domain::{
    default_app_name, is_default_app_config, default_font_family, default_ui, default_window,
    AppConfig, CalendarConfig, CalendarProvider, DashboardSections, DisplayProfile, Event,
    GoogleOAuthConfig, NotesConfig, Shortcut, ThemeConfig, UiConfig, WidgetPosition, WindowConfig,
    DEFAULT_REFRESH_INTERVAL_SECONDS,
};
use crate::text::{all_whitespace, is_blank, same_text};

verus! {

broadcast use vstd::string::group_string_axioms;

/// The `[app]` table.
pub struct RawApp {
    pub name: Option<String>,
    pub refresh_interval_seconds: Option<u64>,
}

/// The `[window]` table; `opacity_bits` is the bit pattern of the `f32` opacity.
pub struct RawWindow {
    pub width: Option<u32>,
    pub height: Option<u32>,
    pub monitor: Option<u32>,
    pub position: Option<String>,
    pub margin_top: Option<u32>,
    pub margin_right: Option<u32>,
    pub opacity_bits: Option<u32>,
    pub always_on_top: Option<bool>,
}

/// The `[theme]` table.
pub struct RawTheme {
    pub font_family: Option<String>,
    pub font_size: Option<u16>,
    pub border_radius: Option<u16>,
    pub padding: Option<u16>,
}

/// The `[ui]` table.
pub struct RawUi {
    pub display_profile: Option<String>,
    pub show_sound_test_button: Option<bool>,
}

/// The `[calendar]` table.
pub struct RawCalendar {
    pub provider: Option<String>,
    pub google_oauth: Option<RawGoogleOAuth>,
}

/// The `[calendar.google_oauth]` table.
pub struct RawGoogleOAuth {
    pub calendar_id: Option<String>,
    pub calendar_ids: Option<Vec<String>>,
    pub include_tasks_today: Option<bool>,
    pub credentials_file: Option<String>,
    pub client_id: Option<String>,
    pub client_secret: Option<String>,
    pub refresh_token: Option<String>,
}

/// The `[sections]` table.
pub struct RawSections {
    pub show_clock: Option<bool>,
    pub show_events: Option<bool>,
    pub show_tasks: Option<bool>,
    pub show_system: Option<bool>,
    pub show_shortcuts: Option<bool>,
}

/// The `[notes]` table.
pub struct RawNotes {
    pub daily_file: Option<String>,
}

/// An `[[events]]` entry.
pub struct RawEvent {
    pub time: String,
    pub title: String,
    pub description: Option<String>,
}

/// A `[[shortcuts]]` entry.
pub struct RawShortcut {
    pub label: String,
    pub command: String,
}

/// A configuration file as parsed: every table may be missing.
pub struct RawConfig {
    pub app: Option<RawApp>,
    pub window: Option<RawWindow>,
    pub theme: Option<RawTheme>,
    pub ui: Option<RawUi>,
    pub calendar: Option<RawCalendar>,
    pub sections: Option<RawSections>,
    pub notes: Option<RawNotes>,
    pub events: Vec<RawEvent>,
    pub shortcuts: Vec<RawShortcut>,
}

/// Why a configuration cannot be loaded.
#[derive(Debug)]
pub enum ConfigError {
    NotFound(std::path::PathBuf),
    Read { path: std::path::PathBuf, source: std::io::Error },
    InvalidToml { path: std::path::PathBuf, source: toml::de::Error },
    InvalidPosition(String),
    InvalidDisplayProfile(String),
    InvalidCalendarProvider(String),
    MissingGoogleOAuthConfig,
    MissingGoogleOAuthField(&'static str),
    MissingGoogleCalendarIds,
    MissingGoogleOAuthClientCredentials,
    InvalidRefreshInterval,
}

/// The reasons for which a parsed configuration is rejected.
pub enum ConfigFault {
    InvalidPosition(Seq<char>),
    InvalidDisplayProfile(Seq<char>),
    InvalidCalendarProvider(Seq<char>),
    MissingGoogleOAuthConfig,
    MissingGoogleOAuthField(Seq<char>),
    MissingGoogleCalendarIds,
    MissingGoogleOAuthClientCredentials,
    InvalidRefreshInterval,
}

/// `e` is the error that reports `f`.
pub open spec fn reports(e: ConfigError, f: ConfigFault) -> bool {
    match (e, f) {
        (ConfigError::InvalidPosition(s), ConfigFault::InvalidPosition(t)) => s@ == t,
        (ConfigError::InvalidDisplayProfile(s), ConfigFault::InvalidDisplayProfile(t)) => s@ == t,
        (ConfigError::InvalidCalendarProvider(s), ConfigFault::InvalidCalendarProvider(t)) => s@
            == t,
        (ConfigError::MissingGoogleOAuthConfig, ConfigFault::MissingGoogleOAuthConfig) => true,
        (ConfigError::MissingGoogleOAuthField(s), ConfigFault::MissingGoogleOAuthField(t)) => s@
            == t,
        (ConfigError::MissingGoogleCalendarIds, ConfigFault::MissingGoogleCalendarIds) => true,
        (
            ConfigError::MissingGoogleOAuthClientCredentials,
            ConfigFault::MissingGoogleOAuthClientCredentials,
        ) => true,
        (ConfigError::InvalidRefreshInterval, ConfigFault::InvalidRefreshInterval) => true,
        _ => false,
    }
}

/// The position a `position` setting names.
pub open spec fn position_named(s: Seq<char>) -> Option<WidgetPosition> {
    if s == "top-left"@ {
        Some(WidgetPosition::TopLeft)
    } else if s == "top-right"@ {
        Some(WidgetPosition::TopRight)
    } else if s == "bottom-left"@ {
        Some(WidgetPosition::BottomLeft)
    } else if s == "bottom-right"@ {
        Some(WidgetPosition::BottomRight)
    } else {
        None
    }
}

/// The profile a `display_profile` setting names.
pub open spec fn display_profile_named(s: Seq<char>) -> Option<DisplayProfile> {
    if s == "plain"@ {
        Some(DisplayProfile::Plain)
    } else if s == "test-all-features"@ {
        Some(DisplayProfile::TestAllFeatures)
    } else {
        None
    }
}

/// The provider a `provider` setting names.
pub open spec fn calendar_provider_named(s: Seq<char>) -> Option<CalendarProvider> {
    if s == "local"@ {
        Some(CalendarProvider::Local)
    } else if s == "google-oauth"@ {
        Some(CalendarProvider::GoogleOAuth)
    } else {
        None
    }
}


/// `o`'s value, or `d` when it is missing.
pub open spec fn or_default<A>(o: Option<A>, d: A) -> A {
    match o {
        Some(v) => v,
        None => d,
    }
}

/// The text of `o`, or `d` when it is missing.
pub open spec fn text_or(o: Option<String>, d: Seq<char>) -> Seq<char> {
    match o {
        Some(s) => s@,
        None => d,
    }
}

/// The texts of a sequence of strings.
pub open spec fn texts(v: Seq<String>) -> Seq<Seq<char>> {
    v.map_values(|s: String| s@)
}

/// The texts of `ids` that are not blank, in order.
pub open spec fn non_blank(ids: Seq<Seq<char>>) -> Seq<Seq<char>>
    decreases ids.len(),
{
    if ids.len() == 0 {
        seq![]
    } else if all_whitespace(ids.last()) {
        non_blank(ids.drop_last())
    } else {
        non_blank(ids.drop_last()).push(ids.last())
    }
}

/// The calendar that the Google source reads first: `calendar_id`, or `primary`.
pub open spec fn calendar_id_of(g: RawGoogleOAuth) -> Seq<char> {
    text_or(g.calendar_id, "primary"@)
}

/// The calendars that the Google source reads: `calendar_ids` when it lists
/// any, else the one `calendar_id`; blank entries are dropped.
pub open spec fn calendar_ids_of(g: RawGoogleOAuth) -> Seq<Seq<char>> {
    let requested = match g.calendar_ids {
        Some(v) => if v@.len() > 0 {
            texts(v@)
        } else {
            seq![calendar_id_of(g)]
        },
        None => seq![calendar_id_of(g)],
    };
    non_blank(requested)
}

/// The fault of a `[calendar.google_oauth]` table, if any, in the order the
/// checks are made.
pub open spec fn google_oauth_fault(g: RawGoogleOAuth) -> Option<ConfigFault> {
    if g.credentials_file is None && !(g.client_id is Some && g.client_secret is Some) {
        Some(ConfigFault::MissingGoogleOAuthClientCredentials)
    } else if g.refresh_token is None {
        Some(ConfigFault::MissingGoogleOAuthField("refresh_token"@))
    } else if calendar_ids_of(g).len() == 0 {
        Some(ConfigFault::MissingGoogleCalendarIds)
    } else {
        None
    }
}

/// The provider a `[calendar]` table selects (`local` when it names none).
pub open spec fn provider_of(c: RawCalendar) -> CalendarProvider {
    match c.provider {
        Some(p) => or_default(calendar_provider_named(p@), CalendarProvider::Local),
        None => CalendarProvider::Local,
    }
}

/// The fault of a `[calendar]` table, if any.
pub open spec fn calendar_fault(c: RawCalendar) -> Option<ConfigFault> {
    match c.provider {
        Some(p) if calendar_provider_named(p@) is None => Some(
            ConfigFault::InvalidCalendarProvider(p@),
        ),
        _ => if provider_of(c) == CalendarProvider::GoogleOAuth {
            match c.google_oauth {
                Some(g) => google_oauth_fault(g),
                None => Some(ConfigFault::MissingGoogleOAuthConfig),
            }
        } else {
            None
        },
    }
}

/// The first fault of a parsed configuration, in the order the tables are
/// checked: `[app]`, `[window]`, `[ui]`, `[calendar]`.
pub open spec fn config_fault(raw: RawConfig) -> Option<ConfigFault> {
    match raw.app {
        Some(a) if a.refresh_interval_seconds == Some(0u64) => Some(
            ConfigFault::InvalidRefreshInterval,
        ),
        _ => match raw.window {
            Some(w) if w.position matches Some(p) && position_named(p@) is None => Some(
                ConfigFault::InvalidPosition(w.position->0@),
            ),
            _ => match raw.ui {
                Some(u) if u.display_profile matches Some(p) && display_profile_named(p@) is None => Some(
                    ConfigFault::InvalidDisplayProfile(u.display_profile->0@),
                ),
                _ => match raw.calendar {
                    Some(c) => calendar_fault(c),
                    None => None,
                },
            },
        },
    }
}

/// The window that a `[window]` table gives, defaults filling what it omits.
pub open spec fn window_of(w: Option<RawWindow>) -> WindowConfig {
    let d = default_window();
    match w {
        None => d,
        Some(w) => WindowConfig {
            width: or_default(w.width, d.width),
            height: or_default(w.height, d.height),
            monitor: or_default(w.monitor, d.monitor),
            position: match w.position {
                Some(p) => or_default(position_named(p@), d.position),
                None => d.position,
            },
            margin_top: or_default(w.margin_top, d.margin_top),
            margin_right: or_default(w.margin_right, d.margin_right),
            opacity_bits: or_default(w.opacity_bits, d.opacity_bits),
            always_on_top: or_default(w.always_on_top, d.always_on_top),
        },
    }
}

/// `t` is the theme that a `[theme]` table gives.
pub open spec fn theme_built(raw: Option<RawTheme>, t: ThemeConfig) -> bool {
    match raw {
        None => crate::domain::is_default_theme(t),
        Some(r) => {
            &&& t.font_family@ == text_or(r.font_family, default_font_family())
            &&& t.font_size == or_default(r.font_size, 13u16)
            &&& t.border_radius == or_default(r.border_radius, 16u16)
            &&& t.padding == or_default(r.padding, 16u16)
        },
    }
}

/// The interface options that a `[ui]` table gives.
pub open spec fn ui_of(u: Option<RawUi>) -> UiConfig {
    let d = default_ui();
    match u {
        None => d,
        Some(u) => UiConfig {
            display_profile: match u.display_profile {
                Some(p) => or_default(display_profile_named(p@), d.display_profile),
                None => d.display_profile,
            },
            show_sound_test_button: or_default(u.show_sound_test_button, d.show_sound_test_button),
        },
    }
}

/// `o` is the Google source that the table `g` gives.
pub open spec fn google_oauth_built(g: RawGoogleOAuth, o: GoogleOAuthConfig) -> bool {
    &&& o.calendar_id@ == calendar_id_of(g)
    &&& texts(o.calendar_ids@) == calendar_ids_of(g)
    &&& o.include_tasks_today == or_default(g.include_tasks_today, false)
    &&& o.credentials_file == g.credentials_file
    &&& o.client_id == g.client_id
    &&& o.client_secret == g.client_secret
    &&& g.refresh_token == Some(o.refresh_token)
}

/// `c` is the agenda source that a `[calendar]` table gives.
pub open spec fn calendar_built(raw: Option<RawCalendar>, c: CalendarConfig) -> bool {
    match raw {
        None => c.provider == CalendarProvider::Local && c.google_oauth is None,
        Some(r) => {
            &&& c.provider == provider_of(r)
            &&& if provider_of(r) == CalendarProvider::GoogleOAuth {
                r.google_oauth matches Some(g) && c.google_oauth matches Some(o)
                    && google_oauth_built(g, o)
            } else {
                c.google_oauth is None
            }
        },
    }
}

/// The sections that a `[sections]` table shows.
pub open spec fn sections_of(s: Option<RawSections>) -> DashboardSections {
    match s {
        None => DashboardSections {
            show_clock: true,
            show_events: true,
            show_tasks: true,
            show_system: true,
            show_shortcuts: true,
        },
        Some(s) => DashboardSections {
            show_clock: or_default(s.show_clock, true),
            show_events: or_default(s.show_events, true),
            show_tasks: or_default(s.show_tasks, true),
            show_system: or_default(s.show_system, true),
            show_shortcuts: or_default(s.show_shortcuts, true),
        },
    }
}

/// The event an `[[events]]` entry gives.
pub open spec fn event_of(r: RawEvent) -> Event {
    Event { time: r.time, title: r.title, description: r.description }
}

/// The shortcut a `[[shortcuts]]` entry gives.
pub open spec fn shortcut_of(r: RawShortcut) -> Shortcut {
    Shortcut { label: r.label, command: r.command }
}

/// `c` is the configuration that `raw` gives: each setting that `raw`
/// holds, and the default for each one it omits.
pub open spec fn config_built(raw: RawConfig, c: AppConfig) -> bool {
    &&& c.name@ == match raw.app {
        Some(a) => text_or(a.name, default_app_name()),
        None => default_app_name(),
    }
    &&& c.refresh_interval_seconds == match raw.app {
        Some(a) => or_default(a.refresh_interval_seconds, DEFAULT_REFRESH_INTERVAL_SECONDS),
        None => DEFAULT_REFRESH_INTERVAL_SECONDS,
    }
    &&& c.window == window_of(raw.window)
    &&& theme_built(raw.theme, c.theme)
    &&& c.ui == ui_of(raw.ui)
    &&& calendar_built(raw.calendar, c.calendar)
    &&& c.sections == sections_of(raw.sections)
    &&& c.notes.daily_file == match raw.notes {
        Some(n) => n.daily_file,
        None => None,
    }
    &&& c.events@ == raw.events@.map_values(|r: RawEvent| event_of(r))
    &&& c.shortcuts@ == raw.shortcuts@.map_values(|r: RawShortcut| shortcut_of(r))
}


/// The application name and refresh interval that an `[app]` table gives.
fn app_settings(app: Option<RawApp>) -> (r: Result<(String, u64), ConfigError>)
    ensures
        match app {
            Some(a) if a.refresh_interval_seconds == Some(0u64) => r matches Err(e) && reports(
                e,
                ConfigFault::InvalidRefreshInterval,
            ),
            _ => r matches Ok((name, seconds)) && name@ == match app {
                Some(a) => text_or(a.name, default_app_name()),
                None => default_app_name(),
            } && seconds == match app {
                Some(a) => or_default(a.refresh_interval_seconds, DEFAULT_REFRESH_INTERVAL_SECONDS),
                None => DEFAULT_REFRESH_INTERVAL_SECONDS,
            },
        },
{
    let defaults = AppConfig::default();
    let mut name = defaults.name;
    let mut seconds = defaults.refresh_interval_seconds;
    if let Some(app) = app {
        if let Some(n) = app.name {
            name = n;
        }
        if let Some(refresh_interval_seconds) = app.refresh_interval_seconds {
            if refresh_interval_seconds == 0 {
                return Err(ConfigError::InvalidRefreshInterval);
            }
            seconds = refresh_interval_seconds;
        }
    }
    Ok((name, seconds))
}

/// The window that a `[window]` table gives.
fn window_settings(window: Option<RawWindow>) -> (r: Result<WindowConfig, ConfigError>)
    ensures
        match window {
            Some(w) if w.position matches Some(p) && position_named(p@) is None => r matches Err(e)
                && reports(e, ConfigFault::InvalidPosition(w.position->0@)),
            _ => r == Ok::<WindowConfig, ConfigError>(window_of(window)),
        },
{
    match window {
        None => Ok(WindowConfig::default()),
        Some(window) => {
            let defaults = WindowConfig::default();
            let position = match &window.position {
                Some(position) => parse_position(position.as_str())?,
                None => defaults.position,
            };
            Ok(WindowConfig {
                width: unwrap_or_u32(window.width, defaults.width),
                height: unwrap_or_u32(window.height, defaults.height),
                monitor: unwrap_or_u32(window.monitor, defaults.monitor),
                position,
                margin_top: unwrap_or_u32(window.margin_top, defaults.margin_top),
                margin_right: unwrap_or_u32(window.margin_right, defaults.margin_right),
                opacity_bits: unwrap_or_u32(window.opacity_bits, defaults.opacity_bits),
                always_on_top: match window.always_on_top {
                    Some(b) => b,
                    None => defaults.always_on_top,
                },
            })
        },
    }
}

/// `o`'s value, or `d`.
fn unwrap_or_u32(o: Option<u32>, d: u32) -> (r: u32)
    ensures
        r == or_default(o, d),
{
    match o {
        Some(v) => v,
        None => d,
    }
}

/// `o`'s value, or `d`.
fn unwrap_or_u16(o: Option<u16>, d: u16) -> (r: u16)
    ensures
        r == or_default(o, d),
{
    match o {
        Some(v) => v,
        None => d,
    }
}

/// `o`'s value, or `d`.
fn unwrap_or_bool(o: Option<bool>, d: bool) -> (r: bool)
    ensures
        r == or_default(o, d),
{
    match o {
        Some(v) => v,
        None => d,
    }
}

/// The theme that a `[theme]` table gives.
fn theme_settings(theme: Option<RawTheme>) -> (t: ThemeConfig)
    ensures
        theme_built(theme, t),
{
    let defaults = ThemeConfig::default();
    match theme {
        None => defaults,
        Some(theme) => ThemeConfig {
            font_family: match theme.font_family {
                Some(f) => f,
                None => defaults.font_family,
            },
            font_size: unwrap_or_u16(theme.font_size, defaults.font_size),
            border_radius: unwrap_or_u16(theme.border_radius, defaults.border_radius),
            padding: unwrap_or_u16(theme.padding, defaults.padding),
        },
    }
}

/// The interface options that a `[ui]` table gives.
fn ui_settings(ui: Option<RawUi>) -> (r: Result<UiConfig, ConfigError>)
    ensures
        match ui {
            Some(u) if u.display_profile matches Some(p) && display_profile_named(p@) is None => r matches Err(
                e,
            ) && reports(e, ConfigFault::InvalidDisplayProfile(u.display_profile->0@)),
            _ => r == Ok::<UiConfig, ConfigError>(ui_of(ui)),
        },
{
    match ui {
        None => Ok(UiConfig::default()),
        Some(ui) => {
            let defaults = UiConfig::default();
            let display_profile = match &ui.display_profile {
                Some(display_profile) => parse_display_profile(display_profile.as_str())?,
                None => defaults.display_profile,
            };
            Ok(UiConfig {
                display_profile,
                show_sound_test_button: unwrap_or_bool(
                    ui.show_sound_test_button,
                    defaults.show_sound_test_button,
                ),
            })
        },
    }
}

/// The ids of `ids` that are not blank, in order.
fn keep_non_blank(ids: &Vec<String>) -> (kept: Vec<String>)
    ensures
        texts(kept@) == non_blank(texts(ids@)),
{
    let mut kept: Vec<String> = Vec::new();
    let mut i: usize = 0;
    while i < ids.len()
        invariant
            0 <= i <= ids@.len(),
            texts(kept@) == non_blank(texts(ids@.take(i as int))),
        decreases ids@.len() - i,
    {
        assert(texts(ids@.take(i + 1)).drop_last() =~= texts(ids@.take(i as int)));
        assert(texts(ids@.take(i + 1)).last() == ids@[i as int]@);
        if !is_blank(ids[i].as_str()) {
            kept.push(ids[i].clone());
            assert(texts(kept@) =~= non_blank(texts(ids@.take(i as int))).push(ids@[i as int]@));
        }
        i = i + 1;
    }
    assert(ids@.take(ids@.len() as int) =~= ids@);
    kept
}

/// The Google source that a `[calendar.google_oauth]` table gives.
fn google_oauth_settings(google_oauth: RawGoogleOAuth) -> (r: Result<GoogleOAuthConfig, ConfigError>)
    ensures
        match google_oauth_fault(google_oauth) {
            Some(f) => r matches Err(e) && reports(e, f),
            None => r matches Ok(o) && google_oauth_built(google_oauth, o),
        },
{
    let ghost g = google_oauth;
    let credentials_file = google_oauth.credentials_file;
    let client_id = google_oauth.client_id;
    let client_secret = google_oauth.client_secret;
    let has_credentials_file = credentials_file.is_some();
    let has_inline_credentials = client_id.is_some() && client_secret.is_some();
    if !has_credentials_file && !has_inline_credentials {
        return Err(ConfigError::MissingGoogleOAuthClientCredentials);
    }
    let calendar_id = match google_oauth.calendar_id {
        Some(id) => id,
        None => String::from_str("primary"),
    };
    let requested = match google_oauth.calendar_ids {
        Some(ids) => ids,
        None => Vec::new(),
    };
    let include_tasks_today = unwrap_or_bool(google_oauth.include_tasks_today, false);
    let refresh_token = match google_oauth.refresh_token {
        Some(token) => token,
        None => {
            proof {
                reveal_strlit("refresh_token");
            }
            return Err(ConfigError::MissingGoogleOAuthField("refresh_token"));
        },
    };
    let mut calendar_ids = requested;
    if calendar_ids.is_empty() {
        calendar_ids.push(calendar_id.clone());
    }
    proof {
        let requested_texts = match g.calendar_ids {
            Some(v) => if v@.len() > 0 {
                texts(v@)
            } else {
                seq![calendar_id_of(g)]
            },
            None => seq![calendar_id_of(g)],
        };
        assert(texts(calendar_ids@) =~= requested_texts);
    }
    let calendar_ids = keep_non_blank(&calendar_ids);
    if calendar_ids.is_empty() {
        return Err(ConfigError::MissingGoogleCalendarIds);
    }
    Ok(GoogleOAuthConfig {
        calendar_id,
        calendar_ids,
        include_tasks_today,
        credentials_file,
        client_id,
        client_secret,
        refresh_token,
    })
}

/// The agenda source that a `[calendar]` table gives.
fn calendar_settings(calendar: Option<RawCalendar>) -> (r: Result<CalendarConfig, ConfigError>)
    ensures
        match calendar {
            Some(c) => match calendar_fault(c) {
                Some(f) => r matches Err(e) && reports(e, f),
                None => r matches Ok(out) && calendar_built(calendar, out),
            },
            None => r matches Ok(out) && calendar_built(calendar, out),
        },
{
    let defaults = CalendarConfig::default();
    match calendar {
        None => Ok(defaults),
        Some(calendar) => {
            let provider = match &calendar.provider {
                Some(provider) => parse_calendar_provider(provider.as_str())?,
                None => defaults.provider,
            };
            let google_oauth = if provider == CalendarProvider::GoogleOAuth {
                match calendar.google_oauth {
                    Some(g) => Some(google_oauth_settings(g)?),
                    None => {
                        return Err(ConfigError::MissingGoogleOAuthConfig);
                    },
                }
            } else {
                None
            };
            Ok(CalendarConfig { provider, google_oauth })
        },
    }
}

/// The sections that a `[sections]` table shows.
fn sections_settings(sections: Option<RawSections>) -> (r: DashboardSections)
    ensures
        r == sections_of(sections),
{
    let defaults = DashboardSections::default();
    match sections {
        None => defaults,
        Some(sections) => DashboardSections {
            show_clock: unwrap_or_bool(sections.show_clock, defaults.show_clock),
            show_events: unwrap_or_bool(sections.show_events, defaults.show_events),
            show_tasks: unwrap_or_bool(sections.show_tasks, defaults.show_tasks),
            show_system: unwrap_or_bool(sections.show_system, defaults.show_system),
            show_shortcuts: unwrap_or_bool(sections.show_shortcuts, defaults.show_shortcuts),
        },
    }
}

/// The events that the `[[events]]` entries give, in order.
fn events_from_raw(raw: Vec<RawEvent>) -> (events: Vec<Event>)
    ensures
        events@ == raw@.map_values(|r: RawEvent| event_of(r)),
{
    let ghost all = raw@;
    let mut events: Vec<Event> = Vec::new();
    for r in it: raw.into_iter()
        invariant
            it.seq() == all,
            events@ == all.take(it.index() as int).map_values(|r: RawEvent| event_of(r)),
    {
        let ghost k = it.index();
        let event = Event { time: r.time, title: r.title, description: r.description };
        events.push(event);
        assert(all.take(k + 1).map_values(|r: RawEvent| event_of(r)) =~= all.take(k).map_values(
            |r: RawEvent| event_of(r),
        ).push(event_of(all[k as int])));
    }
    assert(all.take(all.len() as int) =~= all);
    events
}

/// The shortcuts that the `[[shortcuts]]` entries give, in order.
fn shortcuts_from_raw(raw: Vec<RawShortcut>) -> (shortcuts: Vec<Shortcut>)
    ensures
        shortcuts@ == raw@.map_values(|r: RawShortcut| shortcut_of(r)),
{
    let ghost all = raw@;
    let mut shortcuts: Vec<Shortcut> = Vec::new();
    for r in it: raw.into_iter()
        invariant
            it.seq() == all,
            shortcuts@ == all.take(it.index() as int).map_values(|r: RawShortcut| shortcut_of(r)),
    {
        let ghost k = it.index();
        let shortcut = Shortcut { label: r.label, command: r.command };
        shortcuts.push(shortcut);
        assert(all.take(k + 1).map_values(|r: RawShortcut| shortcut_of(r)) =~= all.take(
            k,
        ).map_values(|r: RawShortcut| shortcut_of(r)).push(shortcut_of(all[k as int])));
    }
    assert(all.take(all.len() as int) =~= all);
    shortcuts
}

impl RawConfig {
    /// The configuration that this parsed file gives: each setting it
    /// holds, and the default for each one it omits. It is rejected, with
    /// the first fault found, when `refresh_interval_seconds` is 0, when
    /// a window position, display profile or calendar provider is not one
    /// of the known names, or when the Google calendar source lacks its
    /// table, its client credentials (a credentials file, or both client id
    /// and secret), its refresh token, or a calendar id that is not blank.
    pub fn into_domain(self) -> (r: Result<AppConfig, ConfigError>)
        ensures
            match config_fault(self) {
                Some(f) => r matches Err(e) && reports(e, f),
                None => r matches Ok(c) && config_built(self, c),
            },
    {
        let (name, refresh_interval_seconds) = app_settings(self.app)?;
        let window = window_settings(self.window)?;
        let theme = theme_settings(self.theme);
        let ui = ui_settings(self.ui)?;
        let calendar = calendar_settings(self.calendar)?;
        let sections = sections_settings(self.sections);
        let notes = match self.notes {
            Some(notes) => NotesConfig { daily_file: notes.daily_file },
            None => NotesConfig { daily_file: None },
        };
        let events = events_from_raw(self.events);
        let shortcuts = shortcuts_from_raw(self.shortcuts);
        Ok(AppConfig {
            name,
            refresh_interval_seconds,
            window,
            theme,
            ui,
            calendar,
            sections,
            notes,
            events,
            shortcuts,
        })
    }
}


/// A file that sets nothing is accepted, and gives the default configuration.
pub proof fn lemma_empty_file_gives_defaults(raw: RawConfig, c: AppConfig)
    requires
        raw.app is None,
        raw.window is None,
        raw.theme is None,
        raw.ui is None,
        raw.calendar is None,
        raw.sections is None,
        raw.notes is None,
        raw.events@.len() == 0,
        raw.shortcuts@.len() == 0,
        config_built(raw, c),
    ensures
        config_fault(raw) is None,
        is_default_app_config(c),
{
}

/// Whether `r` is what loading the file at `path` gives when parsing its
/// text gave `parsed`: a parse error is reported with the path, a parsed
/// file is validated as `config_fault` and `config_built` say.
pub open spec fn parsed_loaded(
    path: std::path::PathBuf,
    parsed: Result<RawConfig, toml::de::Error>,
    r: Result<AppConfig, ConfigError>,
) -> bool {
    match parsed {
        Err(e) => r matches Err(ConfigError::InvalidToml { path: p, source: s }) && p == path && s
            == e,
        Ok(raw) => match config_fault(raw) {
            Some(f) => r matches Err(e) && reports(e, f),
            None => r matches Ok(c) && config_built(raw, c),
        },
    }
}

/// Every section is shown unless the file hides it: a loaded configuration
/// shows each of the five sections exactly when the `[sections]` table sets
/// its key to `true`, or omits the key, or the table is absent.
pub proof fn lemma_sections_shown_unless_hidden(
    path: std::path::PathBuf,
    raw: RawConfig,
    r: Result<AppConfig, ConfigError>,
)
    requires
        parsed_loaded(path, Ok(raw), r),
    ensures
        r matches Ok(c) ==> {
            let given = |key: Option<bool>| match key {
                Some(b) => b,
                None => true,
            };
            &&& c.sections.show_clock == match raw.sections {
                Some(t) => given(t.show_clock),
                None => true,
            }
            &&& c.sections.show_events == match raw.sections {
                Some(t) => given(t.show_events),
                None => true,
            }
            &&& c.sections.show_tasks == match raw.sections {
                Some(t) => given(t.show_tasks),
                None => true,
            }
            &&& c.sections.show_system == match raw.sections {
                Some(t) => given(t.show_system),
                None => true,
            }
            &&& c.sections.show_shortcuts == match raw.sections {
                Some(t) => given(t.show_shortcuts),
                None => true,
            }
        },
{
}

/// Loads the configuration of the application.
pub struct ConfigLoader;

impl ConfigLoader {
    /// The file to read: the one asked for, else the user's configuration
    /// file when there is one, else the example file.
    pub fn select_path(
        requested: Option<std::path::PathBuf>,
        user_config: Option<std::path::PathBuf>,
        example: std::path::PathBuf,
    ) -> (path: std::path::PathBuf)
        ensures
            path == match requested {
                Some(p) => p,
                None => match user_config {
                    Some(u) => u,
                    None => example,
                },
            },
    {
        match requested {
            Some(p) => p,
            None => match user_config {
                Some(u) => u,
                None => example,
            },
        }
    }

    /// The configuration of the file at `path`, given what parsing its text
    /// gave: a parse error is reported with the path, a parsed file is
    /// validated by `RawConfig::into_domain`.
    pub fn load_parsed(path: std::path::PathBuf, parsed: Result<RawConfig, toml::de::Error>) -> (r:
        Result<AppConfig, ConfigError>)
        ensures
            parsed_loaded(path, parsed, r),
    {
        match parsed {
            Err(source) => Err(ConfigError::InvalidToml { path, source }),
            Ok(raw) => raw.into_domain(),
        }
    }

    /// The configuration of the file at `path`, given what was found there:
    /// `None` when there is no such file, else what reading it gave, and
    /// when it was read, what parsing its text gave. A missing file and a
    /// failed read are reported with the path; the rest is as
    /// `load_parsed` says.
    pub fn load_found(
        path: std::path::PathBuf,
        found: Option<Result<Result<RawConfig, toml::de::Error>, std::io::Error>>,
    ) -> (r: Result<AppConfig, ConfigError>)
        ensures
            match found {
                None => r matches Err(ConfigError::NotFound(p)) && p == path,
                Some(Err(e)) => r matches Err(ConfigError::Read { path: p, source: s }) && p
                    == path && s == e,
                Some(Ok(parsed)) => parsed_loaded(path, parsed, r),
            },
    {
        match found {
            None => Err(ConfigError::NotFound(path)),
            Some(Err(source)) => Err(ConfigError::Read { path, source }),
            Some(Ok(parsed)) => Self::load_parsed(path, parsed),
        }
    }
}

/// Reads a window position: `top-left`, `top-right`, `bottom-left` or
/// `bottom-right`.
pub fn parse_position(position: &str) -> (r: Result<WidgetPosition, ConfigError>)
    ensures
        match position_named(position@) {
            Some(p) => r == Ok::<WidgetPosition, ConfigError>(p),
            None => r matches Err(e) && reports(e, ConfigFault::InvalidPosition(position@)),
        },
{
    if same_text(position, "top-left") {
        Ok(WidgetPosition::TopLeft)
    } else if same_text(position, "top-right") {
        Ok(WidgetPosition::TopRight)
    } else if same_text(position, "bottom-left") {
        Ok(WidgetPosition::BottomLeft)
    } else if same_text(position, "bottom-right") {
        Ok(WidgetPosition::BottomRight)
    } else {
        Err(ConfigError::InvalidPosition(String::from_str(position)))
    }
}

/// Reads a display profile: `plain` or `test-all-features`.
pub fn parse_display_profile(display_profile: &str) -> (r: Result<DisplayProfile, ConfigError>)
    ensures
        match display_profile_named(display_profile@) {
            Some(p) => r == Ok::<DisplayProfile, ConfigError>(p),
            None => r matches Err(e) && reports(
                e,
                ConfigFault::InvalidDisplayProfile(display_profile@),
            ),
        },
{
    if same_text(display_profile, "plain") {
        Ok(DisplayProfile::Plain)
    } else if same_text(display_profile, "test-all-features") {
        Ok(DisplayProfile::TestAllFeatures)
    } else {
        Err(ConfigError::InvalidDisplayProfile(String::from_str(display_profile)))
    }
}

/// Reads a calendar provider: `local` or `google-oauth`.
pub fn parse_calendar_provider(provider: &str) -> (r: Result<CalendarProvider, ConfigError>)
    ensures
        match calendar_provider_named(provider@) {
            Some(p) => r == Ok::<CalendarProvider, ConfigError>(p),
            None => r matches Err(e) && reports(e, ConfigFault::InvalidCalendarProvider(provider@)),
        },
{
    if same_text(provider, "local") {
        Ok(CalendarProvider::Local)
    } else if same_text(provider, "google-oauth") {
        Ok(CalendarProvider::GoogleOAuth)
    } else {
        Err(ConfigError::InvalidCalendarProvider(String::from_str(provider)))
    }
}

} // verus!
