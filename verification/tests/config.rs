use std::path::PathBuf;

use desktop_cockpit::config::{
    parse_calendar_provider, parse_display_profile, parse_position, ConfigError, ConfigLoader,
    RawApp, RawCalendar, RawConfig, RawEvent, RawGoogleOAuth, RawNotes, RawSections,
    RawShortcut, RawTheme, RawUi, RawWindow,
};
use desktop_cockpit::domain::{
    AppConfig, CalendarProvider, DisplayProfile, WidgetPosition, DEFAULT_OPACITY_BITS,
};

fn empty_raw() -> RawConfig {
    RawConfig {
        app: None,
        window: None,
        theme: None,
        ui: None,
        calendar: None,
        sections: None,
        notes: None,
        events: Vec::new(),
        shortcuts: Vec::new(),
    }
}

fn google(
    calendar_ids: Option<Vec<&str>>,
    credentials_file: Option<&str>,
    client: Option<(&str, &str)>,
    refresh_token: Option<&str>,
) -> RawGoogleOAuth {
    RawGoogleOAuth {
        calendar_id: Some("primary".to_string()),
        calendar_ids: calendar_ids.map(|ids| ids.into_iter().map(String::from).collect()),
        include_tasks_today: None,
        credentials_file: credentials_file.map(String::from),
        client_id: client.map(|c| c.0.to_string()),
        client_secret: client.map(|c| c.1.to_string()),
        refresh_token: refresh_token.map(String::from),
    }
}

fn with_calendar(provider: &str, google_oauth: Option<RawGoogleOAuth>) -> RawConfig {
    RawConfig {
        calendar: Some(RawCalendar {
            provider: Some(provider.to_string()),
            google_oauth,
        }),
        ..empty_raw()
    }
}

fn load(raw: RawConfig) -> Result<AppConfig, ConfigError> {
    ConfigLoader::load_parsed(PathBuf::from("config.toml"), Ok(raw))
}

#[test]
fn loads_valid_config() {
    let raw = RawConfig {
        app: Some(RawApp {
            name: Some("Test Cockpit".to_string()),
            refresh_interval_seconds: Some(10),
        }),
        ui: Some(RawUi {
            display_profile: Some("test-all-features".to_string()),
            show_sound_test_button: Some(true),
        }),
        events: vec![RawEvent {
            time: "09:00".to_string(),
            title: "Planning".to_string(),
            description: None,
        }],
        ..empty_raw()
    };

    let config = load(raw).unwrap();

    assert_eq!(config.name, "Test Cockpit");
    assert_eq!(config.refresh_interval_seconds, 10);
    assert_eq!(config.ui.display_profile, DisplayProfile::TestAllFeatures);
    assert!(config.ui.show_sound_test_button);
    assert_eq!(config.events[0].title, "Planning");
}

#[test]
fn rejects_invalid_config() {
    let parse_error = toml::from_str::<toml::Table>("not = [valid").unwrap_err();
    let path = PathBuf::from("invalid.toml");

    let error = ConfigLoader::load_parsed(path.clone(), Err(parse_error)).unwrap_err();

    assert!(matches!(error, ConfigError::InvalidToml { .. }));
    if let ConfigError::InvalidToml { path: p, .. } = error {
        assert_eq!(p, path);
    }
}

#[test]
fn applies_defaults() {
    let config = load(empty_raw()).unwrap();

    assert_eq!(config.name, "Desktop Cockpit");
    assert_eq!(config.window.width, 360);
    assert_eq!(config.refresh_interval_seconds, 5);
    assert!(config.sections.show_clock);
}

#[test]
fn loads_google_oauth_calendar_config() {
    let raw = with_calendar(
        "google-oauth",
        Some(RawGoogleOAuth {
            include_tasks_today: Some(true),
            ..google(
                Some(vec!["primary", "work@example.com"]),
                Some("./credentials.json"),
                None,
                Some("refresh-token"),
            )
        }),
    );

    let config = load(raw).unwrap();

    assert_eq!(config.calendar.provider, CalendarProvider::GoogleOAuth);
    let oauth = config.calendar.google_oauth.unwrap();
    assert_eq!(oauth.calendar_id, "primary");
    assert_eq!(oauth.calendar_ids.len(), 2);
    assert!(oauth.include_tasks_today);
    assert_eq!(oauth.credentials_file.as_deref(), Some("./credentials.json"));
}

#[test]
fn rejects_google_oauth_without_credentials() {
    let raw = with_calendar(
        "google-oauth",
        Some(google(None, None, None, Some("refresh-token"))),
    );

    let error = load(raw).unwrap_err();

    assert!(matches!(
        error,
        ConfigError::MissingGoogleOAuthClientCredentials
    ));
}

#[test]
fn empty_file_gives_the_default_configuration() {
    let config = load(empty_raw()).unwrap();
    let defaults = AppConfig::default();

    assert_eq!(config, defaults);
    assert_eq!(config.theme.font_family, "JetBrains Mono");
    assert_eq!(config.window.position, WidgetPosition::TopRight);
    assert_eq!(config.window.opacity_bits, 0.92f32.to_bits());
    assert_eq!(DEFAULT_OPACITY_BITS, 0.92f32.to_bits());
    assert_eq!(config.calendar.provider, CalendarProvider::Local);
    assert!(config.calendar.google_oauth.is_none());
    assert!(config.notes.daily_file.is_none());
}

#[test]
fn keeps_every_given_setting() {
    let raw = RawConfig {
        window: Some(RawWindow {
            width: Some(400),
            height: None,
            monitor: Some(2),
            position: Some("bottom-left".to_string()),
            margin_top: None,
            margin_right: Some(8),
            opacity_bits: Some(0.5f32.to_bits()),
            always_on_top: Some(true),
        }),
        theme: Some(RawTheme {
            font_family: Some("Fira Code".to_string()),
            font_size: Some(11),
            border_radius: None,
            padding: Some(4),
        }),
        sections: Some(RawSections {
            show_clock: Some(false),
            show_events: None,
            show_tasks: Some(false),
            show_system: None,
            show_shortcuts: None,
        }),
        notes: Some(RawNotes {
            daily_file: Some("~/today.md".to_string()),
        }),
        shortcuts: vec![RawShortcut {
            label: "Terminal".to_string(),
            command: "ghostty".to_string(),
        }],
        ..empty_raw()
    };

    let config = load(raw).unwrap();

    assert_eq!(config.window.width, 400);
    assert_eq!(config.window.height, 520);
    assert_eq!(config.window.monitor, 2);
    assert_eq!(config.window.position, WidgetPosition::BottomLeft);
    assert_eq!(config.window.margin_top, 32);
    assert_eq!(config.window.margin_right, 8);
    assert_eq!(f32::from_bits(config.window.opacity_bits), 0.5);
    assert!(config.window.always_on_top);
    assert_eq!(config.theme.font_family, "Fira Code");
    assert_eq!(config.theme.font_size, 11);
    assert_eq!(config.theme.border_radius, 16);
    assert_eq!(config.theme.padding, 4);
    assert!(!config.sections.show_clock);
    assert!(config.sections.show_events);
    assert!(!config.sections.show_tasks);
    assert_eq!(config.notes.daily_file.as_deref(), Some("~/today.md"));
    assert_eq!(config.shortcuts[0].label, "Terminal");
    assert_eq!(config.shortcuts[0].command, "ghostty");
}

#[test]
fn rejects_a_zero_refresh_interval() {
    let raw = RawConfig {
        app: Some(RawApp {
            name: None,
            refresh_interval_seconds: Some(0),
        }),
        window: Some(RawWindow {
            width: None,
            height: None,
            monitor: None,
            position: Some("middle".to_string()),
            margin_top: None,
            margin_right: None,
            opacity_bits: None,
            always_on_top: None,
        }),
        ..empty_raw()
    };

    assert!(matches!(load(raw).unwrap_err(), ConfigError::InvalidRefreshInterval));
}

#[test]
fn rejects_unknown_names() {
    assert!(matches!(parse_position("middle"), Err(ConfigError::InvalidPosition(p)) if p == "middle"));
    assert!(matches!(parse_position("Top-Left"), Err(ConfigError::InvalidPosition(_))));
    assert_eq!(parse_position("top-left").unwrap(), WidgetPosition::TopLeft);
    assert_eq!(parse_position("bottom-right").unwrap(), WidgetPosition::BottomRight);
    assert!(matches!(
        parse_display_profile("fancy"),
        Err(ConfigError::InvalidDisplayProfile(p)) if p == "fancy"
    ));
    assert_eq!(parse_display_profile("plain").unwrap(), DisplayProfile::Plain);
    assert!(matches!(
        parse_calendar_provider("outlook"),
        Err(ConfigError::InvalidCalendarProvider(p)) if p == "outlook"
    ));
    assert_eq!(parse_calendar_provider("local").unwrap(), CalendarProvider::Local);

    let raw = RawConfig {
        ui: Some(RawUi {
            display_profile: Some("fancy".to_string()),
            show_sound_test_button: None,
        }),
        ..empty_raw()
    };
    assert!(matches!(load(raw).unwrap_err(), ConfigError::InvalidDisplayProfile(_)));
    assert!(matches!(
        load(with_calendar("outlook", None)).unwrap_err(),
        ConfigError::InvalidCalendarProvider(_)
    ));
}

#[test]
fn google_oauth_needs_its_table_token_and_a_calendar() {
    assert!(matches!(
        load(with_calendar("google-oauth", None)).unwrap_err(),
        ConfigError::MissingGoogleOAuthConfig
    ));
    assert!(matches!(
        load(with_calendar("google-oauth", Some(google(None, Some("c.json"), None, None))))
            .unwrap_err(),
        ConfigError::MissingGoogleOAuthField("refresh_token")
    ));
    assert!(matches!(
        load(with_calendar(
            "google-oauth",
            Some(google(Some(vec!["  ", "\t"]), Some("c.json"), None, Some("t")))
        ))
        .unwrap_err(),
        ConfigError::MissingGoogleCalendarIds
    ));
    assert!(matches!(
        load(with_calendar("google-oauth", Some(google(None, None, Some(("id", "")), None))))
            .unwrap_err(),
        ConfigError::MissingGoogleOAuthField("refresh_token")
    ));
}

#[test]
fn google_oauth_calendar_ids_fall_back_and_drop_blanks() {
    let config = load(with_calendar(
        "google-oauth",
        Some(google(Some(vec![]), None, Some(("id", "secret")), Some("t"))),
    ))
    .unwrap();
    let oauth = config.calendar.google_oauth.unwrap();
    assert_eq!(oauth.calendar_ids, vec!["primary".to_string()]);
    assert!(!oauth.include_tasks_today);
    assert_eq!(oauth.client_id.as_deref(), Some("id"));
    assert_eq!(oauth.refresh_token, "t");

    let config = load(with_calendar(
        "google-oauth",
        Some(google(Some(vec!["a", " ", "b"]), Some("c.json"), None, Some("t"))),
    ))
    .unwrap();
    assert_eq!(
        config.calendar.google_oauth.unwrap().calendar_ids,
        vec!["a".to_string(), "b".to_string()]
    );

    let config = load(with_calendar("local", Some(google(None, None, None, None)))).unwrap();
    assert_eq!(config.calendar.provider, CalendarProvider::Local);
    assert!(config.calendar.google_oauth.is_none());
}

#[test]
fn selects_the_configuration_file_in_order() {
    let requested = PathBuf::from("given.toml");
    let user = PathBuf::from("/home/u/.config/desktop-cockpit/config.toml");
    let example = PathBuf::from("examples/config.example.toml");

    assert_eq!(
        ConfigLoader::select_path(Some(requested.clone()), Some(user.clone()), example.clone()),
        requested
    );
    assert_eq!(
        ConfigLoader::select_path(None, Some(user.clone()), example.clone()),
        user
    );
    assert_eq!(ConfigLoader::select_path(None, None, example.clone()), example);
}

#[test]
fn load_found_reports_each_failure_with_the_path() {
    let path = PathBuf::from("missing.toml");
    match ConfigLoader::load_found(path.clone(), None) {
        Err(ConfigError::NotFound(p)) => assert_eq!(p, path),
        other => panic!("unexpected: {other:?}"),
    }

    let io_error = std::io::Error::new(std::io::ErrorKind::PermissionDenied, "denied");
    match ConfigLoader::load_found(path.clone(), Some(Err(io_error))) {
        Err(ConfigError::Read { path: p, source }) => {
            assert_eq!(p, path);
            assert_eq!(source.kind(), std::io::ErrorKind::PermissionDenied);
        }
        other => panic!("unexpected: {other:?}"),
    }

    let parse_error = toml::from_str::<toml::Table>("not = [valid").unwrap_err();
    match ConfigLoader::load_found(path.clone(), Some(Ok(Err(parse_error)))) {
        Err(ConfigError::InvalidToml { path: p, .. }) => assert_eq!(p, path),
        other => panic!("unexpected: {other:?}"),
    }

    let config = ConfigLoader::load_found(path, Some(Ok(Ok(empty_raw())))).unwrap();
    assert_eq!(config.name, "Desktop Cockpit");
}
