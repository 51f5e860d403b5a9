use desktop_cockpit::domain::{
    AppConfig, ClockInfo, Dashboard, DashboardSections, DisplayProfile, Event, Shortcut,
    SystemMetric, Task,
};
use desktop_cockpit::ui::{
    effective_window_width, render_text_dashboard, resolve_shortcut_command,
    should_show_sound_test_button, shortcut_icon,
};

fn sample(sections: DashboardSections) -> Dashboard {
    Dashboard {
        app_name: "Cockpit".to_string(),
        sections,
        clock: ClockInfo {
            time: "09:41".to_string(),
            date: "Monday, 03 Feb".to_string(),
        },
        events: vec![Event {
            time: "10:00".to_string(),
            title: "Daily".to_string(),
            description: None,
        }],
        tasks: vec![Task {
            title: "Review".to_string(),
            completed: false,
        }],
        system: SystemMetric::default(),
        shortcuts: vec![
            Shortcut {
                label: "Terminal".to_string(),
                command: "ghostty".to_string(),
            },
            Shortcut {
                label: "IntelliJ".to_string(),
                command: "idea".to_string(),
            },
        ],
    }
}

#[test]
fn renders_every_section() {
    let text = render_text_dashboard(&sample(DashboardSections::default()), "07", "42");

    assert_eq!(
        text,
        "09:41\nMonday, 03 Feb\n\nProximos eventos\n10:00  Daily\n\nTop 3\n[] Review\n\nSistema\nCPU  07%\nRAM  42%\n\nAtalhos\n[Terminal] [IntelliJ] \n"
    );
}

#[test]
fn renders_only_shown_sections() {
    let sections = DashboardSections {
        show_clock: false,
        show_events: true,
        show_tasks: false,
        show_system: false,
        show_shortcuts: false,
    };
    assert_eq!(
        render_text_dashboard(&sample(sections), "1", "2"),
        "Proximos eventos\n10:00  Daily\n\n"
    );

    let hidden = DashboardSections {
        show_events: false,
        ..sections
    };
    assert_eq!(render_text_dashboard(&sample(hidden), "1", "2"), "");
}

#[test]
fn resolves_known_shortcuts() {
    assert_eq!(
        resolve_shortcut_command("IntelliJ", "  idea "),
        "$HOME/.local/share/JetBrains/Toolbox/scripts/idea || idea || intellij-idea-ultimate || intellij-idea-community || flatpak run com.jetbrains.IntelliJ-IDEA-Ultimate || flatpak run com.jetbrains.IntelliJ-IDEA-Community"
    );
    assert_eq!(
        resolve_shortcut_command("PODMAN", "anything"),
        "podman-desktop || flatpak run io.podman_desktop.PodmanDesktop"
    );
    assert_eq!(resolve_shortcut_command("IntelliJ", "idea-ce"), "idea-ce");
    assert_eq!(resolve_shortcut_command("Terminal", "ghostty"), "ghostty");
    assert_eq!(shortcut_icon("anything"), "\u{25c8}");
}

#[test]
fn window_width_prefers_content_and_caps() {
    assert_eq!(effective_window_width(420, 360), 420);
    assert_eq!(effective_window_width(0, 360), 360);
    assert_eq!(effective_window_width(-5, 0), 1);
    assert_eq!(effective_window_width(1200, 360), 900);
    assert_eq!(effective_window_width(0, 5000), 900);
    assert_eq!(effective_window_width(0, u32::MAX), 1);
}

#[test]
fn sound_test_button_follows_profile_or_flag() {
    let mut config = AppConfig::default();
    assert!(!should_show_sound_test_button(&config));
    config.ui.show_sound_test_button = true;
    assert!(should_show_sound_test_button(&config));
    config.ui.show_sound_test_button = false;
    config.ui.display_profile = DisplayProfile::TestAllFeatures;
    assert!(should_show_sound_test_button(&config));
}
