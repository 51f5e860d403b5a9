use desktop_cockpit::timer::{
    format_timer, mode_button_active, timer_modes, PomodoroState, TimerAction, TimerMode,
};

#[test]
fn formats_minutes_and_seconds() {
    assert_eq!(format_timer(0), "00:00");
    assert_eq!(format_timer(61), "01:01");
    assert_eq!(format_timer(3000), "50:00");
    assert_eq!(format_timer(59), "00:59");
    assert_eq!(format_timer(6000), "100:00");
    assert_eq!(format_timer(u32::MAX), "71582788:15");
}

#[test]
fn a_session_runs_for_its_length() {
    let mut state = PomodoroState::new();
    assert_eq!(state.timer_text, "00:00");
    assert_eq!(state.status_text, "Aguardando protocolo");

    let action = state.start(TimerMode::new("Quick", "*", 1));
    assert_eq!(action, TimerAction::Schedule);
    assert_eq!(state.remaining_seconds, 60);
    assert_eq!(state.timer_text, "01:00");
    assert_eq!(state.status_text, "Quick em andamento");
    assert_eq!(state.pause_label, "\u{23f8}");
    assert_eq!(state.active_mode, Some("Quick"));

    for second in 1..60 {
        assert_eq!(state.tick(), TimerAction::Continue);
        assert_eq!(state.remaining_seconds, 60 - second);
    }
    assert_eq!(state.tick(), TimerAction::Finish);
    assert_eq!(state.remaining_seconds, 0);
    assert!(!state.ticking);
    assert_eq!(state.timer_text, "00:00");
    assert_eq!(state.status_text, "Quick finalizado");
    assert_eq!(state.pause_label, "\u{25b6}");
    assert!(!state.pause_enabled && !state.reset_enabled);
    assert_eq!(state.toggle_pause(), TimerAction::Nothing);
}

#[test]
fn pausing_and_resuming_restores_the_timer() {
    let mut state = PomodoroState::new();
    state.start(timer_modes()[2]);
    state.tick();

    assert_eq!(state.toggle_pause(), TimerAction::Cancel);
    assert_eq!(state.status_text, "Pomodoro pausado");
    assert_eq!(state.pause_label, "\u{25b6}");
    assert!(!state.ticking);

    assert_eq!(state.toggle_pause(), TimerAction::Schedule);
    assert_eq!(state.status_text, "Pomodoro em andamento");
    assert_eq!(state.pause_label, "\u{23f8}");
    assert!(state.ticking);
    assert_eq!(state.timer_text, "29:59");
}

#[test]
fn starting_again_restarts_and_reset_clears() {
    let mut state = PomodoroState::new();
    state.start(timer_modes()[0]);
    assert_eq!(state.start(timer_modes()[1]), TimerAction::Restart);
    assert_eq!(state.timer_text, "60:00");
    assert_eq!(state.active_mode, Some("Desenv"));

    assert_eq!(state.reset(), TimerAction::Cancel);
    assert_eq!(state.remaining_seconds, 0);
    assert!(state.current_mode.is_none());
    assert_eq!(state.timer_text, "00:00");
    assert_eq!(state.status_text, "Aguardando protocolo");
    assert_eq!(state.reset(), TimerAction::Nothing);
    assert_eq!(state.toggle_pause(), TimerAction::Nothing);
}

#[test]
fn modes_and_active_buttons() {
    let modes = timer_modes();
    let labels: Vec<(&str, u32)> = modes.iter().map(|m| (m.label, m.minutes)).collect();
    assert_eq!(labels, vec![("Aula", 50), ("Desenv", 60), ("Pomodoro", 30)]);
    assert!(mode_button_active(Some("Aula"), "Aula"));
    assert!(!mode_button_active(Some("Aula"), "Desenv"));
    assert!(!mode_button_active(None, "Aula"));
}

#[test]
fn a_resumed_session_runs_to_its_end() {
    let mut state = PomodoroState::new();
    state.start(TimerMode::new("Quick", "*", 1));
    for _ in 0..20 {
        assert_eq!(state.tick(), TimerAction::Continue);
    }
    assert_eq!(state.toggle_pause(), TimerAction::Cancel);
    assert_eq!(state.status_text, "Quick pausado");
    assert_eq!(state.toggle_pause(), TimerAction::Schedule);
    assert_eq!(state.remaining_seconds, 40);

    let mut finishes = 0;
    for second in 1..=40 {
        let action = state.tick();
        if second < 40 {
            assert_eq!(action, TimerAction::Continue);
            assert!(state.ticking);
            assert_eq!(state.remaining_seconds, 40 - second);
            assert_eq!(state.status_text, "Quick em andamento");
        } else {
            assert_eq!(action, TimerAction::Finish);
            finishes += 1;
        }
    }
    assert_eq!(finishes, 1);
    assert_eq!(state.remaining_seconds, 0);
    assert_eq!(state.timer_text, "00:00");
    assert_eq!(state.status_text, "Quick finalizado");
    assert_eq!(state.pause_label, "\u{25b6}");
    assert!(!state.ticking && !state.pause_enabled && !state.reset_enabled);
}
