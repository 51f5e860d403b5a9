use desktop_cockpit::dashboard::{
    assemble_dashboard, BuildDashboardError, BuildDashboardUseCase, EventsProvider,
    MetricsProvider, TasksProvider,
};
use desktop_cockpit::domain::{
    AppConfig, ClockInfo, DashboardSections, Event, Shortcut, SystemMetric, Task,
};

struct FakeTasks;

impl TasksProvider for FakeTasks {
    fn load_tasks(&self, _config: &AppConfig) -> Result<Vec<Task>, BuildDashboardError> {
        Ok(vec![Task {
            title: "Task".to_string(),
            completed: false,
        }])
    }
}

struct FakeEvents;

impl EventsProvider for FakeEvents {
    fn load_events(&self, _config: &AppConfig) -> Result<Vec<Event>, BuildDashboardError> {
        Ok(vec![Event {
            time: "10:00".to_string(),
            title: "Event".to_string(),
            description: None,
        }])
    }
}

struct FakeMetrics;

impl MetricsProvider for FakeMetrics {
    fn load_metrics(&mut self) -> Result<SystemMetric, BuildDashboardError> {
        Ok(SystemMetric {
            cpu_usage_percent_bits: 10.0f32.to_bits(),
            memory_total_bytes: 100,
            memory_used_bytes: 50,
            memory_usage_percent_bits: 50.0f32.to_bits(),
        })
    }
}

struct FailingEvents;

impl EventsProvider for FailingEvents {
    fn load_events(&self, _config: &AppConfig) -> Result<Vec<Event>, BuildDashboardError> {
        Err(BuildDashboardError::Events("offline".to_string()))
    }
}

struct CountingMetrics {
    calls: u32,
}

impl MetricsProvider for CountingMetrics {
    fn load_metrics(&mut self) -> Result<SystemMetric, BuildDashboardError> {
        self.calls += 1;
        Err(BuildDashboardError::System("no sensors".to_string()))
    }
}

#[test]
fn builds_dashboard_with_fakes() {
    let config = AppConfig {
        name: "Test".to_string(),
        sections: DashboardSections::default(),
        shortcuts: vec![Shortcut {
            label: "Terminal".to_string(),
            command: "ghostty".to_string(),
        }],
        ..AppConfig::default()
    };
    let mut use_case = BuildDashboardUseCase::new(FakeTasks, FakeEvents, FakeMetrics);

    let dashboard = use_case.execute(&config).unwrap();

    assert_eq!(dashboard.app_name, "Test");
    assert_eq!(dashboard.tasks[0].title, "Task");
    assert_eq!(dashboard.events[0].title, "Event");
    assert_eq!(f32::from_bits(dashboard.system.memory_usage_percent_bits), 50.0);
    assert_eq!(dashboard.shortcuts[0].label, "Terminal");
}

#[test]
fn clock_is_written_as_hours_minutes_and_day() {
    let config = AppConfig::default();
    let mut use_case = BuildDashboardUseCase::new(FakeTasks, FakeEvents, FakeMetrics);

    let clock = use_case.execute(&config).unwrap().clock;

    let time: Vec<char> = clock.time.chars().collect();
    assert_eq!(time.len(), 5);
    assert_eq!(time[2], ':');
    assert!(time[0].is_ascii_digit() && time[1].is_ascii_digit());
    let weekdays = ["Monday", "Tuesday", "Wednesday", "Thursday", "Friday", "Saturday", "Sunday"];
    assert!(weekdays.iter().any(|w| clock.date.starts_with(&format!("{w}, "))));
    let months = [
        "Jan", "Feb", "Mar", "Apr", "May", "Jun", "Jul", "Aug", "Sep", "Oct", "Nov", "Dec",
    ];
    assert!(months.iter().any(|m| clock.date.ends_with(&format!(" {m}"))));
}

#[test]
fn stops_at_the_first_failing_source() {
    let config = AppConfig::default();
    let mut use_case =
        BuildDashboardUseCase::new(FakeTasks, FailingEvents, CountingMetrics { calls: 0 });

    let error = use_case.execute(&config).unwrap_err();

    assert!(matches!(error, BuildDashboardError::Events(ref m) if m == "offline"));

    let mut use_case = BuildDashboardUseCase::new(FakeTasks, FakeEvents, CountingMetrics { calls: 0 });
    let error = use_case.execute(&config).unwrap_err();
    assert!(matches!(error, BuildDashboardError::System(_)));
}

#[test]
fn assembles_from_config_and_sources() {
    let mut config = AppConfig::default();
    config.sections.show_tasks = false;
    config.shortcuts.push(Shortcut {
        label: "Editor".to_string(),
        command: "code".to_string(),
    });
    let clock = ClockInfo {
        time: "07:05".to_string(),
        date: "Friday, 02 May".to_string(),
    };

    let dashboard = assemble_dashboard(&config, clock.clone(), Vec::new(), Vec::new(), SystemMetric::default());

    assert_eq!(dashboard.app_name, "Desktop Cockpit");
    assert_eq!(dashboard.clock, clock);
    assert!(!dashboard.sections.show_tasks);
    assert_eq!(dashboard.shortcuts, config.shortcuts);
    assert_eq!(dashboard.system.memory_total_bytes, 0);
}
