//! The application's data model: the dashboard, the configuration, and the
//! defaults that a configuration starts from.
//!
//! Floating-point quantities of the dashboard (a percentage, an opacity) are
//! carried as the IEEE-754 bit pattern of the `f32` value, in a `u32`: the
//! library never computes with them, it only hands them on.

use vstd::prelude::*;

verus! {

/// At most the first `limit` elements of `s`.
pub open spec fn first_n<A>(s: Seq<A>, limit: nat) -> Seq<A> {
    if s.len() <= limit {
        s
    } else {
        s.take(limit as int)
    }
}

/// Everything the dashboard shows at one moment.
#[derive(Debug, Clone, PartialEq, Eq)]
pub struct Dashboard {
    pub app_name: String,
    pub sections: DashboardSections,
    pub clock: ClockInfo,
    pub events: Vec<Event>,
    pub tasks: Vec<Task>,
    pub system: SystemMetric,
    pub shortcuts: Vec<Shortcut>,
}

/// The parts a dashboard is made of.
#[derive(Debug, Clone, Copy, PartialEq, Eq, Structural)]
pub enum DashboardSection {
    Clock,
    Events,
    Tasks,
    System,
    Shortcuts,
}

/// Which parts of the dashboard are shown.
#[derive(Debug, Clone, Copy, PartialEq, Eq, Structural)]
pub struct DashboardSections {
    pub show_clock: bool,
    pub show_events: bool,
    pub show_tasks: bool,
    pub show_system: bool,
    pub show_shortcuts: bool,
}

/// Every section is shown.
pub open spec fn all_sections_shown(s: DashboardSections) -> bool {
    s.show_clock && s.show_events && s.show_tasks && s.show_system && s.show_shortcuts
}

impl Default for DashboardSections {
    fn default() -> (r: Self)
        ensures
            all_sections_shown(r),
    {
        DashboardSections {
            show_clock: true,
            show_events: true,
            show_tasks: true,
            show_system: true,
            show_shortcuts: true,
        }
    }
}

/// The clock as shown: a time such as `09:41` and a date such as `Monday, 03 Feb`.
#[derive(Debug, Clone, PartialEq, Eq)]
pub struct ClockInfo {
    pub time: String,
    pub date: String,
}

/// `c` is a decimal digit.
pub open spec fn is_digit(c: char) -> bool {
    '0' <= c <= '9'
}

/// The value of a decimal digit.
pub open spec fn digit_value(c: char) -> int {
    (c as u32) - ('0' as u32)
}

/// `t` is a time of day written `HH:MM`, as chrono's `%H:%M` writes it.
pub open spec fn is_clock_time(t: Seq<char>) -> bool {
    &&& t.len() == 5
    &&& is_digit(t[0]) && is_digit(t[1]) && t[2] == ':' && is_digit(t[3]) && is_digit(t[4])
    &&& digit_value(t[0]) * 10 + digit_value(t[1]) < 24
    &&& digit_value(t[3]) * 10 + digit_value(t[4]) < 60
}

/// The English names of the days of the week, as chrono's `%A` writes them.
pub open spec fn weekday_names() -> Seq<Seq<char>> {
    seq![
        "Monday"@,
        "Tuesday"@,
        "Wednesday"@,
        "Thursday"@,
        "Friday"@,
        "Saturday"@,
        "Sunday"@,
    ]
}

/// The English three-letter names of the months, as chrono's `%b` writes them.
pub open spec fn month_abbreviations() -> Seq<Seq<char>> {
    seq![
        "Jan"@,
        "Feb"@,
        "Mar"@,
        "Apr"@,
        "May"@,
        "Jun"@,
        "Jul"@,
        "Aug"@,
        "Sep"@,
        "Oct"@,
        "Nov"@,
        "Dec"@,
    ]
}

/// `d` is a date written as chrono's `%A, %d %b` writes it, such as
/// `Monday, 03 Feb`: a weekday, a comma and a space, a two-digit day of
/// the month from 01 to 31, a space, and a month.
pub open spec fn is_clock_date(d: Seq<char>) -> bool {
    exists|w: int, m: int|
        0 <= w < 7 && 0 <= m < 12 && #[trigger] is_weekday_day_month(d, w, m)
}

/// `d` is weekday number `w`, a day of the month, and month number `m`.
pub open spec fn is_weekday_day_month(d: Seq<char>, w: int, m: int) -> bool {
    let name = weekday_names()[w];
    let n = name.len() as int;
    &&& d.len() == n + 8
    &&& d.take(n) == name
    &&& d[n] == ',' && d[n + 1] == ' '
    &&& is_digit(d[n + 2]) && is_digit(d[n + 3])
    &&& 1 <= digit_value(d[n + 2]) * 10 + digit_value(d[n + 3]) <= 31
    &&& d[n + 4] == ' '
    &&& d.skip(n + 5) == month_abbreviations()[m]
}

/// A task read from a Markdown checklist.
#[derive(Debug, Clone, PartialEq, Eq)]
pub struct Task {
    pub title: String,
    pub completed: bool,
}

/// What a task says, as plain values.
pub struct TaskView {
    pub title: Seq<char>,
    pub completed: bool,
}

impl View for Task {
    type V = TaskView;

    open spec fn view(&self) -> TaskView {
        TaskView { title: self.title@, completed: self.completed }
    }
}

impl Task {
    /// A copy of the task.
    pub fn duplicate(&self) -> (r: Task)
        ensures
            r == *self,
    {
        Task { title: self.title.clone(), completed: self.completed }
    }
}

/// An entry of the day's agenda.
#[derive(Debug, Clone, PartialEq, Eq)]
pub struct Event {
    pub time: String,
    pub title: String,
    pub description: Option<String>,
}

impl Event {
    /// A copy of the event.
    pub fn duplicate(&self) -> (r: Event)
        ensures
            r == *self,
    {
        let description = match &self.description {
            Some(d) => Some(d.clone()),
            None => None,
        };
        Event { time: self.time.clone(), title: self.title.clone(), description }
    }
}

/// Processor and memory load. The two percentages are `f32` values carried
/// as their bit patterns (`f32::to_bits`).
#[derive(Debug, Clone, Copy, PartialEq, Eq, Structural)]
pub struct SystemMetric {
    pub cpu_usage_percent_bits: u32,
    pub memory_total_bytes: u64,
    pub memory_used_bytes: u64,
    pub memory_usage_percent_bits: u32,
}

impl Default for SystemMetric {
    fn default() -> (r: Self)
        ensures
            r == (SystemMetric {
                cpu_usage_percent_bits: 0,
                memory_total_bytes: 0,
                memory_used_bytes: 0,
                memory_usage_percent_bits: 0,
            }),
    {
        SystemMetric {
            cpu_usage_percent_bits: 0,
            memory_total_bytes: 0,
            memory_used_bytes: 0,
            memory_usage_percent_bits: 0,
        }
    }
}

/// A launcher button: a label and the shell command it runs.
#[derive(Debug, Clone, PartialEq, Eq)]
pub struct Shortcut {
    pub label: String,
    pub command: String,
}

impl Shortcut {
    /// A copy of the shortcut.
    pub fn duplicate(&self) -> (r: Shortcut)
        ensures
            r == *self,
    {
        Shortcut { label: self.label.clone(), command: self.command.clone() }
    }
}

/// The screen corner the window is placed in.
#[derive(Debug, Clone, Copy, PartialEq, Eq, Structural)]
pub enum WidgetPosition {
    TopLeft,
    TopRight,
    BottomLeft,
    BottomRight,
}

impl Default for WidgetPosition {
    fn default() -> (r: Self)
        ensures
            r == WidgetPosition::TopRight,
    {
        WidgetPosition::TopRight
    }
}

/// Font and spacing of the panel.
#[derive(Debug, Clone, PartialEq, Eq)]
pub struct ThemeConfig {
    pub font_family: String,
    pub font_size: u16,
    pub border_radius: u16,
    pub padding: u16,
}

/// The font family a theme starts with.
pub open spec fn default_font_family() -> Seq<char> {
    seq!['J', 'e', 't', 'B', 'r', 'a', 'i', 'n', 's', ' ', 'M', 'o', 'n', 'o']
}

/// `t` is the default theme.
pub open spec fn is_default_theme(t: ThemeConfig) -> bool {
    &&& t.font_family@ == default_font_family()
    &&& t.font_size == 13
    &&& t.border_radius == 16
    &&& t.padding == 16
}

impl Default for ThemeConfig {
    fn default() -> (r: Self)
        ensures
            is_default_theme(r),
    {
        let font_family = String::from_str("JetBrains Mono");
        proof {
            reveal_strlit("JetBrains Mono");
            assert(font_family@ =~= default_font_family());
        }
        ThemeConfig { font_family, font_size: 13, border_radius: 16, padding: 16 }
    }
}

/// Size, placement and look of the window. `opacity_bits` is the bit
/// pattern of an `f32` opacity.
#[derive(Debug, Clone, Copy, PartialEq, Eq, Structural)]
pub struct WindowConfig {
    pub width: u32,
    pub height: u32,
    pub monitor: u32,
    pub position: WidgetPosition,
    pub margin_top: u32,
    pub margin_right: u32,
    pub opacity_bits: u32,
    pub always_on_top: bool,
}

/// The bit pattern of the `f32` value `0.92`, the default opacity.
pub const DEFAULT_OPACITY_BITS: u32 = 0x3F6B_851F;

/// The window a configuration starts with.
pub open spec fn default_window() -> WindowConfig {
    WindowConfig {
        width: 360,
        height: 520,
        monitor: 1,
        position: WidgetPosition::TopRight,
        margin_top: 32,
        margin_right: 24,
        opacity_bits: DEFAULT_OPACITY_BITS,
        always_on_top: false,
    }
}

impl Default for WindowConfig {
    fn default() -> (r: Self)
        ensures
            r == default_window(),
    {
        WindowConfig {
            width: 360,
            height: 520,
            monitor: 1,
            position: WidgetPosition::TopRight,
            margin_top: 32,
            margin_right: 24,
            opacity_bits: DEFAULT_OPACITY_BITS,
            always_on_top: false,
        }
    }
}

/// Where the daily Markdown checklist lives, if anywhere.
#[derive(Debug, Clone, PartialEq, Eq)]
pub struct NotesConfig {
    pub daily_file: Option<String>,
}

/// How much of the interface is shown.
#[derive(Debug, Clone, Copy, PartialEq, Eq, Structural)]
pub enum DisplayProfile {
    Plain,
    TestAllFeatures,
}

impl Default for DisplayProfile {
    fn default() -> (r: Self)
        ensures
            r == DisplayProfile::Plain,
    {
        DisplayProfile::Plain
    }
}

/// Interface options.
#[derive(Debug, Clone, Copy, PartialEq, Eq, Structural)]
pub struct UiConfig {
    pub display_profile: DisplayProfile,
    pub show_sound_test_button: bool,
}

/// The interface options a configuration starts with.
pub open spec fn default_ui() -> UiConfig {
    UiConfig { display_profile: DisplayProfile::Plain, show_sound_test_button: false }
}

impl Default for UiConfig {
    fn default() -> (r: Self)
        ensures
            r == default_ui(),
    {
        UiConfig { display_profile: DisplayProfile::Plain, show_sound_test_button: false }
    }
}

/// Where the agenda comes from.
#[derive(Debug, Clone, Copy, PartialEq, Eq, Structural)]
pub enum CalendarProvider {
    Local,
    GoogleOAuth,
}

impl Default for CalendarProvider {
    fn default() -> (r: Self)
        ensures
            r == CalendarProvider::Local,
    {
        CalendarProvider::Local
    }
}

/// Settings of the Google Calendar source.
#[derive(Debug, Clone, PartialEq, Eq)]
pub struct GoogleOAuthConfig {
    pub calendar_id: String,
    pub calendar_ids: Vec<String>,
    pub include_tasks_today: bool,
    pub credentials_file: Option<String>,
    pub client_id: Option<String>,
    pub client_secret: Option<String>,
    pub refresh_token: String,
}

/// The agenda source and its settings.
#[derive(Debug, Clone, PartialEq, Eq)]
pub struct CalendarConfig {
    pub provider: CalendarProvider,
    pub google_oauth: Option<GoogleOAuthConfig>,
}

impl Default for CalendarConfig {
    fn default() -> (r: Self)
        ensures
            r.provider == CalendarProvider::Local,
            r.google_oauth is None,
    {
        CalendarConfig { provider: CalendarProvider::Local, google_oauth: None }
    }
}

/// The whole configuration of the application.
#[derive(Debug, Clone, PartialEq, Eq)]
pub struct AppConfig {
    pub name: String,
    pub refresh_interval_seconds: u64,
    pub window: WindowConfig,
    pub theme: ThemeConfig,
    pub ui: UiConfig,
    pub calendar: CalendarConfig,
    pub sections: DashboardSections,
    pub notes: NotesConfig,
    pub events: Vec<Event>,
    pub shortcuts: Vec<Shortcut>,
}

/// The application name a configuration starts with.
pub open spec fn default_app_name() -> Seq<char> {
    seq!['D', 'e', 's', 'k', 't', 'o', 'p', ' ', 'C', 'o', 'c', 'k', 'p', 'i', 't']
}

/// The refresh interval, in seconds, that a configuration starts with.
pub const DEFAULT_REFRESH_INTERVAL_SECONDS: u64 = 5;

/// `c` is the default configuration.
pub open spec fn is_default_app_config(c: AppConfig) -> bool {
    &&& c.name@ == default_app_name()
    &&& c.refresh_interval_seconds == DEFAULT_REFRESH_INTERVAL_SECONDS
    &&& c.window == default_window()
    &&& is_default_theme(c.theme)
    &&& c.ui == default_ui()
    &&& c.calendar.provider == CalendarProvider::Local
    &&& c.calendar.google_oauth is None
    &&& all_sections_shown(c.sections)
    &&& c.notes.daily_file is None
    &&& c.events@.len() == 0
    &&& c.shortcuts@.len() == 0
}

impl Default for AppConfig {
    fn default() -> (r: Self)
        ensures
            is_default_app_config(r),
    {
        let name = String::from_str("Desktop Cockpit");
        proof {
            reveal_strlit("Desktop Cockpit");
            assert(name@ =~= default_app_name());
        }
        AppConfig {
            name,
            refresh_interval_seconds: DEFAULT_REFRESH_INTERVAL_SECONDS,
            window: WindowConfig::default(),
            theme: ThemeConfig::default(),
            ui: UiConfig::default(),
            calendar: CalendarConfig::default(),
            sections: DashboardSections::default(),
            notes: NotesConfig { daily_file: None },
            events: Vec::new(),
            shortcuts: Vec::new(),
        }
    }
}

} // verus!
