//! The text form of a dashboard, and the small decisions of the panel.

use vstd::prelude::*;

use crate::domain::{AppConfig, Dashboard, DisplayProfile, Event, Shortcut, Task};
use crate::text::{eq_ignore_ascii_case, same_ignoring_ascii_case, same_text, trim, trimmed};

verus! {

broadcast use vstd::string::group_string_axioms;

/// One line per event: its time, two spaces, its title.
pub open spec fn events_text(events: Seq<Event>) -> Seq<char>
    decreases events.len(),
{
    if events.len() == 0 {
        seq![]
    } else {
        events_text(events.drop_last()) + events.last().time@ + "  "@ + events.last().title@
            + "\n"@
    }
}

/// One line per task: `[] ` and its title.
pub open spec fn tasks_text(tasks: Seq<Task>) -> Seq<char>
    decreases tasks.len(),
{
    if tasks.len() == 0 {
        seq![]
    } else {
        tasks_text(tasks.drop_last()) + "[] "@ + tasks.last().title@ + "\n"@
    }
}

/// The shortcuts on one line: each label in brackets, followed by a space.
pub open spec fn shortcuts_text(shortcuts: Seq<Shortcut>) -> Seq<char>
    decreases shortcuts.len(),
{
    if shortcuts.len() == 0 {
        seq![]
    } else {
        shortcuts_text(shortcuts.drop_last()) + "["@ + shortcuts.last().label@ + "] "@
    }
}

/// The line of one event: its time, two spaces, its title, a line feed.
pub open spec fn event_line(e: Event) -> Seq<char> {
    e.time@ + "  "@ + e.title@ + "\n"@
}

/// The line of one task: `[] `, its title, a line feed.
pub open spec fn task_line(t: Task) -> Seq<char> {
    "[] "@ + t.title@ + "\n"@
}

/// The entry of one shortcut: its label in brackets, then a space.
pub open spec fn shortcut_entry(s: Shortcut) -> Seq<char> {
    "["@ + s.label@ + "] "@
}

proof fn lemma_events_lines(events: Seq<Event>)
    ensures
        events_text(events) == Seq::new(events.len(), |i: int| event_line(events[i])).flatten_alt(),
    decreases events.len(),
{
    if events.len() > 0 {
        let q = events.drop_last();
        lemma_events_lines(q);
        let f = Seq::new(events.len(), |i: int| event_line(events[i]));
        assert(f.drop_last() =~= Seq::new(q.len(), |i: int| event_line(q[i])));
        assert(f.last() == event_line(events.last()));
    }
}

/// The events are listed in their order, one line each: the text of the
/// events is the line of the first, then that of the second, and so on.
pub proof fn lemma_events_text_by_index(events: Seq<Event>)
    ensures
        events_text(events) == Seq::new(events.len(), |i: int| event_line(events[i])).flatten(),
{
    lemma_events_lines(events);
    Seq::new(events.len(), |i: int| event_line(events[i])).lemma_flatten_and_flatten_alt_are_equivalent();
}

proof fn lemma_tasks_lines(tasks: Seq<Task>)
    ensures
        tasks_text(tasks) == Seq::new(tasks.len(), |i: int| task_line(tasks[i])).flatten_alt(),
    decreases tasks.len(),
{
    if tasks.len() > 0 {
        let q = tasks.drop_last();
        lemma_tasks_lines(q);
        let f = Seq::new(tasks.len(), |i: int| task_line(tasks[i]));
        assert(f.drop_last() =~= Seq::new(q.len(), |i: int| task_line(q[i])));
        assert(f.last() == task_line(tasks.last()));
    }
}

/// The tasks are listed in their order, one line each.
pub proof fn lemma_tasks_text_by_index(tasks: Seq<Task>)
    ensures
        tasks_text(tasks) == Seq::new(tasks.len(), |i: int| task_line(tasks[i])).flatten(),
{
    lemma_tasks_lines(tasks);
    Seq::new(tasks.len(), |i: int| task_line(tasks[i])).lemma_flatten_and_flatten_alt_are_equivalent();
}

proof fn lemma_shortcuts_entries(shortcuts: Seq<Shortcut>)
    ensures
        shortcuts_text(shortcuts) == Seq::new(
            shortcuts.len(),
            |i: int| shortcut_entry(shortcuts[i]),
        ).flatten_alt(),
    decreases shortcuts.len(),
{
    if shortcuts.len() > 0 {
        let q = shortcuts.drop_last();
        lemma_shortcuts_entries(q);
        let f = Seq::new(shortcuts.len(), |i: int| shortcut_entry(shortcuts[i]));
        assert(f.drop_last() =~= Seq::new(q.len(), |i: int| shortcut_entry(q[i])));
        assert(f.last() == shortcut_entry(shortcuts.last()));
    }
}

/// The shortcuts are listed in their order, each label in brackets.
pub proof fn lemma_shortcuts_text_by_index(shortcuts: Seq<Shortcut>)
    ensures
        shortcuts_text(shortcuts) == Seq::new(
            shortcuts.len(),
            |i: int| shortcut_entry(shortcuts[i]),
        ).flatten(),
{
    lemma_shortcuts_entries(shortcuts);
    Seq::new(
        shortcuts.len(),
        |i: int| shortcut_entry(shortcuts[i]),
    ).lemma_flatten_and_flatten_alt_are_equivalent();
}

/// The clock section of the text of a dashboard.
pub open spec fn clock_section(d: Dashboard) -> Seq<char> {
    if d.sections.show_clock {
        d.clock.time@ + "\n"@ + d.clock.date@ + "\n\n"@
    } else {
        seq![]
    }
}

/// The events section of the text of a dashboard.
pub open spec fn events_section(d: Dashboard) -> Seq<char> {
    if d.sections.show_events {
        "Proximos eventos\n"@ + events_text(d.events@) + "\n"@
    } else {
        seq![]
    }
}

/// The tasks section of the text of a dashboard.
pub open spec fn tasks_section(d: Dashboard) -> Seq<char> {
    if d.sections.show_tasks {
        "Top 3\n"@ + tasks_text(d.tasks@) + "\n"@
    } else {
        seq![]
    }
}

/// The system section of the text of a dashboard.
pub open spec fn system_section(d: Dashboard, cpu: Seq<char>, ram: Seq<char>) -> Seq<char> {
    if d.sections.show_system {
        "Sistema\n"@ + "CPU  "@ + cpu + "%\n"@ + "RAM  "@ + ram + "%\n\n"@
    } else {
        seq![]
    }
}

/// The shortcuts section of the text of a dashboard.
pub open spec fn shortcuts_section(d: Dashboard) -> Seq<char> {
    if d.sections.show_shortcuts {
        "Atalhos\n"@ + shortcuts_text(d.shortcuts@) + "\n"@
    } else {
        seq![]
    }
}

/// The text of a dashboard: each shown section in turn (clock, events,
/// tasks, system, shortcuts), with the two load percentages written as given.
pub open spec fn dashboard_text(d: Dashboard, cpu: Seq<char>, ram: Seq<char>) -> Seq<char> {
    clock_section(d) + events_section(d) + tasks_section(d) + system_section(d, cpu, ram)
        + shortcuts_section(d)
}

fn append_clock(output: &mut String, d: &Dashboard)
    ensures
        final(output)@ == old(output)@ + clock_section(*d),
{
    if d.sections.show_clock {
        output.append(d.clock.time.as_str());
        output.append("\n");
        output.append(d.clock.date.as_str());
        output.append("\n\n");
    }
}

fn append_events(output: &mut String, d: &Dashboard)
    ensures
        final(output)@ == old(output)@ + events_section(*d),
{
    if d.sections.show_events {
        output.append("Proximos eventos\n");
        let ghost head = output@;
        let mut i: usize = 0;
        while i < d.events.len()
            invariant
                0 <= i <= d.events@.len(),
                output@ == head + events_text(d.events@.take(i as int)),
            decreases d.events@.len() - i,
        {
            let event = &d.events[i];
            output.append(event.time.as_str());
            output.append("  ");
            output.append(event.title.as_str());
            output.append("\n");
            assert(d.events@.take(i + 1).drop_last() =~= d.events@.take(i as int));
            i = i + 1;
        }
        output.append("\n");
        assert(d.events@.take(d.events@.len() as int) =~= d.events@);
    }
}

fn append_tasks(output: &mut String, d: &Dashboard)
    ensures
        final(output)@ == old(output)@ + tasks_section(*d),
{
    if d.sections.show_tasks {
        output.append("Top 3\n");
        let ghost head = output@;
        let mut i: usize = 0;
        while i < d.tasks.len()
            invariant
                0 <= i <= d.tasks@.len(),
                output@ == head + tasks_text(d.tasks@.take(i as int)),
            decreases d.tasks@.len() - i,
        {
            output.append("[] ");
            output.append(d.tasks[i].title.as_str());
            output.append("\n");
            assert(d.tasks@.take(i + 1).drop_last() =~= d.tasks@.take(i as int));
            i = i + 1;
        }
        output.append("\n");
        assert(d.tasks@.take(d.tasks@.len() as int) =~= d.tasks@);
    }
}

fn append_system(output: &mut String, d: &Dashboard, cpu: &str, ram: &str)
    ensures
        final(output)@ == old(output)@ + system_section(*d, cpu@, ram@),
{
    if d.sections.show_system {
        output.append("Sistema\n");
        output.append("CPU  ");
        output.append(cpu);
        output.append("%\n");
        output.append("RAM  ");
        output.append(ram);
        output.append("%\n\n");
    }
}

fn append_shortcuts(output: &mut String, d: &Dashboard)
    ensures
        final(output)@ == old(output)@ + shortcuts_section(*d),
{
    if d.sections.show_shortcuts {
        output.append("Atalhos\n");
        let ghost head = output@;
        let mut i: usize = 0;
        while i < d.shortcuts.len()
            invariant
                0 <= i <= d.shortcuts@.len(),
                output@ == head + shortcuts_text(d.shortcuts@.take(i as int)),
            decreases d.shortcuts@.len() - i,
        {
            output.append("[");
            output.append(d.shortcuts[i].label.as_str());
            output.append("] ");
            assert(d.shortcuts@.take(i + 1).drop_last() =~= d.shortcuts@.take(i as int));
            i = i + 1;
        }
        output.append("\n");
        assert(d.shortcuts@.take(d.shortcuts@.len() as int) =~= d.shortcuts@);
    }
}

/// The dashboard as text, for a console. `cpu_usage_text` and
/// `memory_usage_text` are the processor and memory percentages as they
/// are to be shown.
pub fn render_text_dashboard(
    dashboard: &Dashboard,
    cpu_usage_text: &str,
    memory_usage_text: &str,
) -> (output: String)
    ensures
        output@ == dashboard_text(*dashboard, cpu_usage_text@, memory_usage_text@),
{
    let mut output = String::new();
    append_clock(&mut output, dashboard);
    append_events(&mut output, dashboard);
    append_tasks(&mut output, dashboard);
    append_system(&mut output, dashboard, cpu_usage_text, memory_usage_text);
    append_shortcuts(&mut output, dashboard);
    assert(output@ =~= dashboard_text(*dashboard, cpu_usage_text@, memory_usage_text@));
    output
}

/// The sound test button is shown in the test-all-features profile, or
/// when the configuration asks for it.
pub fn should_show_sound_test_button(config: &AppConfig) -> (show: bool)
    ensures
        show == (config.ui.display_profile == DisplayProfile::TestAllFeatures
            || config.ui.show_sound_test_button),
{
    config.ui.display_profile == DisplayProfile::TestAllFeatures || config.ui.show_sound_test_button
}


/// The command that launches IntelliJ IDEA from whichever install is there.
pub open spec fn intellij_launch_command() -> Seq<char> {
    "$HOME/.local/share/JetBrains/Toolbox/scripts/idea || idea || intellij-idea-ultimate || intellij-idea-community || flatpak run com.jetbrains.IntelliJ-IDEA-Ultimate || flatpak run com.jetbrains.IntelliJ-IDEA-Community"@
}

/// The command that launches Podman Desktop from whichever install is there.
pub open spec fn podman_launch_command() -> Seq<char> {
    "podman-desktop || flatpak run io.podman_desktop.PodmanDesktop"@
}

/// The shell command a shortcut runs: an `intellij` shortcut whose command
/// is `idea` tries the usual IntelliJ installs, a `podman` shortcut tries
/// the usual Podman Desktop installs (labels compared ignoring ASCII
/// case, the command trimmed); any other runs its own command.
pub open spec fn resolved_command(label: Seq<char>, command: Seq<char>) -> Seq<char> {
    if same_ignoring_ascii_case(label, "intellij"@) && trim(command) == "idea"@ {
        intellij_launch_command()
    } else if same_ignoring_ascii_case(label, "podman"@) {
        podman_launch_command()
    } else {
        command
    }
}

/// The shell command that the shortcut `label` with `command` runs.
pub fn resolve_shortcut_command(label: &str, command: &str) -> (resolved: String)
    ensures
        resolved@ == resolved_command(label@, command@),
{
    if eq_ignore_ascii_case(label, "intellij") && same_text(trimmed(command), "idea") {
        return String::from_str(
            "$HOME/.local/share/JetBrains/Toolbox/scripts/idea || idea || intellij-idea-ultimate || intellij-idea-community || flatpak run com.jetbrains.IntelliJ-IDEA-Ultimate || flatpak run com.jetbrains.IntelliJ-IDEA-Community",
        );
    }
    if eq_ignore_ascii_case(label, "podman") {
        return String::from_str("podman-desktop || flatpak run io.podman_desktop.PodmanDesktop");
    }
    String::from_str(command)
}

/// The icon of a shortcut button; every shortcut has the same one.
pub fn shortcut_icon(_label: &str) -> (icon: &'static str)
    ensures
        icon@ == "\u{25c8}"@,
{
    "\u{25c8}"
}

/// The widest a window may open.
pub const MAX_WINDOW_WIDTH: i32 = 900;

/// The width a window opens with: the natural width of its content when it
/// has one, else the configured width (at least 1); never more than 900.
pub open spec fn window_width(natural: i32, config_width: u32) -> i32 {
    let configured = config_width as i32;
    let fallback = if configured < 1 {
        1i32
    } else {
        configured
    };
    let preferred = if natural > 0 {
        natural
    } else {
        fallback
    };
    if preferred < MAX_WINDOW_WIDTH {
        preferred
    } else {
        MAX_WINDOW_WIDTH
    }
}

/// The width a window opens with, given the natural width that the toolkit
/// measured for its content.
pub fn effective_window_width(natural: i32, config_width: u32) -> (width: i32)
    ensures
        width == window_width(natural, config_width),
        width <= MAX_WINDOW_WIDTH,
{
    let configured = config_width as i32;
    let fallback = if configured < 1 {
        1
    } else {
        configured
    };
    let preferred = if natural > 0 {
        natural
    } else {
        fallback
    };
    if preferred < MAX_WINDOW_WIDTH {
        preferred
    } else {
        MAX_WINDOW_WIDTH
    }
}

} // verus!
