# Desktop Cockpit

A small desktop dashboard for development routines: a clock, the day's
events, the open tasks of a Markdown checklist, the machine's load, and
launcher shortcuts, configured by a TOML file.

The logic is a Verus library whose functions carry contracts that Verus proves:

- `src/domain.rs`: the data model and the defaults of the configuration.
- `src/text.rs`: whitespace, trimming, lines, text order.
- `src/notes.rs`: Markdown checklist parsing and the open tasks shown.
- `src/calendar.rs`: the stable ordering of the day's events.
- `src/config.rs`: validation of a parsed configuration file.
- `src/dashboard.rs`: building a dashboard from its data sources.
- `src/ui.rs`: the text form of a dashboard and small panel decisions.
- `src/cli.rs`: the command line.
- `src/timer.rs`: the pomodoro timer as a state machine.
- `src/sound.rs`: which player to try next for the end-of-session sound.
- `src/system.rs`: the errors of reading the machine's load.
- `src/environment.rs`: running containers and their status text.
- `src/projects.rs`: recently opened IntelliJ projects.
- `src/outside.rs`: the trusted declarations and wrappers around chrono and std.

`app/` is the console program: it reads files, the environment and the
machine's load, parses TOML, and prints the dashboard.
