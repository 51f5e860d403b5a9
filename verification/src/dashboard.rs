//! Building a dashboard from the configuration and the data sources.

use vstd::prelude::*;

use crate::domain::{
    is_clock_date, is_clock_time, AppConfig, ClockInfo, Dashboard, Event, Shortcut, SystemMetric,
    Task,
};
use crate::outside::local_clock;

verus! {

/// Why a dashboard could not be built: the source that failed, and what it said.
#[derive(Debug)]
pub enum BuildDashboardError {
    Tasks(String),
    Events(String),
    System(String),
}

/// A source of the day's tasks.
pub trait TasksProvider {
    /// Whether `result` is a result this source may give for `config`; a
    /// source that says no more may give any.
    open spec fn tasks_loaded(
        &self,
        config: AppConfig,
        result: Result<Vec<Task>, BuildDashboardError>,
    ) -> bool {
        true
    }

    fn load_tasks(&self, config: &AppConfig) -> (r: Result<Vec<Task>, BuildDashboardError>)
        ensures
            self.tasks_loaded(*config, r),
    ;
}

/// A source of the day's events.
pub trait EventsProvider {
    /// Whether `result` is a result this source may give for `config`; a
    /// source that says no more may give any.
    open spec fn events_loaded(
        &self,
        config: AppConfig,
        result: Result<Vec<Event>, BuildDashboardError>,
    ) -> bool {
        true
    }

    fn load_events(&self, config: &AppConfig) -> (r: Result<Vec<Event>, BuildDashboardError>)
        ensures
            self.events_loaded(*config, r),
    ;
}

/// A source of the machine's load.
pub trait MetricsProvider {
    /// Whether `result` is a result this source may give in its present
    /// state; a source that says no more may give any.
    open spec fn metrics_loaded(&self, result: Result<SystemMetric, BuildDashboardError>) -> bool {
        true
    }

    fn load_metrics(&mut self) -> (r: Result<SystemMetric, BuildDashboardError>)
        ensures
            old(self).metrics_loaded(r),
    ;
}

/// Whether `r` is what building the dashboard of `config` comes to when the
/// sources gave `events`, then `tasks`, then `system`: the error of the first
/// source that failed (those after it count for nothing), or else the
/// dashboard of `config` with the three loaded values and a clock in the
/// dashboard's format.
pub open spec fn built_from(
    config: AppConfig,
    events: Result<Vec<Event>, BuildDashboardError>,
    tasks: Result<Vec<Task>, BuildDashboardError>,
    system: Result<SystemMetric, BuildDashboardError>,
    r: Result<Dashboard, BuildDashboardError>,
) -> bool {
    match events {
        Err(e) => r == Err::<Dashboard, BuildDashboardError>(e),
        Ok(loaded_events) => match tasks {
            Err(e) => r == Err::<Dashboard, BuildDashboardError>(e),
            Ok(loaded_tasks) => match system {
                Err(e) => r == Err::<Dashboard, BuildDashboardError>(e),
                Ok(loaded_system) => r matches Ok(d) && {
                    &&& d.app_name == config.name
                    &&& d.sections == config.sections
                    &&& d.shortcuts@ == config.shortcuts@
                    &&& d.events == loaded_events
                    &&& d.tasks == loaded_tasks
                    &&& d.system == loaded_system
                    &&& is_clock_time(d.clock.time@)
                    &&& is_clock_date(d.clock.date@)
                },
            },
        },
    }
}

/// A copy of the shortcuts.
fn copy_shortcuts(shortcuts: &Vec<Shortcut>) -> (copy: Vec<Shortcut>)
    ensures
        copy@ == shortcuts@,
{
    let mut copy: Vec<Shortcut> = Vec::new();
    let mut i: usize = 0;
    while i < shortcuts.len()
        invariant
            0 <= i <= shortcuts@.len(),
            copy@ == shortcuts@.take(i as int),
        decreases shortcuts@.len() - i,
    {
        copy.push(shortcuts[i].duplicate());
        assert(copy@ =~= shortcuts@.take(i + 1));
        i = i + 1;
    }
    assert(shortcuts@.take(shortcuts@.len() as int) =~= shortcuts@);
    copy
}

/// The dashboard of `config` with the given clock and loaded data: the
/// application name, sections and shortcuts come from `config`.
pub fn assemble_dashboard(
    config: &AppConfig,
    clock: ClockInfo,
    events: Vec<Event>,
    tasks: Vec<Task>,
    system: SystemMetric,
) -> (d: Dashboard)
    ensures
        d.app_name == config.name,
        d.sections == config.sections,
        d.clock == clock,
        d.events == events,
        d.tasks == tasks,
        d.system == system,
        d.shortcuts@ == config.shortcuts@,
{
    Dashboard {
        app_name: config.name.clone(),
        sections: config.sections,
        clock,
        events,
        tasks,
        system,
        shortcuts: copy_shortcuts(&config.shortcuts),
    }
}

/// Builds dashboards from three data sources.
pub struct BuildDashboardUseCase<Tasks, Events, Metrics> {
    tasks: Tasks,
    events: Events,
    metrics: Metrics,
}

impl<Tasks, Events, Metrics> BuildDashboardUseCase<Tasks, Events, Metrics> where
    Tasks: TasksProvider,
    Events: EventsProvider,
    Metrics: MetricsProvider,
 {
    /// The source of tasks.
    pub closed spec fn tasks_source(&self) -> Tasks {
        self.tasks
    }

    /// The source of events.
    pub closed spec fn events_source(&self) -> Events {
        self.events
    }

    /// The source of metrics.
    pub closed spec fn metrics_source(&self) -> Metrics {
        self.metrics
    }

    /// A use case over the three sources.
    pub fn new(tasks: Tasks, events: Events, metrics: Metrics) -> (r: Self)
        ensures
            r.tasks_source() == tasks,
            r.events_source() == events,
            r.metrics_source() == metrics,
    {
        Self { tasks, events, metrics }
    }

    /// Whether, with the use case going from `self` to `after`, `r` is what
    /// building the dashboard of `config` comes to when the sources gave
    /// `events`, `tasks` and `system`: each is a result its source may give,
    /// a source is asked only when those before it succeeded, the source of
    /// metrics is left as it was when it was not asked, and `r` is as
    /// `built_from` says.
    pub open spec fn builds(
        &self,
        after: Self,
        config: AppConfig,
        events: Result<Vec<Event>, BuildDashboardError>,
        tasks: Result<Vec<Task>, BuildDashboardError>,
        system: Result<SystemMetric, BuildDashboardError>,
        r: Result<Dashboard, BuildDashboardError>,
    ) -> bool {
        &&& self.events_source().events_loaded(config, events)
        &&& (events is Ok ==> self.tasks_source().tasks_loaded(config, tasks))
        &&& (events is Ok && tasks is Ok ==> self.metrics_source().metrics_loaded(system))
        &&& (!(events is Ok && tasks is Ok) ==> after.metrics_source() == self.metrics_source())
        &&& built_from(config, events, tasks, system, r)
    }

    /// A dashboard of `config` at the present time: the events are loaded,
    /// then the tasks, then the metrics; the first source that fails gives
    /// the error, and the sources after it are not asked.
    pub fn execute(&mut self, config: &AppConfig) -> (r: Result<Dashboard, BuildDashboardError>)
        ensures
            final(self).tasks_source() == old(self).tasks_source(),
            final(self).events_source() == old(self).events_source(),
            exists|
                events: Result<Vec<Event>, BuildDashboardError>,
                tasks: Result<Vec<Task>, BuildDashboardError>,
                system: Result<SystemMetric, BuildDashboardError>,
            | old(self).builds(*final(self), *config, events, tasks, system, r),
    {
        let clock = local_clock();
        let loaded_events = self.events.load_events(config);
        let ghost events_result = loaded_events;
        let events = match loaded_events {
            Ok(events) => events,
            Err(e) => {
                assert(old(self).builds(*self, *config, events_result, arbitrary(), arbitrary(), Err(e)));
                return Err(e);
            },
        };
        let loaded_tasks = self.tasks.load_tasks(config);
        let ghost tasks_result = loaded_tasks;
        let tasks = match loaded_tasks {
            Ok(tasks) => tasks,
            Err(e) => {
                assert(old(self).builds(*self, *config, events_result, tasks_result, arbitrary(), Err(e)));
                return Err(e);
            },
        };
        let loaded_system = self.metrics.load_metrics();
        let ghost system_result = loaded_system;
        let system = match loaded_system {
            Ok(system) => system,
            Err(e) => {
                assert(old(self).builds(*self, *config, events_result, tasks_result, system_result, Err(e)));
                return Err(e);
            },
        };
        let d = assemble_dashboard(config, clock, events, tasks, system);
        assert(old(self).builds(*self, *config, events_result, tasks_result, system_result, Ok(d)));
        Ok(d)
    }
}

} // verus!
