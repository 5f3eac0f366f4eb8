//! The projects that are being kept alive: their settings, their state,
//! and the decisions taken on each request and each monitoring round.

use vstd::prelude::*;
pub use crate::commands::ProjectError;
pub use crate::container::{ContainerStateStatus, ContainerStatus};
use crate::commands::{compose_command, compose_command_text, default_command, down_command, remote_command, remote_command_text};
use crate::config;
use crate::container::{copy_statuses, needs_restart, restart_needed, ContainerStatusView};
use crate::table::{table_contents, table_entries, table_get, table_insert, table_new, table_remove, ProjectTable};
use crate::duration::{human_duration, human_duration_text};
use crate::page::{context_entries, context_insert_number, context_insert_text, ContextValue};

verus! {

/// How a compose project is started, shown and kept alive.
#[derive(Debug, Clone)]
pub struct Config {
    /// The project's directory name under the projects directory.
    pub name: String,
    /// The name shown on the waiting page.
    pub display_name: String,
    /// Milliseconds without a request after which the project is taken down.
    pub session_duration: u64,
    /// The waiting page's template name, without `.html`.
    pub theme: String,
    /// Milliseconds between two looks at the project's containers.
    pub refresh_frequency: u64,
    /// The compose invocation to use in place of `docker compose`.
    pub custom_command: Option<String>,
}

/// The value of a [`Config`], with its strings as character sequences.
pub struct ConfigView {
    pub name: Seq<char>,
    pub display_name: Seq<char>,
    pub session_duration: u64,
    pub theme: Seq<char>,
    pub refresh_frequency: u64,
    pub custom_command: Option<Seq<char>>,
}

impl View for Config {
    type V = ConfigView;

    open spec fn view(&self) -> ConfigView {
        ConfigView {
            name: self.name@,
            display_name: self.display_name@,
            session_duration: self.session_duration,
            theme: self.theme@,
            refresh_frequency: self.refresh_frequency,
            custom_command: match self.custom_command {
                Some(c) => Some(c@),
                None => None,
            },
        }
    }
}

impl Default for Config {
    fn default() -> (c: Self)
        ensures
            c@ == (ConfigView {
                name: Seq::empty(),
                display_name: Seq::empty(),
                session_duration: 0,
                theme: Seq::empty(),
                refresh_frequency: 0,
                custom_command: None,
            }),
    {
        Config {
            name: String::new(),
            display_name: String::new(),
            session_duration: 0,
            theme: String::new(),
            refresh_frequency: 0,
            custom_command: None,
        }
    }
}

impl Config {
    /// An exact copy.
    pub fn copy(&self) -> (c: Self)
        ensures
            c@ == self@,
    {
        Config {
            name: self.name.clone(),
            display_name: self.display_name.clone(),
            session_duration: self.session_duration,
            theme: self.theme.clone(),
            refresh_frequency: self.refresh_frequency,
            custom_command: match &self.custom_command {
                Some(c) => Some(c.clone()),
                None => None,
            },
        }
    }

    /// What the waiting page shows of this project, by template variable:
    /// its display name, its session length in short form, and the
    /// refresh interval in whole seconds.
    pub open spec fn page_entries(self) -> Map<Seq<char>, ContextValue> {
        map![
            "display_name"@ => ContextValue::Text(self.display_name@),
            "session_duration"@ => ContextValue::Text(human_duration_text(self.session_duration as nat)),
            "refresh_frequency"@ => ContextValue::Number(self.refresh_frequency / 1000),
        ]
    }

    /// Puts the waiting page's variables for this project into `ctx`.
    pub fn insert_ctx(&self, ctx: &mut tera::Context)
        ensures
            context_entries(*final(ctx)) == context_entries(*old(ctx)).union_prefer_right(
                self.page_entries(),
            ),
    {
        context_insert_text(ctx, "display_name", self.display_name.as_str());
        let session = human_duration(self.session_duration as u128);
        context_insert_text(ctx, "session_duration", session.as_str());
        context_insert_number(ctx, "refresh_frequency", self.refresh_frequency / 1000);
        proof {
            reveal_strlit("display_name");
            reveal_strlit("session_duration");
            reveal_strlit("refresh_frequency");
        }
        assert(context_entries(*ctx) =~= context_entries(*old(ctx)).union_prefer_right(
            self.page_entries(),
        ));
    }

    /// The file name of the waiting page's template.
    pub fn theme_template(&self) -> (t: String)
        ensures
            t@ == self.theme@ + ".html"@,
    {
        let mut t = self.theme.clone();
        t.append(".html");
        t
    }
}

/// Where a project stands.
#[derive(Debug, Clone, Copy, PartialEq, Eq, Structural)]
pub enum Status {
    Running,
    NotRunning,
    Starting,
}

impl Status {
    /// Whether requests can go through to the project (rather than to the waiting page).
    pub fn is_ready(&self) -> (r: bool)
        ensures
            r == (*self == Status::Running),
    {
        match self {
            Status::Running => true,
            _ => false,
        }
    }
}

/// A project that is being kept alive.
#[derive(Debug)]
pub struct Project {
    pub config: Config,
    /// When the project was last asked for, in milliseconds on the service's clock.
    pub last_invoke: u64,
    /// Whether a monitoring task has been started for the project.
    pub has_monitor: bool,
    /// What the last look at its containers found.
    pub instance_states: Vec<ContainerStatus>,
    pub status: Status,
}

/// The value of a [`Project`].
pub struct ProjectView {
    pub config: ConfigView,
    pub last_invoke: u64,
    pub has_monitor: bool,
    pub instance_states: Seq<ContainerStatusView>,
    pub status: Status,
}

impl View for Project {
    type V = ProjectView;

    open spec fn view(&self) -> ProjectView {
        ProjectView {
            config: self.config@,
            last_invoke: self.last_invoke,
            has_monitor: self.has_monitor,
            instance_states: self.instance_states@.map_values(|s: ContainerStatus| s@),
            status: self.status,
        }
    }
}

/// A project that has just been asked for at time `now`: not running, no
/// monitor, no container seen yet.
pub open spec fn fresh_project(config: ConfigView, now: u64) -> ProjectView {
    ProjectView {
        config: config,
        last_invoke: now,
        has_monitor: false,
        instance_states: Seq::empty(),
        status: Status::NotRunning,
    }
}

impl Project {
    /// A project first asked for at time `now`.
    pub fn new(config: Config, now: u64) -> (p: Project)
        ensures
            p@ == fresh_project(config@, now),
    {
        let instance_states: Vec<ContainerStatus> = Vec::new();
        assert(instance_states@.map_values(|s: ContainerStatus| s@) =~= Seq::empty());
        Project { config, last_invoke: now, has_monitor: false, instance_states, status: Status::NotRunning }
    }
}

/// Every project of `m` is filed under its own name.
pub open spec fn filed_by_name(m: Map<Seq<char>, ProjectView>) -> bool {
    forall|k: Seq<char>| #[trigger] m.contains_key(k) ==> m[k].config.name == k
}

/// The project that a request with `config` at time `now` leaves in `m`:
/// the settings replaced, the request time recorded, and a project that
/// was not running marked as starting.
pub open spec fn requested_project(m: Map<Seq<char>, ProjectView>, config: ConfigView, now: u64) -> ProjectView {
    let before = if m.contains_key(config.name) {
        m[config.name]
    } else {
        fresh_project(config, now)
    };
    ProjectView {
        config: config,
        last_invoke: now,
        status: if before.status == Status::NotRunning {
            Status::Starting
        } else {
            before.status
        },
        ..before
    }
}

/// A request with `config` finds its project absent or not running, so
/// the project is to be brought up.
pub open spec fn start_needed(m: Map<Seq<char>, ProjectView>, config: ConfigView) -> bool {
    !m.contains_key(config.name) || m[config.name].status == Status::NotRunning
}

/// Milliseconds from `since` to `now`; none if `now` is earlier.
pub open spec fn elapsed_millis(since: u64, now: u64) -> nat {
    if now >= since {
        (now - since) as nat
    } else {
        0
    }
}

/// The project has gone a whole session without being asked for.
pub open spec fn session_over(p: ProjectView, now: u64) -> bool {
    elapsed_millis(p.last_invoke, now) >= p.config.session_duration
}

/// The work that starting a project hands to the task that brings it up.
pub struct StartJob {
    pub name: String,
    /// Whether the project was already known (and so already monitored).
    pub already_exists: bool,
    pub custom_command: Option<String>,
}

/// What one round of monitoring a project is to do.
pub enum MonitorStep {
    /// The project is gone: monitoring ends.
    Finish,
    /// The session is over: take the project down with `command` and forget it.
    Stop { command: String },
    /// Look at the containers with `command`, then wait `sleep` milliseconds.
    Refresh { command: String, sleep: u64 },
}

/// What the project list shows of one project.
pub struct ProjectSummary {
    pub config: Config,
    /// Milliseconds since the project was last asked for.
    pub last_invoke: u128,
    pub instance_states: Vec<ContainerStatus>,
    pub status: Status,
}

/// The live projects and the host they run on.
pub struct ProjectManager {
    projects: ProjectTable,
    c: config::Config,
}

impl View for ProjectManager {
    type V = Map<Seq<char>, ProjectView>;

    closed spec fn view(&self) -> Map<Seq<char>, ProjectView> {
        table_contents(self.projects)
    }
}

impl ProjectManager {
    /// The host settings the manager was made with.
    pub closed spec fn host(&self) -> config::Config {
        self.c
    }

    /// Every project is filed under its own name, and there are finitely many.
    pub open spec fn well_formed(&self) -> bool {
        &&& filed_by_name(self@)
        &&& self@.dom().finite()
    }

    /// A manager with no live project, for the host described by `c`.
    pub fn new(c: config::Config) -> (m: Self)
        ensures
            m@ == Map::<Seq<char>, ProjectView>::empty(),
            m.host() == c,
            m.well_formed(),
    {
        ProjectManager { projects: table_new(), c }
    }

    /// The host settings.
    pub fn ssh_config(&self) -> (c: &config::Config)
        ensures
            *c == self.host(),
    {
        &self.c
    }

    /// The command line that runs `command` in project directory `dir` on the host.
    pub fn exec_line(&self, dir: &str, command: &str) -> (line: String)
        ensures
            line@ == remote_command_text(self.host().projects_dir@, dir@, command@),
    {
        remote_command(self.c.projects_dir.as_str(), dir, command)
    }

    /// The command lines that take down each of the host's start-up
    /// projects with the default compose invocation, in the order listed.
    pub fn startup_stop_lines(&self) -> (lines: Vec<String>)
        ensures
            lines@.len() == self.host().initial_projects@.len(),
            forall|i: int|
                0 <= i < lines@.len() ==> (#[trigger] lines@[i])@ == remote_command_text(
                    self.host().projects_dir@,
                    self.host().initial_projects@[i]@,
                    default_command() + " down"@,
                ),
    {
        let command = down_command(compose_command(&None).as_str());
        let mut lines: Vec<String> = Vec::new();
        for i in 0..self.c.initial_projects.len()
            invariant
                lines@.len() == i,
                command@ == default_command() + " down"@,
                forall|j: int|
                    0 <= j < i ==> (#[trigger] lines@[j])@ == remote_command_text(
                        self.c.projects_dir@,
                        self.c.initial_projects@[j]@,
                        default_command() + " down"@,
                    ),
        {
            lines.push(self.exec_line(self.c.initial_projects[i].as_str(), command.as_str()));
        }
        lines
    }

    /// Records a request for the project that `config` describes, at time
    /// `now`, and returns what the requester is shown (the project's status
    /// and containers) and, where the project was not running, the job that
    /// brings it up.
    pub fn add_and_start(&mut self, config: Config, now: u64) -> (r: (
        Status,
        Vec<ContainerStatus>,
        Option<StartJob>,
    ))
        requires
            old(self).well_formed(),
        ensures
            final(self).well_formed(),
            final(self).host() == old(self).host(),
            final(self)@ == old(self)@.insert(config@.name, requested_project(old(self)@, config@, now)),
            final(self)@.dom().len() == old(self)@.dom().len() + if old(self)@.contains_key(
                config@.name,
            ) {
                0nat
            } else {
                1nat
            },
            r.0 == requested_project(old(self)@, config@, now).status,
            r.1@.map_values(|s: ContainerStatus| s@) == requested_project(
                old(self)@,
                config@,
                now,
            ).instance_states,
            r.2 is Some == start_needed(old(self)@, config@),
            r.2 matches Some(job) ==> {
                &&& job.name@ == config@.name
                &&& job.already_exists == old(self)@.contains_key(config@.name)
                &&& job.custom_command.is_some() == config.custom_command.is_some()
                &&& job.custom_command matches Some(c) ==> c@ == config.custom_command->0@
            },
    {
        let key = config.name.clone();
        let job_name = config.name.clone();
        let custom_command = match &config.custom_command {
            Some(c) => Some(c.clone()),
            None => None,
        };
        let ghost cv = config@;
        let removed = table_remove(&mut self.projects, key.as_str());
        let already_exists = removed.is_some();
        let mut project = match removed {
            Some(p) => {
                let mut p = p;
                p.config = config;
                p
            },
            None => Project::new(config, now),
        };
        let start = if project.status == Status::NotRunning {
            project.status = Status::Starting;
            Some(StartJob { name: job_name, already_exists, custom_command })
        } else {
            None
        };
        project.last_invoke = now;
        let status = project.status;
        let states = copy_statuses(&project.instance_states);
        proof {
            assert(project@ == requested_project(old(self)@, cv, now));
        }
        table_insert(&mut self.projects, key, project);
        proof {
            assert(self@ =~= old(self)@.insert(cv.name, requested_project(old(self)@, cv, now)));
        }
        (status, states, start)
    }

    /// Records that the project `name` has been brought up, after a start
    /// job; returns whether a monitoring task is to be started for it (when
    /// the project was new to the manager). A project forgotten meanwhile
    /// is left alone.
    pub fn finish_start(&mut self, name: &str, already_exists: bool) -> (spawn_monitor: bool)
        requires
            old(self).well_formed(),
        ensures
            final(self).well_formed(),
            final(self).host() == old(self).host(),
            old(self)@.contains_key(name@) ==> {
                &&& spawn_monitor == !already_exists
                &&& final(self)@ == old(self)@.insert(
                    name@,
                    ProjectView {
                        status: Status::Running,
                        has_monitor: old(self)@[name@].has_monitor || !already_exists,
                        ..old(self)@[name@]
                    },
                )
            },
            !old(self)@.contains_key(name@) ==> !spawn_monitor && final(self)@ == old(self)@,
    {
        match table_remove(&mut self.projects, name) {
            Some(p) => {
                let mut p = p;
                if !already_exists {
                    p.has_monitor = true;
                }
                p.status = Status::Running;
                table_insert(&mut self.projects, name.to_owned(), p);
                proof {
                    assert(self@ =~= old(self)@.insert(
                        name@,
                        ProjectView {
                            status: Status::Running,
                            has_monitor: old(self)@[name@].has_monitor || !already_exists,
                            ..old(self)@[name@]
                        },
                    ));
                }
                !already_exists
            },
            None => {
                assert(self@ =~= old(self)@);
                false
            },
        }
    }

    /// Records that bringing the project `name` up failed: it is marked as
    /// not running. Returns whether it has a monitoring task, which is then
    /// to be aborted.
    pub fn mark_start_failed(&mut self, name: &str) -> (abort_monitor: bool)
        requires
            old(self).well_formed(),
        ensures
            final(self).well_formed(),
            final(self).host() == old(self).host(),
            old(self)@.contains_key(name@) ==> {
                &&& abort_monitor == old(self)@[name@].has_monitor
                &&& final(self)@ == old(self)@.insert(
                    name@,
                    ProjectView { status: Status::NotRunning, ..old(self)@[name@] },
                )
            },
            !old(self)@.contains_key(name@) ==> !abort_monitor && final(self)@ == old(self)@,
    {
        match table_remove(&mut self.projects, name) {
            Some(p) => {
                let mut p = p;
                p.status = Status::NotRunning;
                let abort = p.has_monitor;
                table_insert(&mut self.projects, name.to_owned(), p);
                proof {
                    assert(self@ =~= old(self)@.insert(
                        name@,
                        ProjectView { status: Status::NotRunning, ..old(self)@[name@] },
                    ));
                }
                abort
            },
            None => {
                assert(self@ =~= old(self)@);
                false
            },
        }
    }

    /// What the monitor of project `name` is to do at time `now`: end if the
    /// project is gone, take it down once a whole session has passed
    /// without a request, and otherwise look at its containers.
    pub fn monitor_step(&self, name: &str, now: u64) -> (step: MonitorStep)
        ensures
            !self@.contains_key(name@) ==> step is Finish,
            self@.contains_key(name@) && session_over(self@[name@], now) ==> (step matches MonitorStep::Stop { command }
                && command@ == compose_command_text(self@[name@].config.custom_command)),
            self@.contains_key(name@) && !session_over(self@[name@], now) ==> (step matches MonitorStep::Refresh { command, sleep }
                && command@ == compose_command_text(self@[name@].config.custom_command)
                && sleep == self@[name@].config.refresh_frequency),
    {
        match table_get(&self.projects, name) {
            Some(p) => {
                let command = compose_command(&p.config.custom_command);
                let elapsed: u64 = now.saturating_sub(p.last_invoke);
                if elapsed >= p.config.session_duration {
                    MonitorStep::Stop { command }
                } else {
                    MonitorStep::Refresh { command, sleep: p.config.refresh_frequency }
                }
            },
            None => MonitorStep::Finish,
        }
    }

    /// Records what a look at the containers of project `name` found, and
    /// returns whether the project must be brought up again (no container
    /// listed, or one not running). Where it need not, the project is
    /// marked as running.
    pub fn record_statuses(&mut self, name: &str, statuses: Vec<ContainerStatus>) -> (restart: bool)
        requires
            old(self).well_formed(),
        ensures
            final(self).well_formed(),
            final(self).host() == old(self).host(),
            restart == restart_needed(statuses@.map_values(|s: ContainerStatus| s@)),
            old(self)@.contains_key(name@) ==> final(self)@ == old(self)@.insert(
                name@,
                ProjectView {
                    instance_states: statuses@.map_values(|s: ContainerStatus| s@),
                    status: if restart {
                        old(self)@[name@].status
                    } else {
                        Status::Running
                    },
                    ..old(self)@[name@]
                },
            ),
            !old(self)@.contains_key(name@) ==> final(self)@ == old(self)@,
    {
        let restart = needs_restart(&statuses);
        let ghost views = statuses@.map_values(|s: ContainerStatus| s@);
        match table_remove(&mut self.projects, name) {
            Some(p) => {
                let mut p = p;
                if !restart {
                    p.status = Status::Running;
                }
                p.instance_states = statuses;
                table_insert(&mut self.projects, name.to_owned(), p);
                proof {
                    assert(self@ =~= old(self)@.insert(
                        name@,
                        ProjectView {
                            instance_states: views,
                            status: if restart {
                                old(self)@[name@].status
                            } else {
                                Status::Running
                            },
                            ..old(self)@[name@]
                        },
                    ));
                }
            },
            None => {
                assert(self@ =~= old(self)@);
            },
        }
        restart
    }

    /// Forgets project `name`, once it has been taken down.
    pub fn remove_project(&mut self, name: &str)
        requires
            old(self).well_formed(),
        ensures
            final(self).well_formed(),
            final(self).host() == old(self).host(),
            final(self)@ == old(self)@.remove(name@),
    {
        let _ = table_remove(&mut self.projects, name);
    }

    /// What the project list shows, at time `now`: one entry per live
    /// project, in no particular order.
    pub fn get_all(&self, now: u64) -> (all: Vec<ProjectSummary>)
        requires
            self.well_formed(),
        ensures
            all@.len() == self@.dom().len(),
            forall|i: int| 0 <= i < all@.len() ==> #[trigger] summarizes(all@[i], self@, now),
            forall|i: int, j: int|
                0 <= i < all@.len() && 0 <= j < all@.len() && i != j ==> (#[trigger] all@[i]).config@.name
                    != (#[trigger] all@[j]).config@.name,
            forall|k: Seq<char>|
                #[trigger] self@.contains_key(k) ==> exists|i: int|
                    0 <= i < all@.len() && (#[trigger] all@[i]).config@.name == k,
    {
        let entries = table_entries(&self.projects);
        let mut all: Vec<ProjectSummary> = Vec::new();
        for i in 0..entries.len()
            invariant
                entries@.len() == self@.dom().len(),
                filed_by_name(self@),
                forall|k: int| 0 <= k < entries@.len() ==> self@.contains_key((#[trigger] entries@[k]).0@)
                    && self@[entries@[k].0@] == entries@[k].1@,
                forall|k: int, l: int|
                    0 <= k < entries@.len() && 0 <= l < entries@.len() && k != l ==> (#[trigger] entries@[k]).0@
                        != (#[trigger] entries@[l]).0@,
                all@.len() == i,
                forall|k: int| 0 <= k < i ==> #[trigger] summarizes(all@[k], self@, now),
                forall|k: int| 0 <= k < i ==> (#[trigger] all@[k]).config@.name == entries@[k].0@,
        {
            let (key, p) = entries[i];
            assert(self@.contains_key(key@));
            let elapsed: u64 = now.saturating_sub(p.last_invoke);
            all.push(ProjectSummary {
                config: p.config.copy(),
                last_invoke: elapsed as u128,
                instance_states: copy_statuses(&p.instance_states),
                status: p.status,
            });
        }
        proof {
            let names = all@.map_values(|s: ProjectSummary| s.config@.name);
            assert(names.no_duplicates()) by {
                assert forall|i: int, j: int| 0 <= i < names.len() && 0 <= j < names.len() && i != j implies names[i] != names[j] by {
                    assert(all@[i].config@.name != all@[j].config@.name);
                }
            }
            names.unique_seq_to_set();
            assert(names.to_set().subset_of(self@.dom())) by {
                assert forall|k: Seq<char>| names.to_set().contains(k) implies self@.dom().contains(k) by {
                    let i = choose|i: int| 0 <= i < names.len() && names[i] == k;
                    assert(summarizes(all@[i], self@, now));
                }
            }
            vstd::set_lib::lemma_len_subset(names.to_set(), self@.dom());
            vstd::set_lib::lemma_subset_equality(names.to_set(), self@.dom());
            assert forall|k: Seq<char>| #[trigger] self@.contains_key(k) implies exists|i: int|
                0 <= i < all@.len() && (#[trigger] all@[i]).config@.name == k by {
                assert(names.to_set().contains(k));
                let i = choose|i: int| 0 <= i < names.len() && names[i] == k;
                assert(all@[i].config@.name == k);
            }
        }
        all
    }
}

/// `s` shows, at time `now`, the project of `m` that it names.
pub open spec fn summarizes(s: ProjectSummary, m: Map<Seq<char>, ProjectView>, now: u64) -> bool {
    let name = s.config@.name;
    &&& m.contains_key(name)
    &&& s.config@ == m[name].config
    &&& s.last_invoke == elapsed_millis(m[name].last_invoke, now)
    &&& s.instance_states@.map_values(|c: ContainerStatus| c@) == m[name].instance_states
    &&& s.status == m[name].status
}

/// Whether another attempt at bringing a project up follows attempt
/// number `attempt` (counted from 0) with the given result: only after a
/// failure, and three attempts at most. The failure of the last attempt is
/// not reported: the project is then treated as started.
pub fn retry_start(attempt: u32, succeeded: bool) -> (again: bool)
    requires
        attempt < 3,
    ensures
        again == (!succeeded && attempt < 2),
{
    !succeeded && attempt + 1 < 3
}

/// A request keeps its project up for one whole session: the project is
/// taken down at a later time exactly when a full session has passed since
/// the request (with no request in between).
pub proof fn law_session_after_request(
    m: Map<Seq<char>, ProjectView>,
    config: ConfigView,
    now: u64,
    later: u64,
)
    requires
        now <= later,
    ensures
        session_over(requested_project(m, config, now), later) <==> later - now
            >= config.session_duration,
{
}

/// A project is brought up once per stretch of activity: a second request
/// right after a first one asks for no second start, whatever its settings.
pub proof fn law_no_second_start(
    m: Map<Seq<char>, ProjectView>,
    first: ConfigView,
    second: ConfigView,
    now: u64,
)
    requires
        first.name == second.name,
    ensures
        start_needed(m, first) ==> requested_project(m, first, now).status == Status::Starting,
        !start_needed(m.insert(first.name, requested_project(m, first, now)), second),
{
}

/// A project taken down for idling starts afresh on its next request: it
/// is brought up again, as a project new to the manager (so with a monitor
/// of its own), with no container known yet.
pub proof fn law_request_after_stop(m: Map<Seq<char>, ProjectView>, config: ConfigView, now: u64)
    ensures
        start_needed(m.remove(config.name), config),
        !m.remove(config.name).contains_key(config.name),
        requested_project(m.remove(config.name), config, now) == (ProjectView {
            status: Status::Starting,
            ..fresh_project(config, now)
        }),
{
}

/// When an idle project comes down. Let `checks` be the times at which its
/// monitor looks at project `p`, with no request for it since `p` was
/// recorded: they do not go backwards, none comes before the request, and
/// two checks in a row lie at most the refresh interval plus `slack` apart
/// (`slack` bounds the wait for the lock and the time the commands take).
/// Then a project that is due to come down stays due; the monitor takes it
/// down at the first check at or past one whole session after the request;
/// and it does so at most one refresh interval plus `slack` after the
/// session ends, the monitor's first check coming at most that long after
/// the request. (`monitor_step`
/// stops a project exactly when `session_over` holds, and of the
/// manager's operations only `add_and_start` changes a project's request
/// time or settings.)
pub proof fn law_idle_project_comes_down(p: ProjectView, checks: Seq<u64>, slack: nat)
    requires
        checks.len() > 0,
        checks[0] <= p.last_invoke + p.config.refresh_frequency + slack,
        forall|i: int| 0 <= i < checks.len() ==> p.last_invoke <= #[trigger] checks[i],
        forall|i: int, j: int| 0 <= i <= j < checks.len() ==> #[trigger] checks[i] <= #[trigger] checks[j],
        forall|i: int|
            0 <= i < checks.len() - 1 ==> #[trigger] checks[i + 1] <= checks[i]
                + p.config.refresh_frequency + slack,
    ensures
        forall|i: int, j: int|
            0 <= i <= j < checks.len() && session_over(p, #[trigger] checks[i]) ==> session_over(
                p,
                #[trigger] checks[j],
            ),
        forall|i: int|
            0 <= i < checks.len() ==> (session_over(p, #[trigger] checks[i]) <==> checks[i]
                >= p.last_invoke + p.config.session_duration),
        forall|i: int|
            0 <= i < checks.len() && session_over(p, #[trigger] checks[i]) && (i == 0
                || !session_over(p, checks[i - 1])) ==> checks[i] <= p.last_invoke
                + p.config.session_duration + p.config.refresh_frequency + slack,
{
    assert forall|i: int|
        0 <= i < checks.len() && session_over(p, #[trigger] checks[i]) && (i == 0
            || !session_over(p, checks[i - 1])) implies checks[i] <= p.last_invoke
        + p.config.session_duration + p.config.refresh_frequency + slack by {
        if i > 0 {
            assert(checks[(i - 1) + 1] <= checks[i - 1] + p.config.refresh_frequency + slack);
        }
    }
}

} // verus!
