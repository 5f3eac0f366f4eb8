//! The state of one container of a compose project, as the waiting page
//! and the monitor see it, and how it is read from what the container
//! engine reports.

use vstd::prelude::*;
use crate::text::{chars_of, i64_to_decimal, is_space, lemma_trim_idempotent, signed_decimal, trim, trimmed_bounds};

verus! {

/// How far a container is from serving.
#[derive(Debug, Clone, Copy, PartialEq, Eq, Structural)]
pub enum ContainerStateStatus {
    Ready,
    NotReady,
    Unrecoverable,
}

impl Default for ContainerStateStatus {
    fn default() -> (s: Self)
        ensures
            s == ContainerStateStatus::NotReady,
    {
        ContainerStateStatus::NotReady
    }
}

/// One container of a project, as shown to the user.
#[derive(Debug, Clone)]
pub struct ContainerStatus {
    pub name: String,
    pub running: bool,
    pub current_replicas: u8,
    pub desired_replicas: u8,
    pub status: ContainerStateStatus,
    pub error: String,
}

/// The value of a [`ContainerStatus`], with its strings as character sequences.
pub struct ContainerStatusView {
    pub name: Seq<char>,
    pub running: bool,
    pub current_replicas: u8,
    pub desired_replicas: u8,
    pub status: ContainerStateStatus,
    pub error: Seq<char>,
}

impl View for ContainerStatus {
    type V = ContainerStatusView;

    open spec fn view(&self) -> ContainerStatusView {
        ContainerStatusView {
            name: self.name@,
            running: self.running,
            current_replicas: self.current_replicas,
            desired_replicas: self.desired_replicas,
            status: self.status,
            error: self.error@,
        }
    }
}

impl Default for ContainerStatus {
    fn default() -> (s: Self)
        ensures
            s@ == (ContainerStatusView {
                name: Seq::empty(),
                running: false,
                current_replicas: 0,
                desired_replicas: 0,
                status: ContainerStateStatus::NotReady,
                error: Seq::empty(),
            }),
    {
        ContainerStatus {
            name: String::new(),
            running: false,
            current_replicas: 0,
            desired_replicas: 0,
            status: ContainerStateStatus::NotReady,
            error: String::new(),
        }
    }
}

impl ContainerStatus {
    /// An exact copy.
    pub fn copy(&self) -> (c: Self)
        ensures
            c@ == self@,
    {
        ContainerStatus {
            name: self.name.clone(),
            running: self.running,
            current_replicas: self.current_replicas,
            desired_replicas: self.desired_replicas,
            status: self.status,
            error: self.error.clone(),
        }
    }
}

/// Copies every status of `v`, in order.
pub fn copy_statuses(v: &Vec<ContainerStatus>) -> (c: Vec<ContainerStatus>)
    ensures
        c@.map_values(|s: ContainerStatus| s@) == v@.map_values(|s: ContainerStatus| s@),
{
    let mut c: Vec<ContainerStatus> = Vec::new();
    for i in 0..v.len()
        invariant
            c@.len() == i,
            forall|j: int| 0 <= j < i ==> (#[trigger] c@[j])@ == v@[j]@,
    {
        c.push(v[i].copy());
    }
    assert(c@.map_values(|s: ContainerStatus| s@) =~= v@.map_values(|s: ContainerStatus| s@));
    c
}

/// Marks the container as not (yet) serving: no replica up, not running.
pub fn not_ready_instance_state(last: &mut ContainerStatus)
    ensures
        final(last)@ == (ContainerStatusView {
            current_replicas: 0,
            status: ContainerStateStatus::NotReady,
            running: false,
            ..old(last)@
        }),
{
    last.current_replicas = 0;
    last.status = ContainerStateStatus::NotReady;
    last.running = false;
}

/// Marks the container as serving: one replica up and running.
pub fn ready_instance_state(last: &mut ContainerStatus)
    ensures
        final(last)@ == (ContainerStatusView {
            current_replicas: 1,
            status: ContainerStateStatus::Ready,
            running: true,
            ..old(last)@
        }),
{
    last.current_replicas = 1;
    last.status = ContainerStateStatus::Ready;
    last.running = true;
}

/// Marks the container as failed for good: no replica up, not running.
pub fn unrecoverable_instance_state(last: &mut ContainerStatus)
    ensures
        final(last)@ == (ContainerStatusView {
            current_replicas: 0,
            status: ContainerStateStatus::Unrecoverable,
            running: false,
            ..old(last)@
        }),
{
    not_ready_instance_state(last);
    last.status = ContainerStateStatus::Unrecoverable;
}

/// The pieces of `s` between `'\n'` characters, as `str::split('\n')`
/// gives them: one more than there are newlines, possibly empty.
pub open spec fn split_lines(s: Seq<char>) -> Seq<Seq<char>>
    decreases s.len(),
{
    if s.len() == 0 {
        seq![Seq::empty()]
    } else {
        let rest = split_lines(s.drop_last());
        if s.last() == '\n' {
            rest.push(Seq::empty())
        } else {
            rest.update(rest.len() - 1, rest.last().push(s.last()))
        }
    }
}

/// The trimmed lines of `lines` that are not empty after trimming, in order.
pub open spec fn ids_from_lines(lines: Seq<Seq<char>>) -> Seq<Seq<char>>
    decreases lines.len(),
{
    if lines.len() == 0 {
        Seq::empty()
    } else {
        let rest = ids_from_lines(lines.drop_last());
        let t = trim(lines.last());
        if t.len() > 0 {
            rest.push(t)
        } else {
            rest
        }
    }
}

/// The container ids that one line each of `output` names: each line
/// trimmed of white space, blank lines skipped.
pub open spec fn container_ids_of(output: Seq<char>) -> Seq<Seq<char>> {
    ids_from_lines(split_lines(output))
}

/// The container ids listed in `output`, one per line (what `ps -q`
/// prints), trimmed, without blank lines.
pub fn container_ids(output: &str) -> (ids: Vec<String>)
    ensures
        ids@.map_values(|x: String| x@) == container_ids_of(output@),
{
    let chars = chars_of(output);
    let n = chars.len();
    let mut ids: Vec<String> = Vec::new();
    let mut start: usize = 0;
    let ghost mut done: Seq<Seq<char>> = Seq::empty();
    let mut i: usize = 0;
    assert(chars@.take(0) =~= Seq::<char>::empty());
    assert(chars@.subrange(0, 0) =~= Seq::<char>::empty());
    assert(split_lines(Seq::<char>::empty()) =~= done.push(Seq::<char>::empty()));
    while i < n
        invariant
            n == chars@.len(),
            chars@ == output@,
            start <= i <= n,
            split_lines(chars@.take(i as int)) == done.push(chars@.subrange(start as int, i as int)),
            ids@.map_values(|x: String| x@) == ids_from_lines(done),
        decreases n - i,
    {
        let c = chars[i];
        let ghost before = chars@.take(i as int);
        assert(chars@.take(i + 1).drop_last() =~= before);
        assert(chars@.take(i + 1).last() == c);
        if c == '\n' {
            let (a, b) = trimmed_bounds(&chars, start, i);
            let ghost line = chars@.subrange(start as int, i as int);
            if a < b {
                let id = output.substring_char(a, b).to_owned();
                ids.push(id);
            }
            proof {
                assert(done.push(line).drop_last() =~= done);
                assert(ids_from_lines(done.push(line)) == (if trim(line).len() > 0 {
                    ids_from_lines(done).push(trim(line))
                } else {
                    ids_from_lines(done)
                }));
                done = done.push(line);
                assert(chars@.subrange(i + 1, i + 1) =~= Seq::<char>::empty());
            }
            start = i + 1;
        } else {
            proof {
                let rest = done.push(chars@.subrange(start as int, i as int));
                assert(rest.last() == chars@.subrange(start as int, i as int));
                assert(chars@.subrange(start as int, i as int).push(c) =~= chars@.subrange(
                    start as int,
                    i + 1,
                ));
                assert(rest.update(rest.len() - 1, rest.last().push(c)) =~= done.push(
                    chars@.subrange(start as int, i + 1),
                ));
            }
        }
        i = i + 1;
    }
    assert(chars@.take(n as int) =~= chars@);
    let (a, b) = trimmed_bounds(&chars, start, n);
    let ghost line = chars@.subrange(start as int, n as int);
    if a < b {
        let id = output.substring_char(a, b).to_owned();
        ids.push(id);
    }
    proof {
        assert(done.push(line).drop_last() =~= done);
    }
    ids
}

/// The lifecycle state that the container engine reports for a container.
#[derive(Debug, Clone, Copy, PartialEq, Eq, Structural)]
pub enum ContainerRunState {
    Empty,
    Created,
    Running,
    Paused,
    Restarting,
    Removing,
    Exited,
    Dead,
}

/// The result of the container's health check, as the engine reports it.
#[derive(Debug, Clone, Copy, PartialEq, Eq, Structural)]
pub enum HealthState {
    Empty,
    NoCheck,
    Starting,
    Healthy,
    Unhealthy,
}

/// One recorded run of a health check.
#[derive(Debug, Clone)]
pub struct HealthProbe {
    pub output: Option<String>,
    pub exit_code: Option<i64>,
}

/// The health check section of a container's state.
#[derive(Debug, Clone)]
pub struct Health {
    pub status: Option<HealthState>,
    /// The last few probes, oldest first.
    pub log: Option<Vec<HealthProbe>>,
}

/// What the engine reports about a container that the classification reads.
#[derive(Debug, Clone)]
pub struct ContainerState {
    pub status: ContainerRunState,
    pub health: Option<Health>,
    pub exit_code: Option<i64>,
}

/// The message for a container whose health check failed with `output`
/// and exit code `code`.
pub open spec fn unhealthy_text(output: Seq<char>, code: int) -> Seq<char> {
    "container is unhealthy: "@ + output + " ("@ + signed_decimal(code) + ")"@
}

/// The message for a container that exited with the non-zero `code`.
pub open spec fn exited_text(code: int) -> Seq<char> {
    "container exited with code \""@ + signed_decimal(code) + "\""@
}

/// The output of a probe, empty where none was recorded.
pub open spec fn probe_output(p: HealthProbe) -> Seq<char> {
    match p.output {
        Some(o) => o@,
        None => Seq::empty(),
    }
}

/// The exit code of a probe, 0 where none was recorded.
pub open spec fn probe_code(p: HealthProbe) -> int {
    match p.exit_code {
        Some(c) => c as int,
        None => 0,
    }
}

/// The message for an unhealthy container: the first logged probe, if any.
pub open spec fn unhealthy_message(h: Health) -> Seq<char> {
    match h.log {
        Some(log) => if log@.len() > 0 {
            unhealthy_text(probe_output(log@[0]), probe_code(log@[0]))
        } else {
            "container is unhealthy: no log available"@
        },
        None => "container is unhealthy: no log available"@,
    }
}

/// How a container in `state` is judged, and the error shown for it
/// (empty unless it is unrecoverable).
pub open spec fn assessment(state: ContainerState) -> (ContainerStateStatus, Seq<char>) {
    match state.status {
        ContainerRunState::Running => match state.health {
            None => (ContainerStateStatus::Ready, Seq::empty()),
            Some(h) => match h.status->0 {
                HealthState::Healthy => (ContainerStateStatus::Ready, Seq::empty()),
                HealthState::Unhealthy => (
                    ContainerStateStatus::Unrecoverable,
                    unhealthy_message(h),
                ),
                _ => (ContainerStateStatus::NotReady, Seq::empty()),
            },
        },
        ContainerRunState::Exited => {
            let code = match state.exit_code {
                Some(c) => c as int,
                None => 0,
            };
            if code != 0 {
                (ContainerStateStatus::Unrecoverable, exited_text(code))
            } else {
                (ContainerStateStatus::NotReady, Seq::empty())
            }
        },
        ContainerRunState::Dead => (
            ContainerStateStatus::Unrecoverable,
            "container in dead state"@,
        ),
        _ => (ContainerStateStatus::NotReady, Seq::empty()),
    }
}

/// The status shown for container `name` in `state`: one replica wanted,
/// one up exactly when it is ready.
pub open spec fn observed_status(name: Seq<char>, state: ContainerState) -> ContainerStatusView {
    let (status, error) = assessment(state);
    ContainerStatusView {
        name: name,
        running: status == ContainerStateStatus::Ready,
        current_replicas: if status == ContainerStateStatus::Ready {
            1
        } else {
            0
        },
        desired_replicas: 1,
        status: status,
        error: error,
    }
}

/// The message for an unhealthy container whose first logged probe is `p`.
fn unhealthy_probe_message(p: &HealthProbe) -> (m: String)
    ensures
        m@ == unhealthy_text(probe_output(*p), probe_code(*p)),
{
    proof {
        reveal_strlit("container is unhealthy: ");
        reveal_strlit(" (");
        reveal_strlit(")");
    }
    let mut m = "container is unhealthy: ".to_owned();
    match &p.output {
        Some(o) => m.append(o.as_str()),
        None => {},
    }
    let code: i64 = match p.exit_code {
        Some(c) => c,
        None => 0,
    };
    m.append(" (");
    let digits = i64_to_decimal(code);
    m.append(digits.as_str());
    m.append(")");
    assert(m@ =~= unhealthy_text(probe_output(*p), probe_code(*p)));
    m
}

/// The engine reports a lifecycle state for the container and, for a
/// running container with a health check, the check's state.
pub open spec fn state_complete(state: ContainerState) -> bool {
    &&& state.status != ContainerRunState::Empty
    &&& state.status == ContainerRunState::Running && state.health is Some ==> state.health->0.status is Some
}

/// The status of container `name` (an id that `ps -q` listed) given what
/// the engine reports of it.
pub fn classify_container(name: String, state: &ContainerState) -> (c: ContainerStatus)
    requires
        state_complete(*state),
    ensures
        c@ == observed_status(name@, *state),
        c.name@ == name@,
        c.desired_replicas == 1,
        c.running == (c.status == ContainerStateStatus::Ready),
        c.current_replicas == (if c.status == ContainerStateStatus::Ready { 1u8 } else { 0u8 }),
        c.status == ContainerStateStatus::Ready ==> state.status == ContainerRunState::Running,
        waiting_state(state.status) ==> c.status == ContainerStateStatus::NotReady
            && c.error@.len() == 0,
        state.status == ContainerRunState::Dead ==> c.status
            == ContainerStateStatus::Unrecoverable,
        state.status == ContainerRunState::Running && state.health is None ==> c.status
            == ContainerStateStatus::Ready,
{
    proof {
        law_judged_by_lifecycle(name@, *state);
    }
    proof {
        reveal_strlit("container is unhealthy: no log available");
        reveal_strlit("container exited with code \"");
        reveal_strlit("\"");
        reveal_strlit("container in dead state");
    }
    let mut last = ContainerStatus {
        name: name,
        running: false,
        current_replicas: 0,
        desired_replicas: 1,
        status: ContainerStateStatus::NotReady,
        error: String::new(),
    };
    match state.status {
        ContainerRunState::Created | ContainerRunState::Paused | ContainerRunState::Restarting
        | ContainerRunState::Removing => not_ready_instance_state(&mut last),
        ContainerRunState::Running => match &state.health {
            Some(h) => match h.status.unwrap() {
                HealthState::Healthy => ready_instance_state(&mut last),
                HealthState::Unhealthy => {
                    unrecoverable_instance_state(&mut last);
                    match &h.log {
                        Some(log) => {
                            if log.len() > 0 {
                                last.error = unhealthy_probe_message(&log[0]);
                            } else {
                                last.error = "container is unhealthy: no log available".to_owned();
                            }
                        },
                        None => {
                            last.error = "container is unhealthy: no log available".to_owned();
                        },
                    }
                },
                _ => not_ready_instance_state(&mut last),
            },
            None => ready_instance_state(&mut last),
        },
        ContainerRunState::Exited => {
            let exit_code: i64 = match state.exit_code {
                Some(c) => c,
                None => 0,
            };
            if exit_code != 0 {
                unrecoverable_instance_state(&mut last);
                let mut m = "container exited with code \"".to_owned();
                let digits = i64_to_decimal(exit_code);
                m.append(digits.as_str());
                m.append("\"");
                last.error = m;
            } else {
                not_ready_instance_state(&mut last);
            }
        },
        ContainerRunState::Dead => {
            unrecoverable_instance_state(&mut last);
            last.error = "container in dead state".to_owned();
        },
        ContainerRunState::Empty => {},
    }
    last
}

/// A lifecycle state in which a container is on its way up or down:
/// created, paused, restarting or being removed.
pub open spec fn waiting_state(s: ContainerRunState) -> bool {
    s == ContainerRunState::Created || s == ContainerRunState::Paused || s
        == ContainerRunState::Restarting || s == ContainerRunState::Removing
}

/// A container is judged by its lifecycle state first: one that is
/// created, paused, restarting or being removed is not ready and shows no
/// error, whatever its health check says; only a running container can be
/// ready; a running container without a health check is ready; a dead one
/// is unrecoverable; an exited one is unrecoverable exactly when its exit
/// code (0 if none is reported) is not 0; and a running one whose check
/// reports unhealthy is unrecoverable.
pub proof fn law_judged_by_lifecycle(name: Seq<char>, state: ContainerState)
    requires
        state_complete(state),
    ensures
        ({
            let v = observed_status(name, state);
            &&& waiting_state(state.status) ==> v.status == ContainerStateStatus::NotReady
                && v.error.len() == 0 && !v.running && v.current_replicas == 0
            &&& v.status == ContainerStateStatus::Ready ==> state.status == ContainerRunState::Running
            &&& state.status == ContainerRunState::Running && state.health is None ==> v.status
                == ContainerStateStatus::Ready
            &&& state.status == ContainerRunState::Dead ==> v.status
                == ContainerStateStatus::Unrecoverable
            &&& state.status == ContainerRunState::Exited ==> (v.status
                == ContainerStateStatus::Unrecoverable <==> (state.exit_code is Some
                && state.exit_code->0 != 0))
            &&& state.status == ContainerRunState::Exited && v.status
                != ContainerStateStatus::Unrecoverable ==> v.status == ContainerStateStatus::NotReady
            &&& state.status == ContainerRunState::Running && state.health is Some
                && state.health->0.status == Some(HealthState::Unhealthy) ==> v.status
                == ContainerStateStatus::Unrecoverable
            &&& state.status == ContainerRunState::Running && state.health is Some
                && state.health->0.status == Some(HealthState::Healthy) ==> v.status
                == ContainerStateStatus::Ready
            &&& v.running == (v.status == ContainerStateStatus::Ready)
            &&& v.current_replicas == (if v.status == ContainerStateStatus::Ready { 1u8 } else { 0u8 })
            &&& v.desired_replicas == 1
            &&& v.name == name
        }),
{
}

/// A restart is needed exactly when no container is listed or one of
/// them, at any position, is not running.
pub proof fn law_restart_needed(statuses: Seq<ContainerStatusView>)
    ensures
        statuses.len() == 0 ==> restart_needed(statuses),
        forall|i: int| 0 <= i < statuses.len() && !(#[trigger] statuses[i]).running ==> restart_needed(statuses),
        (statuses.len() > 0 && forall|i: int| 0 <= i < statuses.len() ==> (#[trigger] statuses[i]).running)
            ==> !restart_needed(statuses),
{
}

/// A project has to be brought up again when none of its containers is
/// listed, or one of them is not running.
pub open spec fn restart_needed(statuses: Seq<ContainerStatusView>) -> bool {
    statuses.len() == 0 || exists|i: int| 0 <= i < statuses.len() && !(#[trigger] statuses[i]).running
}

/// Whether the project whose containers have `statuses` must be brought up again.
pub fn needs_restart(statuses: &Vec<ContainerStatus>) -> (r: bool)
    ensures
        r == restart_needed(statuses@.map_values(|s: ContainerStatus| s@)),
        statuses@.len() == 0 ==> r,
        forall|i: int| 0 <= i < statuses@.len() && !(#[trigger] statuses@[i]).running ==> r,
        r ==> statuses@.len() == 0 || exists|i: int|
            0 <= i < statuses@.len() && !(#[trigger] statuses@[i]).running,
{
    proof {
        law_restart_needed(statuses@.map_values(|s: ContainerStatus| s@));
        let views = statuses@.map_values(|s: ContainerStatus| s@);
        assert forall|i: int| 0 <= i < statuses@.len() implies views[i].running == (
        #[trigger] statuses@[i]).running by {}
        if restart_needed(views) && statuses@.len() > 0 {
            let i = choose|i: int| 0 <= i < views.len() && !(#[trigger] views[i]).running;
            assert(!statuses@[i].running);
        }
    }
    let ghost views = statuses@.map_values(|s: ContainerStatus| s@);
    if statuses.len() == 0 {
        return true;
    }
    for i in 0..statuses.len()
        invariant
            views == statuses@.map_values(|s: ContainerStatus| s@),
            forall|j: int| 0 <= j < i ==> (#[trigger] views[j]).running,
    {
        if !statuses[i].running {
            assert(!views[i as int].running);
            return true;
        }
    }
    false
}

/// Every id read from command output is non-empty, and trimmed: it
/// neither begins nor ends with white space.
pub proof fn law_container_ids_trimmed(output: Seq<char>)
    ensures
        forall|i: int|
            0 <= i < container_ids_of(output).len() ==> {
                let id = #[trigger] container_ids_of(output)[i];
                &&& id.len() > 0
                &&& !is_space(id[0])
                &&& !is_space(id.last())
                &&& trim(id) == id
            },
{
    lemma_ids_trimmed(split_lines(output));
}

proof fn lemma_ids_trimmed(lines: Seq<Seq<char>>)
    ensures
        forall|i: int|
            0 <= i < ids_from_lines(lines).len() ==> {
                let id = #[trigger] ids_from_lines(lines)[i];
                &&& id.len() > 0
                &&& !is_space(id[0])
                &&& !is_space(id.last())
                &&& trim(id) == id
            },
    decreases lines.len(),
{
    if lines.len() > 0 {
        lemma_ids_trimmed(lines.drop_last());
        lemma_trim_idempotent(lines.last());
        let rest = ids_from_lines(lines.drop_last());
        let ids = ids_from_lines(lines);
        assert forall|i: int| 0 <= i < ids.len() implies {
            let id = #[trigger] ids[i];
            &&& id.len() > 0
            &&& !is_space(id[0])
            &&& !is_space(id.last())
            &&& trim(id) == id
        } by {
            if i < rest.len() {
                assert(ids[i] == rest[i]);
            }
        }
    }
}

/// The error of a container's status is set exactly when the container is
/// unrecoverable; it runs, and has its replica up, exactly when it is ready.
pub proof fn law_status_consistent(name: Seq<char>, state: ContainerState)
    requires
        state_complete(state),
    ensures
        ({
            let v = observed_status(name, state);
            &&& (v.error.len() > 0 <==> v.status == ContainerStateStatus::Unrecoverable)
            &&& (v.running <==> v.status == ContainerStateStatus::Ready)
            &&& (v.current_replicas == 1 <==> v.status == ContainerStateStatus::Ready)
            &&& v.desired_replicas == 1
            &&& v.name == name
        }),
{
    reveal_strlit("container is unhealthy: ");
    reveal_strlit("container is unhealthy: no log available");
    reveal_strlit("container exited with code \"");
    reveal_strlit("container in dead state");
}

proof fn lemma_split_lines_nonempty(s: Seq<char>)
    ensures
        split_lines(s).len() >= 1,
    decreases s.len(),
{
    if s.len() > 0 {
        lemma_split_lines_nonempty(s.drop_last());
    }
}

proof fn lemma_split_lines_concat(a: Seq<char>, b: Seq<char>)
    ensures
        split_lines(a + seq!['\n'] + b) == split_lines(a) + split_lines(b),
    decreases b.len(),
{
    let s = a + seq!['\n'] + b;
    if b.len() == 0 {
        assert(s =~= a.push('\n'));
        assert(s.drop_last() =~= a);
        assert(split_lines(a) + split_lines(b) =~= split_lines(a).push(Seq::empty()));
    } else {
        let b0 = b.drop_last();
        lemma_split_lines_concat(a, b0);
        lemma_split_lines_nonempty(b0);
        assert(s.drop_last() =~= a + seq!['\n'] + b0);
        assert(s.last() == b.last());
        let sa = split_lines(a);
        let sb0 = split_lines(b0);
        let rest = sa + sb0;
        if b.last() == '\n' {
            assert(rest.push(Seq::empty()) =~= sa + sb0.push(Seq::empty()));
        } else {
            assert(rest.update(rest.len() - 1, rest.last().push(b.last())) =~= sa + sb0.update(
                sb0.len() - 1,
                sb0.last().push(b.last()),
            ));
        }
    }
}

proof fn lemma_split_single_line(s: Seq<char>)
    requires
        !s.contains('\n'),
    ensures
        split_lines(s) == seq![s],
    decreases s.len(),
{
    if s.len() > 0 {
        let t = s.drop_last();
        assert(!t.contains('\n')) by {
            if t.contains('\n') {
                let i = choose|i: int| 0 <= i < t.len() && t[i] == '\n';
                assert(s[i] == '\n');
            }
        }
        lemma_split_single_line(t);
        assert(s.last() != '\n') by {
            assert(s[s.len() - 1] == s.last());
        }
        assert(t.push(s.last()) =~= s);
        assert(seq![t].update(0, t.push(s.last())) =~= seq![s]);
    } else {
        assert(s =~= Seq::<char>::empty());
    }
}

proof fn lemma_ids_concat(x: Seq<Seq<char>>, y: Seq<Seq<char>>)
    ensures
        ids_from_lines(x + y) == ids_from_lines(x) + ids_from_lines(y),
    decreases y.len(),
{
    if y.len() == 0 {
        assert(x + y =~= x);
        assert(ids_from_lines(x) + ids_from_lines(y) =~= ids_from_lines(x));
    } else {
        lemma_ids_concat(x, y.drop_last());
        assert((x + y).drop_last() =~= x + y.drop_last());
        assert((x + y).last() == y.last());
        let t = trim(y.last());
        if t.len() > 0 {
            assert(ids_from_lines(x) + ids_from_lines(y) =~= (ids_from_lines(x) + ids_from_lines(
                y.drop_last(),
            )).push(t));
        }
    }
}

/// How container ids are read from command output, line by line: text
/// without a newline gives its trimmed self as the one id, or no id when it
/// is blank; and the ids of two texts joined by a newline are the ids of
/// the first followed by the ids of the second. So every non-blank line
/// gives exactly one id, trimmed, in the order of the lines.
pub proof fn law_container_ids_by_line(a: Seq<char>, b: Seq<char>)
    ensures
        !a.contains('\n') ==> container_ids_of(a) == (if trim(a).len() > 0 {
            seq![trim(a)]
        } else {
            Seq::<Seq<char>>::empty()
        }),
        container_ids_of(a + seq!['\n'] + b) == container_ids_of(a) + container_ids_of(b),
{
    if !a.contains('\n') {
        lemma_split_single_line(a);
        let one = seq![a];
        assert(one.drop_last() =~= Seq::<Seq<char>>::empty());
        assert(one.last() == a);
        assert(ids_from_lines(Seq::<Seq<char>>::empty()) =~= Seq::<Seq<char>>::empty());
        if trim(a).len() > 0 {
            assert(Seq::<Seq<char>>::empty().push(trim(a)) =~= seq![trim(a)]);
        }
    }
    lemma_split_lines_concat(a, b);
    lemma_ids_concat(split_lines(a), split_lines(b));
}

} // verus!
