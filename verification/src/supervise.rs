use vstd::prelude::*;
use crate::state::{
    distinct_names, has_name, intent_or_stop, lookup, with_intent, with_status, EntryView, Intent,
    ProcessState, ProcessTable, Status,
};

verus! {

/// Where the supervision of one program stands.
#[derive(Clone, Copy, Debug, PartialEq, Eq, Structural)]
pub enum Phase {
    /// Not running; checking the intent every half second.
    Idle,
    /// A spawn was asked for and its outcome is awaited.
    Spawning,
    /// The child runs; its exit is awaited.
    Running,
    /// The spawn failed; waiting five seconds before going on.
    Backoff,
}

/// What the caller saw since the last step.
#[derive(Debug)]
pub enum Event {
    /// The asked-for sleep is over.
    Tick,
    /// The child was spawned, with its process id when the system gave one.
    Spawned(Option<u32>),
    /// The child could not be spawned, for this reason.
    SpawnFailed(String),
    /// The child exited, with its exit code when it had one.
    Exited(Option<i32>),
}

/// What the caller is to do next, then report back as an event.
#[derive(Clone, Copy, Debug, PartialEq, Eq, Structural)]
pub enum Action {
    /// Sleep this many milliseconds, then report `Tick`.
    Sleep(u64),
    /// Spawn the program, then report `Spawned` or `SpawnFailed`.
    Spawn,
    /// Wait for the child to exit, then report `Exited`.
    WaitForExit,
}

/// The exit code recorded for a child: its own, or -1 when it had none.
pub open spec fn exit_code(code: Option<i32>) -> i32 {
    match code {
        Some(c) => c,
        None => -1i32,
    }
}

/// The process id recorded for a child: its own, or 0 when the system gave
/// none.
pub open spec fn spawned_pid(pid: Option<u32>) -> u32 {
    match pid {
        Some(p) => p,
        None => 0u32,
    }
}

/// The pause between two looks at the intent.
pub open spec fn poll_ms() -> u64 {
    500
}

/// The pause after a failed spawn.
pub open spec fn backoff_ms() -> u64 {
    5000
}

/// After a run ends: a program without `autorestart` is marked to stay
/// stopped; otherwise the intent is left as the user set it.
pub open spec fn settle(v: Seq<EntryView>, name: Seq<char>, autorestart: bool) -> Seq<EntryView> {
    if autorestart {
        v
    } else {
        with_intent(v, name, Intent::Stop)
    }
}

/// One step of the supervision of the program `name`: from the phase, the
/// event and the table, the next phase, the action asked for and the table
/// after the step.  An event that the phase does not wait for changes
/// nothing and asks again for what the phase waits on.
pub open spec fn transition(
    name: Seq<char>,
    autorestart: bool,
    phase: Phase,
    event: Event,
    v: Seq<EntryView>,
) -> (Phase, Action, Seq<EntryView>) {
    match phase {
        Phase::Idle => match event {
            Event::Tick => if intent_or_stop(v, name) == Intent::Run {
                (Phase::Spawning, Action::Spawn, v)
            } else {
                (Phase::Idle, Action::Sleep(poll_ms()), v)
            },
            _ => (Phase::Idle, Action::Sleep(poll_ms()), v),
        },
        Phase::Spawning => match event {
            Event::Spawned(pid) => (
                Phase::Running,
                Action::WaitForExit,
                with_status(v, name, Status::Running(spawned_pid(pid))),
            ),
            Event::SpawnFailed(reason) => (
                Phase::Backoff,
                Action::Sleep(backoff_ms()),
                with_status(v, name, Status::Failed(reason)),
            ),
            _ => (Phase::Spawning, Action::Spawn, v),
        },
        Phase::Running => match event {
            Event::Exited(code) => (
                Phase::Idle,
                Action::Sleep(poll_ms()),
                settle(
                    with_status(v, name, Status::Exited(exit_code(code))),
                    name,
                    autorestart,
                ),
            ),
            _ => (Phase::Running, Action::WaitForExit, v),
        },
        Phase::Backoff => match event {
            Event::Tick => (Phase::Idle, Action::Sleep(poll_ms()), settle(v, name, autorestart)),
            _ => (Phase::Backoff, Action::Sleep(backoff_ms()), v),
        },
    }
}

/// The supervision of one program: it starts the program while the user
/// wants it running, records what happens to it, and decides after each
/// exit whether it is started again.
pub struct ProgramSupervisor {
    pub name: String,
    pub autorestart: bool,
    pub phase: Phase,
}

impl ProgramSupervisor {
    /// A supervisor that has not yet looked at the intent.
    pub fn new(name: String, autorestart: bool) -> (s: ProgramSupervisor)
        ensures
            s.name == name,
            s.autorestart == autorestart,
            s.phase == Phase::Idle,
    {
        ProgramSupervisor { name, autorestart, phase: Phase::Idle }
    }

    /// The first thing to do: look at the intent.
    pub fn first_action(&self) -> (a: Action)
        ensures
            a == Action::Sleep(0),
    {
        Action::Sleep(0)
    }

    /// Takes one event, updates the table and the phase, and returns what
    /// to do next (see `transition`).
    pub fn step(&mut self, table: &mut ProcessTable, event: Event) -> (action: Action)
        ensures
            crate::state::distinct_names(final(table)@),
            final(self).name == old(self).name,
            final(self).autorestart == old(self).autorestart,
            (final(self).phase, action, final(table)@) == transition(
                old(self).name@,
                old(self).autorestart,
                old(self).phase,
                event,
                old(table)@,
            ),
    {
        proof {
            use_type_invariant(&*table);
        }
        match self.phase {
            Phase::Idle => match event {
                Event::Tick => {
                    if table.intent_of(self.name.as_str()) == Intent::Run {
                        self.phase = Phase::Spawning;
                        Action::Spawn
                    } else {
                        Action::Sleep(500)
                    }
                },
                _ => Action::Sleep(500),
            },
            Phase::Spawning => match event {
                Event::Spawned(pid) => {
                    let pid = match pid {
                        Some(p) => p,
                        None => 0,
                    };
                    table.set_status(self.name.as_str(), Status::Running(pid));
                    self.phase = Phase::Running;
                    Action::WaitForExit
                },
                Event::SpawnFailed(reason) => {
                    table.set_status(self.name.as_str(), Status::Failed(reason));
                    self.phase = Phase::Backoff;
                    Action::Sleep(5000)
                },
                _ => Action::Spawn,
            },
            Phase::Running => match event {
                Event::Exited(code) => {
                    let code = match code {
                        Some(c) => c,
                        None => -1,
                    };
                    table.set_status(self.name.as_str(), Status::Exited(code));
                    if !self.autorestart {
                        table.set_intent(self.name.as_str(), Intent::Stop);
                    }
                    self.phase = Phase::Idle;
                    Action::Sleep(500)
                },
                _ => Action::WaitForExit,
            },
            Phase::Backoff => match event {
                Event::Tick => {
                    if !self.autorestart {
                        table.set_intent(self.name.as_str(), Intent::Stop);
                    }
                    self.phase = Phase::Idle;
                    Action::Sleep(500)
                },
                _ => Action::Sleep(5000),
            },
        }
    }
}

// ---------------------------------------------------------------------------
// Laws of supervision
// ---------------------------------------------------------------------------

pub proof fn lemma_with_intent_lookup(v: Seq<EntryView>, name: Seq<char>, other: Seq<char>, intent: Intent)
    requires
        distinct_names(v),
    ensures
        distinct_names(with_intent(v, name, intent)),
        has_name(with_intent(v, name, intent), other) == has_name(v, other),
        has_name(v, name) ==> lookup(with_intent(v, name, intent), name) == Some(
            ProcessState { intent: intent, status: lookup(v, name)->0.status },
        ),
        other != name ==> lookup(with_intent(v, name, intent), other) == lookup(v, other),
{
    let w = with_intent(v, name, intent);
    assert forall|i: int| 0 <= i < v.len() implies #[trigger] w[i].0 == v[i].0 by {}
    if has_name(w, other) {
        let i = choose|i: int| 0 <= i < w.len() && #[trigger] w[i].0 == other;
        assert(v[i].0 == other);
    }
    if has_name(v, other) {
        let i = choose|i: int| 0 <= i < v.len() && #[trigger] v[i].0 == other;
        assert(w[i].0 == other);
        let j = choose|j: int| 0 <= j < w.len() && #[trigger] w[j].0 == other;
        assert(v[j].0 == other);
    }
    if has_name(v, name) {
        let i = choose|i: int| 0 <= i < v.len() && #[trigger] v[i].0 == name;
        assert(w[i].0 == name);
        let j = choose|j: int| 0 <= j < w.len() && #[trigger] w[j].0 == name;
        assert(v[j].0 == name);
        assert(i == j);
    }
}

pub proof fn lemma_with_status_lookup(v: Seq<EntryView>, name: Seq<char>, other: Seq<char>, status: Status)
    requires
        distinct_names(v),
    ensures
        distinct_names(with_status(v, name, status)),
        has_name(with_status(v, name, status), other) == has_name(v, other),
        has_name(v, name) ==> lookup(with_status(v, name, status), name) == Some(
            ProcessState { intent: lookup(v, name)->0.intent, status: status },
        ),
        other != name ==> lookup(with_status(v, name, status), other) == lookup(v, other),
{
    let w = with_status(v, name, status);
    assert forall|i: int| 0 <= i < v.len() implies #[trigger] w[i].0 == v[i].0 by {}
    if has_name(w, other) {
        let i = choose|i: int| 0 <= i < w.len() && #[trigger] w[i].0 == other;
        assert(v[i].0 == other);
    }
    if has_name(v, other) {
        let i = choose|i: int| 0 <= i < v.len() && #[trigger] v[i].0 == other;
        assert(w[i].0 == other);
        let j = choose|j: int| 0 <= j < w.len() && #[trigger] w[j].0 == other;
        assert(v[j].0 == other);
    }
    if has_name(v, name) {
        let i = choose|i: int| 0 <= i < v.len() && #[trigger] v[i].0 == name;
        assert(w[i].0 == name);
        let j = choose|j: int| 0 <= j < w.len() && #[trigger] w[j].0 == name;
        assert(v[j].0 == name);
        assert(i == j);
    }
}

/// A program that the user wants stopped is never spawned: looking at its
/// intent changes nothing and only asks to look again later.
pub proof fn law_stop_intent_never_spawns(name: Seq<char>, autorestart: bool, v: Seq<EntryView>)
    requires
        intent_or_stop(v, name) == Intent::Stop,
    ensures
        transition(name, autorestart, Phase::Idle, Event::Tick, v) == (
            Phase::Idle,
            Action::Sleep(poll_ms()),
            v,
        ),
{
}

/// A program the user wants running is spawned at the next look.
pub proof fn law_run_intent_spawns(name: Seq<char>, autorestart: bool, v: Seq<EntryView>)
    requires
        intent_or_stop(v, name) == Intent::Run,
    ensures
        transition(name, autorestart, Phase::Idle, Event::Tick, v) == (Phase::Spawning, Action::Spawn, v),
{
}

/// A spawned child is recorded as running with its process id.
pub proof fn law_spawn_records_pid(name: Seq<char>, autorestart: bool, v: Seq<EntryView>, pid: u32)
    requires
        distinct_names(v),
        has_name(v, name),
    ensures
        ({
            let (phase, action, w) = transition(name, autorestart, Phase::Spawning, Event::Spawned(Some(pid)), v);
            &&& phase == Phase::Running
            &&& action == Action::WaitForExit
            &&& lookup(w, name) == Some(ProcessState { intent: lookup(v, name)->0.intent, status: Status::Running(pid) })
        }),
{
    lemma_with_status_lookup(v, name, name, Status::Running(pid));
}

/// With `autorestart`, a program that exits while the user still wants it
/// running is recorded as exited and spawned again at the next look.
pub proof fn law_exit_with_autorestart_restarts(name: Seq<char>, v: Seq<EntryView>, code: Option<i32>)
    requires
        distinct_names(v),
        intent_or_stop(v, name) == Intent::Run,
    ensures
        ({
            let (phase, action, w) = transition(name, true, Phase::Running, Event::Exited(code), v);
            &&& phase == Phase::Idle
            &&& action == Action::Sleep(poll_ms())
            &&& lookup(w, name) == Some(ProcessState {
                intent: Intent::Run,
                status: Status::Exited(exit_code(code)),
            })
            &&& transition(name, true, phase, Event::Tick, w) == (Phase::Spawning, Action::Spawn, w)
        }),
{
    let status = Status::Exited(exit_code(code));
    lemma_with_status_lookup(v, name, name, status);
}

/// Without `autorestart`, a program that exits is marked to stay stopped,
/// and so is not spawned again until the user starts it.
pub proof fn law_exit_without_autorestart_parks(name: Seq<char>, v: Seq<EntryView>, code: Option<i32>)
    requires
        distinct_names(v),
    ensures
        ({
            let (phase, action, w) = transition(name, false, Phase::Running, Event::Exited(code), v);
            &&& phase == Phase::Idle
            &&& action == Action::Sleep(poll_ms())
            &&& intent_or_stop(w, name) == Intent::Stop
            &&& transition(name, false, phase, Event::Tick, w) == (Phase::Idle, Action::Sleep(poll_ms()), w)
        }),
{
    let status = Status::Exited(exit_code(code));
    let u = with_status(v, name, status);
    lemma_with_status_lookup(v, name, name, status);
    lemma_with_intent_lookup(u, name, name, Intent::Stop);
}

/// A program that the user stopped is not restarted when it exits: its
/// intent stays `Stop` whatever `autorestart` says.
pub proof fn law_user_stop_not_restarted(name: Seq<char>, autorestart: bool, v: Seq<EntryView>, code: Option<i32>)
    requires
        distinct_names(v),
        intent_or_stop(v, name) == Intent::Stop,
    ensures
        ({
            let (phase, action, w) = transition(name, autorestart, Phase::Running, Event::Exited(code), v);
            &&& intent_or_stop(w, name) == Intent::Stop
            &&& transition(name, autorestart, phase, Event::Tick, w) == (Phase::Idle, Action::Sleep(poll_ms()), w)
        }),
{
    let status = Status::Exited(exit_code(code));
    let u = with_status(v, name, status);
    lemma_with_status_lookup(v, name, name, status);
    lemma_with_intent_lookup(u, name, name, Intent::Stop);
}

/// Whatever the intent and whatever `autorestart` says, a child that exits
/// while running is recorded as exited with its exit code (-1 when it had
/// none); the intent is kept, except that a program without `autorestart`
/// is marked to stay stopped.
pub proof fn law_exit_records_exit_status(
    name: Seq<char>,
    autorestart: bool,
    v: Seq<EntryView>,
    code: Option<i32>,
)
    requires
        distinct_names(v),
        has_name(v, name),
    ensures
        ({
            let (phase, action, w) = transition(name, autorestart, Phase::Running, Event::Exited(code), v);
            &&& phase == Phase::Idle
            &&& action == Action::Sleep(500)
            &&& lookup(w, name) == Some(ProcessState {
                intent: if autorestart { lookup(v, name)->0.intent } else { Intent::Stop },
                status: Status::Exited(
                    match code {
                        Some(c) => c,
                        None => -1i32,
                    },
                ),
            })
        }),
{
    let status = Status::Exited(exit_code(code));
    let u = with_status(v, name, status);
    lemma_with_status_lookup(v, name, name, status);
    lemma_with_intent_lookup(u, name, name, Intent::Stop);
}

/// A spawned child is recorded as running, with the process id the system
/// gave, or 0 when it gave none; the intent is kept.
pub proof fn law_spawn_records_running(name: Seq<char>, autorestart: bool, v: Seq<EntryView>, pid: Option<u32>)
    requires
        distinct_names(v),
        has_name(v, name),
    ensures
        lookup(transition(name, autorestart, Phase::Spawning, Event::Spawned(pid), v).2, name) == Some(
            ProcessState {
                intent: lookup(v, name)->0.intent,
                status: Status::Running(
                    match pid {
                        Some(p) => p,
                        None => 0u32,
                    },
                ),
            },
        ),
{
    lemma_with_status_lookup(v, name, name, Status::Running(spawned_pid(pid)));
}

/// A failed spawn is recorded with its reason and retried only after the
/// five-second pause (and only while the user wants the program running).
pub proof fn law_spawn_failure_backs_off(name: Seq<char>, autorestart: bool, v: Seq<EntryView>, reason: String)
    requires
        distinct_names(v),
        has_name(v, name),
    ensures
        ({
            let (phase, action, w) = transition(name, autorestart, Phase::Spawning, Event::SpawnFailed(reason), v);
            &&& phase == Phase::Backoff
            &&& action == Action::Sleep(backoff_ms())
            &&& lookup(w, name) == Some(ProcessState { intent: lookup(v, name)->0.intent, status: Status::Failed(reason) })
        }),
{
    lemma_with_status_lookup(v, name, name, Status::Failed(reason));
}

/// When the pause after a failed spawn ends, nothing is spawned at once:
/// the supervisor goes back to looking at the intent, the recorded failure
/// stays, and a program without `autorestart` is marked to stay stopped.
pub proof fn law_backoff_ends_in_idle(name: Seq<char>, autorestart: bool, v: Seq<EntryView>)
    requires
        distinct_names(v),
        has_name(v, name),
    ensures
        ({
            let (phase, action, w) = transition(name, autorestart, Phase::Backoff, Event::Tick, v);
            &&& phase == Phase::Idle
            &&& action == Action::Sleep(500)
            &&& lookup(w, name) == Some(ProcessState {
                intent: if autorestart { lookup(v, name)->0.intent } else { Intent::Stop },
                status: lookup(v, name)->0.status,
            })
        }),
{
    lemma_with_intent_lookup(v, name, name, Intent::Stop);
}

/// A step touches only the record of the program it supervises.
pub proof fn law_step_touches_only_its_program(
    name: Seq<char>,
    autorestart: bool,
    phase: Phase,
    event: Event,
    v: Seq<EntryView>,
    other: Seq<char>,
)
    requires
        distinct_names(v),
        other != name,
    ensures
        lookup(transition(name, autorestart, phase, event, v).2, other) == lookup(v, other),
        distinct_names(transition(name, autorestart, phase, event, v).2),
{
    match phase {
        Phase::Idle => {},
        Phase::Spawning => match event {
            Event::Spawned(pid) => {
                lemma_with_status_lookup(v, name, other, Status::Running(spawned_pid(pid)));
            },
            Event::SpawnFailed(reason) => {
                lemma_with_status_lookup(v, name, other, Status::Failed(reason));
            },
            _ => {},
        },
        Phase::Running => match event {
            Event::Exited(code) => {
                let status = Status::Exited(exit_code(code));
                lemma_with_status_lookup(v, name, other, status);
                lemma_with_intent_lookup(with_status(v, name, status), name, other, Intent::Stop);
            },
            _ => {},
        },
        Phase::Backoff => {
            lemma_with_intent_lookup(v, name, other, Intent::Stop);
        },
    }
}

} // verus!
