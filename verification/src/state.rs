use vstd::prelude::*;
use crate::config::Config;

verus! {

/// What the user wants a program to be doing.
#[derive(Clone, Copy, Debug, PartialEq, Eq, Structural)]
pub enum Intent {
    Run,
    Stop,
}

/// What a program is actually doing, as far as its supervisor knows.
#[derive(Clone, Debug)]
pub enum Status {
    Stopped,
    /// Running with this process id.
    Running(u32),
    /// Exited with this code (-1 when the code could not be had).
    Exited(i32),
    /// Could not be started, with the reason.
    Failed(String),
}

/// The supervisor's record of one program.
#[derive(Clone, Debug)]
pub struct ProcessState {
    pub intent: Intent,
    pub status: Status,
}

/// One row of the table's model: a program name and its record.
pub type EntryView = (Seq<char>, ProcessState);

/// The names of `v` are pairwise distinct.
pub open spec fn distinct_names(v: Seq<EntryView>) -> bool {
    forall|i: int, j: int| 0 <= i < v.len() && 0 <= j < v.len() && i != j ==> #[trigger] v[i].0 != #[trigger] v[j].0
}

/// Some row of `v` is named `name`.
pub open spec fn has_name(v: Seq<EntryView>, name: Seq<char>) -> bool {
    exists|i: int| 0 <= i < v.len() && #[trigger] v[i].0 == name
}

/// The record named `name` in `v`, if any.
pub open spec fn lookup(v: Seq<EntryView>, name: Seq<char>) -> Option<ProcessState> {
    if has_name(v, name) {
        let i = choose|i: int| 0 <= i < v.len() && #[trigger] v[i].0 == name;
        Some(v[i].1)
    } else {
        None
    }
}

/// The intent recorded for `name`; a program the table does not know is
/// treated as one that should stay stopped.
pub open spec fn intent_or_stop(v: Seq<EntryView>, name: Seq<char>) -> Intent {
    match lookup(v, name) {
        Some(ps) => ps.intent,
        None => Intent::Stop,
    }
}

/// `v` with the intent of the row named `name` replaced.
pub open spec fn with_intent(v: Seq<EntryView>, name: Seq<char>, intent: Intent) -> Seq<EntryView> {
    v.map_values(
        |e: EntryView|
            if e.0 == name {
                (e.0, ProcessState { intent: intent, status: e.1.status })
            } else {
                e
            },
    )
}

/// `v` with the status of the row named `name` replaced.
pub open spec fn with_status(v: Seq<EntryView>, name: Seq<char>, status: Status) -> Seq<EntryView> {
    v.map_values(
        |e: EntryView|
            if e.0 == name {
                (e.0, ProcessState { intent: e.1.intent, status: status })
            } else {
                e
            },
    )
}

/// `v` with every intent set to `Stop`.
pub open spec fn all_stopped(v: Seq<EntryView>) -> Seq<EntryView> {
    v.map_values(|e: EntryView| (e.0, ProcessState { intent: Intent::Stop, status: e.1.status }))
}

/// The process ids of the rows that are running, in row order.
pub open spec fn running_pids(v: Seq<EntryView>) -> Seq<u32>
    decreases v.len(),
{
    if v.len() == 0 {
        Seq::empty()
    } else {
        let rest = running_pids(v.drop_last());
        match v.last().1.status {
            Status::Running(pid) => rest.push(pid),
            _ => rest,
        }
    }
}

/// The record a program starts with when the daemon comes up.
pub open spec fn initial_state(autostart: bool) -> ProcessState {
    ProcessState { intent: if autostart { Intent::Run } else { Intent::Stop }, status: Status::Stopped }
}

/// `v` after recording `state` under `name`: the row is replaced where the
/// name is known, and appended otherwise.
pub open spec fn inserted(v: Seq<EntryView>, name: Seq<char>, state: ProcessState) -> Seq<EntryView> {
    if has_name(v, name) {
        v.map_values(|e: EntryView| if e.0 == name { (e.0, state) } else { e })
    } else {
        v.push((name, state))
    }
}

pub proof fn lemma_lookup_at(v: Seq<EntryView>, i: int)
    requires
        distinct_names(v),
        0 <= i < v.len(),
    ensures
        has_name(v, v[i].0),
        lookup(v, v[i].0) == Some(v[i].1),
{
    assert(has_name(v, v[i].0));
}

/// The rows behind a `ProcessTable`, without its invariant.
struct Rows {
    entries: Vec<(String, ProcessState)>,
}

impl View for Rows {
    type V = Seq<EntryView>;

    closed spec fn view(&self) -> Seq<EntryView> {
        self.entries@.map_values(|e: (String, ProcessState)| (e.0@, e.1))
    }
}

impl Rows {
    /// No two records share a name.
    spec fn wf(&self) -> bool {
        distinct_names(self@)
    }

    /// An empty table.
    fn new() -> (t: Rows)
        ensures
            t.wf(),
            t@ == Seq::<EntryView>::empty(),
    {
        let t = Rows { entries: Vec::new() };
        assert(t@ =~= Seq::<EntryView>::empty());
        t
    }

    /// The number of programs.
    fn len(&self) -> (n: usize)
        ensures
            n == self@.len(),
    {
        self.entries.len()
    }

    /// The name in row `i`.
    fn name_at(&self, i: usize) -> (name: &String)
        requires
            i < self@.len(),
        ensures
            name@ == self@[i as int].0,
    {
        &self.entries[i].0
    }

    /// The record in row `i`.
    fn state_at(&self, i: usize) -> (ps: &ProcessState)
        requires
            i < self@.len(),
        ensures
            *ps == self@[i as int].1,
    {
        &self.entries[i].1
    }

    /// The row named `name`.
    fn find(&self, name: &str) -> (r: Option<usize>)
        ensures
            match r {
                Some(i) => i < self@.len() && self@[i as int].0 == name@,
                None => !has_name(self@, name@),
            },
    {
        let mut i: usize = 0;
        while i < self.entries.len()
            invariant
                i <= self.entries.len(),
                forall|k: int| 0 <= k < i ==> self@[k].0 != name@,
            decreases self.entries.len() - i,
        {
            if crate::text::text_eq(self.entries[i].0.as_str(), name) {
                return Some(i);
            }
            i = i + 1;
        }
        None
    }

    /// The record named `name`.
    fn get(&self, name: &str) -> (r: Option<&ProcessState>)
        requires
            self.wf(),
        ensures
            match r {
                Some(ps) => lookup(self@, name@) == Some(*ps),
                None => lookup(self@, name@) is None,
            },
    {
        match self.find(name) {
            Some(i) => {
                proof {
                    lemma_lookup_at(self@, i as int);
                }
                Some(&self.entries[i].1)
            },
            None => None,
        }
    }

    /// The intent recorded for `name`, or `Stop` for a name the table does
    /// not know.
    fn intent_of(&self, name: &str) -> (intent: Intent)
        requires
            self.wf(),
        ensures
            intent == intent_or_stop(self@, name@),
    {
        match self.get(name) {
            Some(ps) => ps.intent,
            None => Intent::Stop,
        }
    }

    /// Records `state` under `name`, replacing the record of a known name
    /// (`HashMap::insert`).
    fn insert(&mut self, name: String, state: ProcessState)
        requires
            old(self).wf(),
        ensures
            final(self).wf(),
            final(self)@ == inserted(old(self)@, name@, state),
    {
        let ghost v = self@;
        match self.find(name.as_str()) {
            Some(i) => {
                let mut e = self.entries.remove(i);
                e.1 = state;
                self.entries.insert(i, e);
                proof {
                    let w = inserted(v, name@, state);
                    assert forall|k: int| 0 <= k < v.len() implies #[trigger] self@[k] == w[k] by {
                        if k != i {
                            assert(v[k].0 != name@);
                        }
                    }
                    assert(self@ =~= w);
                }
            },
            None => {
                self.entries.push((name, state));
                assert(self@ =~= v.push((name@, state)));
            },
        }
    }

    /// Records a program for the daemon's start: its intent follows
    /// `autostart`, its status is `Stopped`.
    fn register(&mut self, name: String, autostart: bool)
        requires
            old(self).wf(),
        ensures
            final(self).wf(),
            final(self)@ == inserted(old(self)@, name@, initial_state(autostart)),
    {
        let intent = if autostart {
            Intent::Run
        } else {
            Intent::Stop
        };
        self.insert(name, ProcessState { intent, status: Status::Stopped });
    }

    /// Sets the intent of the program named `name`; `false` when there is
    /// no such program, and then nothing changes.
    fn set_intent(&mut self, name: &str, intent: Intent) -> (found: bool)
        requires
            old(self).wf(),
        ensures
            final(self).wf(),
            found == has_name(old(self)@, name@),
            final(self)@ == with_intent(old(self)@, name@, intent),
    {
        let ghost v = self@;
        match self.find(name) {
            Some(i) => {
                let mut e = self.entries.remove(i);
                e.1.intent = intent;
                self.entries.insert(i, e);
                proof {
                    let w = with_intent(v, name@, intent);
                    assert forall|k: int| 0 <= k < v.len() implies #[trigger] self@[k] == w[k] by {
                        if k != i {
                            assert(v[k].0 != name@);
                        }
                    }
                    assert(self@ =~= w);
                }
                true
            },
            None => {
                assert(self@ =~= with_intent(v, name@, intent));
                false
            },
        }
    }

    /// Sets the status of the program named `name`; `false` when there is
    /// no such program, and then nothing changes.
    fn set_status(&mut self, name: &str, status: Status) -> (found: bool)
        requires
            old(self).wf(),
        ensures
            final(self).wf(),
            found == has_name(old(self)@, name@),
            final(self)@ == with_status(old(self)@, name@, status),
    {
        let ghost v = self@;
        match self.find(name) {
            Some(i) => {
                let mut e = self.entries.remove(i);
                e.1.status = status;
                self.entries.insert(i, e);
                proof {
                    let w = with_status(v, name@, status);
                    assert forall|k: int| 0 <= k < v.len() implies #[trigger] self@[k] == w[k] by {
                        if k != i {
                            assert(v[k].0 != name@);
                        }
                    }
                    assert(self@ =~= w);
                }
                true
            },
            None => {
                assert(self@ =~= with_status(v, name@, status));
                false
            },
        }
    }

    /// Marks every program to stay stopped and returns the process ids of
    /// those that are running, in table order: what the daemon signals when
    /// it shuts down.
    fn stop_all(&mut self) -> (pids: Vec<u32>)
        requires
            old(self).wf(),
        ensures
            final(self).wf(),
            final(self)@ == all_stopped(old(self)@),
            pids@ == running_pids(old(self)@),
    {
        let ghost v = self@;
        let mut pids: Vec<u32> = Vec::new();
        let mut i: usize = 0;
        while i < self.entries.len()
            invariant
                v.len() == self@.len(),
                distinct_names(v),
                i <= self@.len(),
                forall|k: int| 0 <= k < i ==> #[trigger] self@[k] == all_stopped(v)[k],
                forall|k: int| i <= k < v.len() ==> #[trigger] self@[k] == v[k],
                pids@ == running_pids(v.take(i as int)),
            decreases self@.len() - i,
        {
            let ghost old_entries = self.entries@;
            let ghost old_view = self@;
            assert(self@[i as int] == v[i as int]);
            let mut e = self.entries.remove(i);
            match e.1.status {
                Status::Running(pid) => pids.push(pid),
                _ => {},
            }
            e.1.intent = Intent::Stop;
            self.entries.insert(i, e);
            proof {
                assert(self.entries@ =~= old_entries.update(i as int, e));
                assert(self@[i as int] == all_stopped(v)[i as int]);
                assert forall|k: int| 0 <= k < v.len() && k != i implies #[trigger] self@[k] == old_view[k] by {
                    assert(self.entries@[k] == old_entries[k]);
                }
                assert(v.take(i + 1).drop_last() =~= v.take(i as int));
                assert(v.take(i + 1).last() == v[i as int]);
            }
            i = i + 1;
        }
        proof {
            assert(v.take(v.len() as int) =~= v);
            assert(self@ =~= all_stopped(v));
            // names are unchanged, so they stay distinct
            assert forall|a: int, b: int| 0 <= a < self@.len() && 0 <= b < self@.len() && a != b implies
                #[trigger] self@[a].0 != #[trigger] self@[b].0 by {
                assert(self@[a].0 == v[a].0 && self@[b].0 == v[b].0);
            }
        }
        pids
    }
}

/// The supervisor's records of all programs, one per name, in the order in
/// which they were registered.
pub struct ProcessTable {
    rows: Rows,
}

impl View for ProcessTable {
    type V = Seq<EntryView>;

    closed spec fn view(&self) -> Seq<EntryView> {
        self.rows@
    }
}

impl ProcessTable {
    /// No two records share a name; every table keeps this.
    #[verifier::type_invariant]
    pub open spec fn wf(&self) -> bool {
        distinct_names(self@)
    }

    /// An empty table.
    pub fn new() -> (t: ProcessTable)
        ensures
            distinct_names(t@),
            t@ == Seq::<EntryView>::empty(),
    {
        ProcessTable { rows: Rows::new() }
    }

    /// The number of programs; the names of a table are always distinct.
    pub fn len(&self) -> (n: usize)
        ensures
            n == self@.len(),
            distinct_names(self@),
    {
        proof {
            use_type_invariant(self);
        }
        self.rows.len()
    }

    /// The name in row `i`.
    pub fn name_at(&self, i: usize) -> (name: &String)
        requires
            i < self@.len(),
        ensures
            name@ == self@[i as int].0,
    {
        self.rows.name_at(i)
    }

    /// The record in row `i`.
    pub fn state_at(&self, i: usize) -> (ps: &ProcessState)
        requires
            i < self@.len(),
        ensures
            *ps == self@[i as int].1,
    {
        self.rows.state_at(i)
    }

    /// The row named `name`.
    pub fn find(&self, name: &str) -> (r: Option<usize>)
        ensures
            match r {
                Some(i) => i < self@.len() && self@[i as int].0 == name@,
                None => !has_name(self@, name@),
            },
    {
        self.rows.find(name)
    }

    /// The record named `name`.
    pub fn get(&self, name: &str) -> (r: Option<&ProcessState>)
        ensures
            match r {
                Some(ps) => lookup(self@, name@) == Some(*ps),
                None => lookup(self@, name@) is None,
            },
    {
        proof {
            use_type_invariant(self);
        }
        self.rows.get(name)
    }

    /// The intent recorded for `name`, or `Stop` for a name the table does
    /// not know.
    pub fn intent_of(&self, name: &str) -> (intent: Intent)
        ensures
            intent == intent_or_stop(self@, name@),
    {
        proof {
            use_type_invariant(self);
        }
        self.rows.intent_of(name)
    }

    /// Records `state` under `name`, replacing the record of a known name
    /// (`HashMap::insert`).
    pub fn insert(&mut self, name: String, state: ProcessState)
        ensures
            distinct_names(final(self)@),
            final(self)@ == inserted(old(self)@, name@, state),
    {
        proof {
            use_type_invariant(&*self);
        }
        let mut rows = Rows::new();
        std::mem::swap(&mut rows, &mut self.rows);
        rows.insert(name, state);
        self.rows = rows;
    }

    /// Records a program for the daemon's start: its intent follows
    /// `autostart`, its status is `Stopped`.
    pub fn register(&mut self, name: String, autostart: bool)
        ensures
            distinct_names(final(self)@),
            final(self)@ == inserted(old(self)@, name@, initial_state(autostart)),
    {
        proof {
            use_type_invariant(&*self);
        }
        let mut rows = Rows::new();
        std::mem::swap(&mut rows, &mut self.rows);
        rows.register(name, autostart);
        self.rows = rows;
    }

    /// Sets the intent of the program named `name`; `false` when there is
    /// no such program, and then nothing changes.
    pub fn set_intent(&mut self, name: &str, intent: Intent) -> (found: bool)
        ensures
            distinct_names(final(self)@),
            found == has_name(old(self)@, name@),
            final(self)@ == with_intent(old(self)@, name@, intent),
    {
        proof {
            use_type_invariant(&*self);
        }
        let mut rows = Rows::new();
        std::mem::swap(&mut rows, &mut self.rows);
        let found = rows.set_intent(name, intent);
        self.rows = rows;
        found
    }

    /// Sets the status of the program named `name`; `false` when there is
    /// no such program, and then nothing changes.
    pub fn set_status(&mut self, name: &str, status: Status) -> (found: bool)
        ensures
            distinct_names(final(self)@),
            found == has_name(old(self)@, name@),
            final(self)@ == with_status(old(self)@, name@, status),
    {
        proof {
            use_type_invariant(&*self);
        }
        let mut rows = Rows::new();
        std::mem::swap(&mut rows, &mut self.rows);
        let found = rows.set_status(name, status);
        self.rows = rows;
        found
    }

    /// Marks every program to stay stopped and returns the process ids of
    /// those that are running, in table order: what the daemon signals when
    /// it shuts down.
    pub fn stop_all(&mut self) -> (pids: Vec<u32>)
        ensures
            distinct_names(final(self)@),
            final(self)@ == all_stopped(old(self)@),
            pids@ == running_pids(old(self)@),
    {
        proof {
            use_type_invariant(&*self);
        }
        let mut rows = Rows::new();
        std::mem::swap(&mut rows, &mut self.rows);
        let pids = rows.stop_all();
        self.rows = rows;
        pids
    }
}

/// The daemon's shared state: the records of all programs and the
/// configuration they were started from.
pub struct AppState {
    pub processes: ProcessTable,
    pub config: Config,
    pub config_dir: String,
}

impl AppState {
    /// A state with no program records yet.
    pub fn new(config: Config, config_dir: String) -> (s: AppState)
        ensures
            s.processes@ == Seq::<EntryView>::empty(),
            s.config == config,
            s.config_dir == config_dir,
    {
        AppState { processes: ProcessTable::new(), config, config_dir }
    }
}

} // verus!
