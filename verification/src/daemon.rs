use vstd::prelude::*;
use crate::config::{Config, ProgramConfig};
use crate::state::{initial_state, inserted, AppState, EntryView, ProcessTable};
use crate::supervise::{Phase, ProgramSupervisor};

verus! {

/// The table after registering `programs` in order, starting from `v`.
pub open spec fn registered(v: Seq<EntryView>, programs: Seq<ProgramConfig>) -> Seq<EntryView>
    decreases programs.len(),
{
    if programs.len() == 0 {
        v
    } else {
        let p = programs.last();
        inserted(registered(v, programs.drop_last()), p.name@, initial_state(p.autostart))
    }
}

/// The daemon's start: a record for every configured program (intent from
/// `autostart`, status `Stopped`) and an idle supervisor for each, in
/// configuration order.
pub fn start_daemon(config: Config, config_dir: String) -> (r: (AppState, Vec<ProgramSupervisor>))
    ensures
        crate::state::distinct_names(r.0.processes@),
        r.0.processes@ == registered(Seq::empty(), config.program@),
        r.0.config == config,
        r.0.config_dir == config_dir,
        r.1@.len() == config.program@.len(),
        forall|i: int| 0 <= i < r.1@.len() ==> {
            &&& (#[trigger] r.1@[i]).name@ == config.program@[i].name@
            &&& r.1@[i].autorestart == config.program@[i].autorestart
            &&& r.1@[i].phase == Phase::Idle
        },
{
    let mut table = ProcessTable::new();
    let mut supervisors: Vec<ProgramSupervisor> = Vec::new();
    let mut i: usize = 0;
    while i < config.program.len()
        invariant
            i <= config.program@.len(),
            crate::state::distinct_names(table@),
            table@ == registered(Seq::empty(), config.program@.take(i as int)),
            supervisors@.len() == i,
            forall|k: int| 0 <= k < i ==> {
                &&& (#[trigger] supervisors@[k]).name@ == config.program@[k].name@
                &&& supervisors@[k].autorestart == config.program@[k].autorestart
                &&& supervisors@[k].phase == Phase::Idle
            },
        decreases config.program@.len() - i,
    {
        let p = &config.program[i];
        proof {
            assert(config.program@.take(i + 1).drop_last() =~= config.program@.take(i as int));
            assert(config.program@.take(i + 1).last() == config.program@[i as int]);
        }
        table.register(crate::text::owned(p.name.as_str()), p.autostart);
        supervisors.push(ProgramSupervisor::new(crate::text::owned(p.name.as_str()), p.autorestart));
        i = i + 1;
    }
    proof {
        assert(config.program@.take(config.program@.len() as int) =~= config.program@);
    }
    let mut state = AppState::new(config, config_dir);
    state.processes = table;
    (state, supervisors)
}

} // verus!
