use vstd::prelude::*;
use crate::config::{first_program, Config, ProgramConfig};
use crate::state::{has_name, lookup, with_intent, EntryView, Intent, ProcessState, ProcessTable, Status};
use crate::text::{decimal, signed_decimal};

verus! {

/// The dashboard's answer to an action.
#[derive(Clone, Debug)]
pub struct ActionResponse {
    pub success: bool,
    pub error: Option<String>,
}

/// The model of an action answer.
pub open spec fn action_view(r: ActionResponse) -> (bool, Option<Seq<char>>) {
    (r.success, match r.error { Some(e) => Some(e@), None => None })
}

/// What the dashboard does with an action: answer at once, or first
/// signal this process and then answer with `web_stop_reply`.
#[derive(Debug)]
pub enum WebOutcome {
    Reply(ActionResponse),
    Terminate(u32),
}

/// Applies a dashboard action (`start` or `stop`) to `target`.  An unknown
/// target is refused first, then an unknown action; neither changes the
/// table.  A `stop` of a running program asks for its process to be
/// signalled.
pub fn web_action(table: &mut ProcessTable, action: &str, target: &str) -> (out: WebOutcome)
    requires
        old(table).wf(),
    ensures
        crate::state::distinct_names(final(table)@),
        !has_name(old(table)@, target@) ==> {
            &&& final(table)@ == old(table)@
            &&& out matches WebOutcome::Reply(r)
            &&& action_view(r) == (false, Some("Process not found"@))
        },
        has_name(old(table)@, target@) && action@ == "start"@ ==> {
            &&& final(table)@ == with_intent(old(table)@, target@, Intent::Run)
            &&& out matches WebOutcome::Reply(r)
            &&& action_view(r) == (true, None::<Seq<char>>)
        },
        has_name(old(table)@, target@) && action@ == "stop"@ ==> {
            &&& final(table)@ == with_intent(old(table)@, target@, Intent::Stop)
            &&& match lookup(old(table)@, target@)->0.status {
                Status::Running(pid) => out == WebOutcome::Terminate(pid),
                _ => out matches WebOutcome::Reply(r) && action_view(r) == (true, None::<Seq<char>>),
            }
        },
        has_name(old(table)@, target@) && action@ != "start"@ && action@ != "stop"@ ==> {
            &&& final(table)@ == old(table)@
            &&& out matches WebOutcome::Reply(r)
            &&& action_view(r) == (false, Some("Unknown action"@))
        },
{
    proof {
        use_type_invariant(&*table);
    }
    let pid = match table.get(target) {
        None => {
            return WebOutcome::Reply(
                ActionResponse { success: false, error: Some(crate::text::owned("Process not found")) },
            );
        },
        Some(ps) => match ps.status {
            Status::Running(pid) => Some(pid),
            _ => None,
        },
    };
    proof {
        reveal_strlit("start");
        reveal_strlit("stop");
        assert("start"@[2] != "stop"@[2]);
        assert("start"@ != "stop"@);
    }
    if crate::text::text_eq(action, "start") {
        table.set_intent(target, Intent::Run);
        WebOutcome::Reply(ActionResponse { success: true, error: None })
    } else if crate::text::text_eq(action, "stop") {
        table.set_intent(target, Intent::Stop);
        match pid {
            Some(pid) => WebOutcome::Terminate(pid),
            None => WebOutcome::Reply(ActionResponse { success: true, error: None }),
        }
    } else {
        WebOutcome::Reply(
            ActionResponse { success: false, error: Some(crate::text::owned("Unknown action")) },
        )
    }
}

/// The answer to a `stop` after its process was signalled.
pub fn web_stop_reply(signalled: Result<(), String>) -> (r: ActionResponse)
    ensures
        match signalled {
            Ok(()) => action_view(r) == (true, None::<Seq<char>>),
            Err(e) => action_view(r) == (false, Some("Failed to stop process: "@ + e@)),
        },
{
    match signalled {
        Ok(()) => ActionResponse { success: true, error: None },
        Err(e) => ActionResponse {
            success: false,
            error: Some(crate::text::concat("Failed to stop process: ", e.as_str())),
        },
    }
}

/// One row of the dashboard's status list.
#[derive(Clone, Debug)]
pub struct ProcessStatusRow {
    pub name: String,
    pub status: String,
    pub intent: String,
    /// The process whose memory use the row shows, when it runs.
    pub mem_pid: Option<u32>,
    pub command: String,
    pub directory: Option<String>,
    pub autostart: bool,
    pub autorestart: bool,
}

/// The model of a status row.
pub struct RowView {
    pub name: Seq<char>,
    pub status: Seq<char>,
    pub intent: Seq<char>,
    pub mem_pid: Option<u32>,
    pub command: Seq<char>,
    pub directory: Option<Seq<char>>,
    pub autostart: bool,
    pub autorestart: bool,
}

pub open spec fn opt_view(o: Option<String>) -> Option<Seq<char>> {
    match o {
        Some(s) => Some(s@),
        None => None,
    }
}

pub open spec fn row_view(r: ProcessStatusRow) -> RowView {
    RowView {
        name: r.name@,
        status: r.status@,
        intent: r.intent@,
        mem_pid: r.mem_pid,
        command: r.command@,
        directory: opt_view(r.directory),
        autostart: r.autostart,
        autorestart: r.autorestart,
    }
}

/// The dashboard's text for a status.
pub open spec fn web_status_word(s: Status) -> Seq<char> {
    match s {
        Status::Stopped => "Stopped"@,
        Status::Running(pid) => "Running (pid "@ + decimal(pid as nat) + ")"@,
        Status::Exited(code) => "Exited (code "@ + signed_decimal(code as int) + ")"@,
        Status::Failed(reason) => "Failed: "@ + reason@,
    }
}

/// The dashboard's text for an intent.
pub open spec fn web_intent_word(i: Intent) -> Seq<char> {
    match i {
        Intent::Run => "Run"@,
        Intent::Stop => "Stop"@,
    }
}

/// The row the dashboard shows for the record `e`, with the settings of the
/// first program of that name (empty settings when there is none).
pub open spec fn expected_row(e: EntryView, programs: Seq<ProgramConfig>) -> RowView {
    let p = first_program(programs, e.0);
    RowView {
        name: e.0,
        status: web_status_word(e.1.status),
        intent: web_intent_word(e.1.intent),
        mem_pid: match e.1.status {
            Status::Running(pid) => Some(pid),
            _ => None,
        },
        command: match p {
            Some(i) => programs[i].command@,
            None => Seq::empty(),
        },
        directory: match p {
            Some(i) => opt_view(programs[i].directory),
            None => None,
        },
        autostart: match p {
            Some(i) => programs[i].autostart,
            None => false,
        },
        autorestart: match p {
            Some(i) => programs[i].autorestart,
            None => false,
        },
    }
}

fn web_status_text(s: &Status) -> (t: String)
    ensures
        t@ == web_status_word(*s),
{
    match s {
        Status::Stopped => crate::text::owned("Stopped"),
        Status::Running(pid) => {
            let mut t = crate::text::owned("Running (pid ");
            let n = crate::text::decimal_u64(*pid as u64);
            crate::text::append_str(&mut t, n.as_str());
            crate::text::append_str(&mut t, ")");
            t
        },
        Status::Exited(code) => {
            let mut t = crate::text::owned("Exited (code ");
            let n = crate::text::decimal_i64(*code as i64);
            crate::text::append_str(&mut t, n.as_str());
            crate::text::append_str(&mut t, ")");
            t
        },
        Status::Failed(reason) => crate::text::concat("Failed: ", reason.as_str()),
    }
}

fn copy_opt(o: &Option<String>) -> (r: Option<String>)
    ensures
        opt_view(r) == opt_view(*o),
{
    match o {
        Some(s) => Some(crate::text::owned(s.as_str())),
        None => None,
    }
}

fn status_row(name: &String, ps: &ProcessState, config: &Config) -> (row: ProcessStatusRow)
    ensures
        row_view(row) == expected_row((name@, *ps), config.program@),
{
    let status = web_status_text(&ps.status);
    let intent = match ps.intent {
        Intent::Run => crate::text::owned("Run"),
        Intent::Stop => crate::text::owned("Stop"),
    };
    let mem_pid = match ps.status {
        Status::Running(pid) => Some(pid),
        _ => None,
    };
    let ghost programs = config.program@;
    match config.find_program(name.as_str()) {
        Some(i) => {
            proof {
                assert(exists|j: int| 0 <= j < programs.len() && #[trigger] programs[j].name@ == name@);
                let c = choose|j: int| 0 <= j < programs.len() && #[trigger] programs[j].name@ == name@ && forall|k: int| 0 <= k < j ==> #[trigger] programs[k].name@ != name@;
                assert(0 <= c < programs.len() && programs[c].name@ == name@ && forall|k: int| 0 <= k < c ==> #[trigger] programs[k].name@ != name@);
                if c < i {
                    assert(programs[c].name@ != name@);
                } else if c > i {
                    assert(programs[i as int].name@ != name@);
                }
                assert(first_program(programs, name@) == Some(i as int));
            }
            let p = &config.program[i];
            ProcessStatusRow {
                name: crate::text::owned(name.as_str()),
                status,
                intent,
                mem_pid,
                command: crate::text::owned(p.command.as_str()),
                directory: copy_opt(&p.directory),
                autostart: p.autostart,
                autorestart: p.autorestart,
            }
        },
        None => ProcessStatusRow {
            name: crate::text::owned(name.as_str()),
            status,
            intent,
            mem_pid,
            command: String::new(),
            directory: None,
            autostart: false,
            autorestart: false,
        },
    }
}

/// The row model of each name-and-row pair.
pub open spec fn pair_row(p: (String, ProcessStatusRow)) -> RowView {
    row_view(p.1)
}

/// The dashboard's status list: one row per program, ordered by name.
pub fn web_status(table: &ProcessTable, config: &Config) -> (rows: Vec<ProcessStatusRow>)
    ensures
        rows@.len() == table@.len(),
        forall|i: int, j: int| 0 <= i < j < rows@.len() ==> crate::text::lex_le(#[trigger] rows@[i].name@, #[trigger] rows@[j].name@),
        rows@.map_values(|r: ProcessStatusRow| row_view(r)).to_multiset() == table@.map_values(
            |e: EntryView| expected_row(e, config.program@),
        ).to_multiset(),
{
    let ghost expected = table@.map_values(|e: EntryView| expected_row(e, config.program@));
    let mut items: Vec<(String, ProcessStatusRow)> = Vec::new();
    let mut i: usize = 0;
    while i < table.len()
        invariant
            i <= table@.len(),
            expected == table@.map_values(|e: EntryView| expected_row(e, config.program@)),
            items@.map_values(|p: (String, ProcessStatusRow)| pair_row(p)) == expected.take(i as int),
            forall|k: int| 0 <= k < items@.len() ==> #[trigger] items@[k].0@ == items@[k].1.name@,
        decreases table@.len() - i,
    {
        let row = status_row(table.name_at(i), table.state_at(i), config);
        let key = crate::text::owned(row.name.as_str());
        let ghost old_items = items@;
        items.push((key, row));
        proof {
            assert(items@.map_values(|p: (String, ProcessStatusRow)| pair_row(p)) =~= old_items.map_values(|p: (String, ProcessStatusRow)| pair_row(p)).push(expected[i as int]));
            assert(expected.take(i + 1) =~= expected.take(i as int).push(expected[i as int]));
        }
        i = i + 1;
    }
    proof {
        assert(expected.take(table@.len() as int) =~= expected);
    }
    let ghost unsorted = items@;
    let sorted = crate::sorting::sort_by_name(items);
    proof {
        crate::sorting::lemma_multiset_map(sorted@, unsorted, |p: (String, ProcessStatusRow)| pair_row(p));
    }
    let ghost sorted_view = sorted@;
    let mut rows: Vec<ProcessStatusRow> = Vec::new();
    let mut rest = sorted;
    let ghost mut taken: Seq<(String, ProcessStatusRow)> = Seq::empty();
    while rest.len() > 0
        invariant
            taken + rest@ == sorted_view,
            rows@ == taken.map_values(|p: (String, ProcessStatusRow)| p.1),
        decreases rest.len(),
    {
        let ghost old_rest = rest@;
        let item = rest.remove(0);
        proof {
            assert(taken.push(item) + rest@ =~= taken + old_rest);
            taken = taken.push(item);
        }
        rows.push(item.1);
        assert(rows@ =~= taken.map_values(|p: (String, ProcessStatusRow)| p.1));
    }
    proof {
        assert(taken =~= sorted_view);
        assert(rows@.map_values(|r: ProcessStatusRow| row_view(r)) =~= sorted_view.map_values(|p: (String, ProcessStatusRow)| pair_row(p)));
        assert forall|a: int, b: int| 0 <= a < b < rows@.len() implies crate::text::lex_le(#[trigger] rows@[a].name@, #[trigger] rows@[b].name@) by {
            crate::sorting::lemma_multiset_member(sorted_view, unsorted, a);
            crate::sorting::lemma_multiset_member(sorted_view, unsorted, b);
            assert(crate::text::lex_le(sorted_view[a].0@, sorted_view[b].0@));
        }
    }
    rows
}

} // verus!
