use vstd::prelude::*;
use crate::state::{
    has_name, lookup, with_intent, EntryView, Intent, ProcessState, ProcessTable, Status,
};
use crate::text::{decimal, signed_decimal};

verus! {

/// A request from the command-line client to the daemon.
#[derive(Clone, Debug)]
pub enum IpcRequest {
    Status,
    Start { target: String },
    Stop { target: String },
}

/// The daemon's answer: the status of every program (name and status
/// text), a plain acknowledgement, or an error message.
#[derive(Clone, Debug)]
pub enum IpcResponse {
    StatusData(Vec<(String, String)>),
    Ack,
    Error(String),
}

/// The status text of a program's status.
pub open spec fn status_word(s: Status) -> Seq<char> {
    match s {
        Status::Stopped => "STOPPED"@,
        Status::Running(pid) => "RUNNING (pid "@ + decimal(pid as nat) + ")"@,
        Status::Exited(code) => "EXITED (code "@ + signed_decimal(code as int) + ")"@,
        Status::Failed(reason) => "FAILED ("@ + reason@ + ")"@,
    }
}

/// The status text of a program's intent.
pub open spec fn intent_word(i: Intent) -> Seq<char> {
    match i {
        Intent::Run => "intended: RUN"@,
        Intent::Stop => "intended: STOP"@,
    }
}

/// One line of the status report: `STATUS [intended: INTENT]`.
pub open spec fn status_text(ps: ProcessState) -> Seq<char> {
    status_word(ps.status) + " ["@ + intent_word(ps.intent) + "]"@
}

/// The status report row for `e`.
pub open spec fn report_row(e: EntryView) -> (Seq<char>, Seq<char>) {
    (e.0, status_text(e.1))
}

/// The view of a report: each row's name and text.
pub open spec fn report_view(rows: Seq<(String, String)>) -> Seq<(Seq<char>, Seq<char>)> {
    rows.map_values(|r: (String, String)| (r.0@, r.1@))
}

/// The status text of `ps` (see `status_text`).
pub fn format_status(ps: &ProcessState) -> (s: String)
    ensures
        s@ == status_text(*ps),
{
    let mut s = match &ps.status {
        Status::Stopped => crate::text::owned("STOPPED"),
        Status::Running(pid) => {
            let mut t = crate::text::owned("RUNNING (pid ");
            let n = crate::text::decimal_u64(*pid as u64);
            crate::text::append_str(&mut t, n.as_str());
            crate::text::append_str(&mut t, ")");
            t
        },
        Status::Exited(code) => {
            let mut t = crate::text::owned("EXITED (code ");
            let n = crate::text::decimal_i64(*code as i64);
            crate::text::append_str(&mut t, n.as_str());
            crate::text::append_str(&mut t, ")");
            t
        },
        Status::Failed(reason) => {
            let mut t = crate::text::owned("FAILED (");
            crate::text::append_str(&mut t, reason.as_str());
            crate::text::append_str(&mut t, ")");
            t
        },
    };
    crate::text::append_str(&mut s, " [");
    match ps.intent {
        Intent::Run => crate::text::append_str(&mut s, "intended: RUN"),
        Intent::Stop => crate::text::append_str(&mut s, "intended: STOP"),
    }
    crate::text::append_str(&mut s, "]");
    s
}

/// The status report: one row per program, in table order.
pub fn status_report(table: &ProcessTable) -> (rows: Vec<(String, String)>)
    ensures
        report_view(rows@) == table@.map_values(|e: EntryView| report_row(e)),
{
    let mut rows: Vec<(String, String)> = Vec::new();
    let mut i: usize = 0;
    while i < table.len()
        invariant
            i <= table@.len(),
            report_view(rows@) == table@.take(i as int).map_values(|e: EntryView| report_row(e)),
        decreases table@.len() - i,
    {
        let name = table.name_at(i).clone();
        let text = format_status(table.state_at(i));
        let ghost old_rows = rows@;
        proof {
            assert(name@ == table@[i as int].0);
            assert(text@ == status_text(table@[i as int].1));
        }
        rows.push((name, text));
        assert(report_view(rows@) =~= report_view(old_rows).push(report_row(table@[i as int])));
        assert(table@.take(i + 1) =~= table@.take(i as int).push(table@[i as int]));
        assert(report_view(rows@) =~= table@.take(i + 1).map_values(|e: EntryView| report_row(e)));
        i = i + 1;
    }
    assert(table@.take(table@.len() as int) =~= table@);
    rows
}

/// What the daemon does with a request: answer at once, or first signal
/// this process (the target of a `Stop` that is running) and then answer
/// with `stop_reply`.
#[derive(Debug)]
pub enum RequestOutcome {
    Reply(IpcResponse),
    Terminate(u32),
}

/// The message of a request for a program the daemon does not know.
pub open spec fn not_found_text() -> Seq<char> {
    "Process not found"@
}

/// Applies a request to the table.  `Status` reports every program;
/// `Start` and `Stop` set the target's intent, or answer that it is not
/// found and change nothing; a `Stop` of a running program asks for its
/// process to be signalled.
pub fn process_request(table: &mut ProcessTable, request: IpcRequest) -> (out: RequestOutcome)
    requires
        old(table).wf(),
    ensures
        crate::state::distinct_names(final(table)@),
        match request {
            IpcRequest::Status => {
                &&& final(table)@ == old(table)@
                &&& out matches RequestOutcome::Reply(IpcResponse::StatusData(rows))
                &&& report_view(rows@) == old(table)@.map_values(|e: EntryView| report_row(e))
            },
            IpcRequest::Start { target } => if has_name(old(table)@, target@) {
                &&& final(table)@ == with_intent(old(table)@, target@, Intent::Run)
                &&& out matches RequestOutcome::Reply(IpcResponse::Ack)
            } else {
                &&& final(table)@ == old(table)@
                &&& out matches RequestOutcome::Reply(IpcResponse::Error(m))
                &&& m@ == not_found_text()
            },
            IpcRequest::Stop { target } => if has_name(old(table)@, target@) {
                &&& final(table)@ == with_intent(old(table)@, target@, Intent::Stop)
                &&& match lookup(old(table)@, target@)->0.status {
                    Status::Running(pid) => out == RequestOutcome::Terminate(pid),
                    _ => out matches RequestOutcome::Reply(IpcResponse::Ack),
                }
            } else {
                &&& final(table)@ == old(table)@
                &&& out matches RequestOutcome::Reply(IpcResponse::Error(m))
                &&& m@ == not_found_text()
            },
        },
{
    proof {
        use_type_invariant(&*table);
    }
    match request {
        IpcRequest::Status => {
            let rows = status_report(table);
            RequestOutcome::Reply(IpcResponse::StatusData(rows))
        },
        IpcRequest::Start { target } => {
            let ghost v = table@;
            if table.set_intent(target.as_str(), Intent::Run) {
                RequestOutcome::Reply(IpcResponse::Ack)
            } else {
                assert(table@ =~= v);
                RequestOutcome::Reply(IpcResponse::Error(crate::text::owned("Process not found")))
            }
        },
        IpcRequest::Stop { target } => {
            let ghost v = table@;
            let pid = match table.get(target.as_str()) {
                Some(ps) => match ps.status {
                    Status::Running(pid) => Some(pid),
                    _ => None,
                },
                None => {
                    return RequestOutcome::Reply(
                        IpcResponse::Error(crate::text::owned("Process not found")),
                    );
                },
            };
            table.set_intent(target.as_str(), Intent::Stop);
            match pid {
                Some(pid) => RequestOutcome::Terminate(pid),
                None => RequestOutcome::Reply(IpcResponse::Ack),
            }
        },
    }
}

/// The answer to a `Stop` after its process was signalled: `Ok`, or the
/// error that signalling gave.
pub fn stop_reply(signalled: Result<(), String>) -> (r: IpcResponse)
    ensures
        match signalled {
            Ok(()) => r matches IpcResponse::Ack,
            Err(e) => r matches IpcResponse::Error(m) && m@ == "Failed to stop process: "@ + e@,
        },
{
    match signalled {
        Ok(()) => IpcResponse::Ack,
        Err(e) => IpcResponse::Error(crate::text::concat("Failed to stop process: ", e.as_str())),
    }
}

/// What decoding the bytes received so far gave.
#[derive(Debug)]
pub enum ParseOutcome {
    Parsed(IpcRequest),
    /// The bytes end before the request does.
    Incomplete,
    /// The bytes are no request; the decoder's message.
    Invalid(String),
}

/// What the daemon does next with a client connection.
#[derive(Debug)]
pub enum ClientStep {
    Handle(IpcRequest),
    ReadMore,
    Reply(IpcResponse),
}

/// A complete request is handled; an incomplete one waits for more bytes;
/// anything else is answered with an error and the connection closed.
pub fn classify_parse(outcome: ParseOutcome) -> (step: ClientStep)
    ensures
        match outcome {
            ParseOutcome::Parsed(req) => step == ClientStep::Handle(req),
            ParseOutcome::Incomplete => step matches ClientStep::ReadMore,
            ParseOutcome::Invalid(e) => step matches ClientStep::Reply(IpcResponse::Error(m)) && m@
                == "Invalid request: "@ + e@,
        },
{
    match outcome {
        ParseOutcome::Parsed(req) => ClientStep::Handle(req),
        ParseOutcome::Incomplete => ClientStep::ReadMore,
        ParseOutcome::Invalid(e) => ClientStep::Reply(
            IpcResponse::Error(crate::text::concat("Invalid request: ", e.as_str())),
        ),
    }
}

/// What the `status` command shows.
#[derive(Debug)]
pub enum StatusOutput {
    /// A single line of text.
    Line(String),
    /// A table of names and status texts, by name.
    Table(Vec<(String, String)>),
}

/// What the `status` command shows for the daemon's answer: the rows
/// ordered by name, a note when there are none, or the error.
pub fn status_output(response: IpcResponse) -> (out: StatusOutput)
    ensures
        match response {
            IpcResponse::StatusData(rows) => if rows@.len() == 0 {
                out matches StatusOutput::Line(l) && l@ == "No processes configured."@
            } else {
                out matches StatusOutput::Table(t) && crate::sorting::sorted_by_name(t@)
                    && t@.to_multiset() == rows@.to_multiset()
            },
            IpcResponse::Error(e) => out matches StatusOutput::Line(l) && l@ == "Error: "@ + e@,
            IpcResponse::Ack => out matches StatusOutput::Line(l) && l@ == "Unexpected response"@,
        },
{
    match response {
        IpcResponse::StatusData(rows) => {
            if rows.len() == 0 {
                StatusOutput::Line(crate::text::owned("No processes configured."))
            } else {
                StatusOutput::Table(crate::sorting::sort_by_name(rows))
            }
        },
        IpcResponse::Error(e) => StatusOutput::Line(crate::text::concat("Error: ", e.as_str())),
        IpcResponse::Ack => StatusOutput::Line(crate::text::owned("Unexpected response")),
    }
}

/// The line the `start` (`done` = "Started ") or `stop` (`done` =
/// "Stopped ") command prints for the daemon's answer.
pub open spec fn command_line_text(done: Seq<char>, target: Seq<char>, response: IpcResponse) -> Seq<char> {
    match response {
        IpcResponse::Ack => done + target,
        IpcResponse::Error(e) => "Error: "@ + e@,
        IpcResponse::StatusData(_) => "Unexpected response"@,
    }
}

fn command_output(done: &str, target: &str, response: IpcResponse) -> (line: String)
    ensures
        line@ == command_line_text(done@, target@, response),
{
    match response {
        IpcResponse::Ack => crate::text::concat(done, target),
        IpcResponse::Error(e) => crate::text::concat("Error: ", e.as_str()),
        IpcResponse::StatusData(_) => crate::text::owned("Unexpected response"),
    }
}

/// What the `start` command prints for the daemon's answer.
pub fn start_output(target: &str, response: IpcResponse) -> (line: String)
    ensures
        line@ == command_line_text("Started "@, target@, response),
{
    command_output("Started ", target, response)
}

/// What the `stop` command prints for the daemon's answer.
pub fn stop_output(target: &str, response: IpcResponse) -> (line: String)
    ensures
        line@ == command_line_text("Stopped "@, target@, response),
{
    command_output("Stopped ", target, response)
}

} // verus!
