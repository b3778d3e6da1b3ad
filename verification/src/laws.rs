use vstd::prelude::*;
use crate::config::{is_program_file_name, unique_names, ProgramConfig, program_names};
use crate::daemon::registered;
use crate::platform::{normalized_endpoint, pipe_prefix, Platform};
use crate::state::{
    all_stopped, distinct_names, has_name, initial_state, inserted, intent_or_stop, lookup,
    with_intent, EntryView, Intent, ProcessState, Status,
};
use crate::supervise::{
    lemma_with_intent_lookup, lemma_with_status_lookup, poll_ms, transition, Action, Event, Phase,
};
use crate::ipc::{command_line_text, status_text, status_word, IpcResponse};
use crate::text::{has_prefix, has_suffix};
use crate::web::expected_row;

verus! {

/// After a start request for a known program, the program's intent is
/// `Run`; every other program's record is unchanged.
pub proof fn law_start_sets_run(v: Seq<EntryView>, name: Seq<char>, other: Seq<char>)
    requires
        distinct_names(v),
        has_name(v, name),
    ensures
        intent_or_stop(with_intent(v, name, Intent::Run), name) == Intent::Run,
        lookup(with_intent(v, name, Intent::Run), name)->0.status == lookup(v, name)->0.status,
        other != name ==> lookup(with_intent(v, name, Intent::Run), other) == lookup(v, other),
{
    lemma_with_intent_lookup(v, name, name, Intent::Run);
    lemma_with_intent_lookup(v, name, other, Intent::Run);
}

/// After a stop request for a known program, the program's intent is
/// `Stop`; every other program's record is unchanged.
pub proof fn law_stop_sets_stop(v: Seq<EntryView>, name: Seq<char>, other: Seq<char>)
    requires
        distinct_names(v),
        has_name(v, name),
    ensures
        intent_or_stop(with_intent(v, name, Intent::Stop), name) == Intent::Stop,
        lookup(with_intent(v, name, Intent::Stop), name)->0.status == lookup(v, name)->0.status,
        other != name ==> lookup(with_intent(v, name, Intent::Stop), other) == lookup(v, other),
{
    lemma_with_intent_lookup(v, name, name, Intent::Stop);
    lemma_with_intent_lookup(v, name, other, Intent::Stop);
}

/// After a stop request, the status report shows the program with the
/// intent to stop and its status as it was.
pub proof fn law_status_after_stop(v: Seq<EntryView>, name: Seq<char>)
    requires
        distinct_names(v),
        has_name(v, name),
    ensures
        lookup(with_intent(v, name, Intent::Stop), name) is Some,
        status_text(lookup(with_intent(v, name, Intent::Stop), name)->0) == status_word(lookup(v, name)->0.status)
            + " ["@ + "intended: STOP"@ + "]"@,
{
    lemma_with_intent_lookup(v, name, name, Intent::Stop);
}

/// A program that the user stopped while it ran is not started again when
/// it exits, whether or not it has `autorestart`.
pub proof fn law_stopped_program_stays_down(
    v: Seq<EntryView>,
    name: Seq<char>,
    autorestart: bool,
    code: Option<i32>,
)
    requires
        distinct_names(v),
        has_name(v, name),
    ensures
        ({
            let stopped = with_intent(v, name, Intent::Stop);
            let (phase, action, w) = transition(name, autorestart, Phase::Running, Event::Exited(code), stopped);
            &&& intent_or_stop(w, name) == Intent::Stop
            &&& transition(name, autorestart, phase, Event::Tick, w) == (Phase::Idle, Action::Sleep(poll_ms()), w)
        }),
{
    lemma_with_intent_lookup(v, name, name, Intent::Stop);
    crate::supervise::law_user_stop_not_restarted(name, autorestart, with_intent(v, name, Intent::Stop), code);
}

/// A start request for an idle program makes its supervisor spawn it at
/// its next look.
pub proof fn law_start_then_spawn(v: Seq<EntryView>, name: Seq<char>, autorestart: bool)
    requires
        distinct_names(v),
        has_name(v, name),
    ensures
        ({
            let started = with_intent(v, name, Intent::Run);
            transition(name, autorestart, Phase::Idle, Event::Tick, started) == (Phase::Spawning, Action::Spawn, started)
        }),
{
    lemma_with_intent_lookup(v, name, name, Intent::Run);
}

/// After shutdown marked every program to stay stopped, no supervisor
/// spawns anything.
pub proof fn law_shutdown_spawns_nothing(v: Seq<EntryView>, name: Seq<char>, autorestart: bool)
    ensures
        intent_or_stop(all_stopped(v), name) == Intent::Stop,
        transition(name, autorestart, Phase::Idle, Event::Tick, all_stopped(v)) == (
            Phase::Idle,
            Action::Sleep(poll_ms()),
            all_stopped(v),
        ),
{
    let w = all_stopped(v);
    if has_name(w, name) {
        let i = choose|i: int| 0 <= i < w.len() && #[trigger] w[i].0 == name;
        assert(w[i].1.intent == Intent::Stop);
    }
}

proof fn lemma_registered_names(programs: Seq<ProgramConfig>, n: Seq<char>)
    ensures
        registered(Seq::empty(), programs).len() <= programs.len(),
        has_name(registered(Seq::empty(), programs), n) <==> exists|j: int| 0 <= j < programs.len() && #[trigger] programs[j].name@ == n,
    decreases programs.len(),
{
    if programs.len() > 0 {
        let ps = programs.drop_last();
        let p = programs.last();
        lemma_registered_names(ps, n);
        let r = registered(Seq::empty(), ps);
        let w = registered(Seq::empty(), programs);
        if has_name(r, p.name@) {
            assert forall|i: int| 0 <= i < r.len() implies #[trigger] w[i].0 == r[i].0 by {}
            if has_name(w, n) {
                let i = choose|i: int| 0 <= i < w.len() && #[trigger] w[i].0 == n;
                assert(r[i].0 == n);
                let j = choose|j: int| 0 <= j < ps.len() && #[trigger] ps[j].name@ == n;
                assert(programs[j].name@ == n);
            }
            if exists|j: int| 0 <= j < programs.len() && #[trigger] programs[j].name@ == n {
                let j = choose|j: int| 0 <= j < programs.len() && #[trigger] programs[j].name@ == n;
                if j < ps.len() {
                    assert(ps[j].name@ == n);
                    let i = choose|i: int| 0 <= i < r.len() && #[trigger] r[i].0 == n;
                    assert(w[i].0 == n);
                } else {
                    let i = choose|i: int| 0 <= i < r.len() && #[trigger] r[i].0 == p.name@;
                    assert(w[i].0 == n);
                }
            }
        } else {
            assert(w == r.push((p.name@, initial_state(p.autostart))));
            if has_name(w, n) {
                let i = choose|i: int| 0 <= i < w.len() && #[trigger] w[i].0 == n;
                if i < r.len() {
                    assert(r[i].0 == n);
                    let j = choose|j: int| 0 <= j < ps.len() && #[trigger] ps[j].name@ == n;
                    assert(programs[j].name@ == n);
                } else {
                    assert(programs[programs.len() - 1].name@ == n);
                }
            }
            if exists|j: int| 0 <= j < programs.len() && #[trigger] programs[j].name@ == n {
                let j = choose|j: int| 0 <= j < programs.len() && #[trigger] programs[j].name@ == n;
                if j < ps.len() {
                    assert(ps[j].name@ == n);
                    let i = choose|i: int| 0 <= i < r.len() && #[trigger] r[i].0 == n;
                    assert(w[i].0 == n);
                } else {
                    assert(w[r.len() as int].0 == n);
                }
            }
        }
    }
}

/// When the daemon starts, every configured program is recorded as
/// stopped, with the intent `Run` exactly when it has `autostart`.
pub proof fn law_autostart_decides_initial_intent(programs: Seq<ProgramConfig>, i: int)
    requires
        unique_names(programs),
        0 <= i < programs.len(),
    ensures
        distinct_names(registered(Seq::empty(), programs)),
        registered(Seq::empty(), programs).len() == programs.len(),
        lookup(registered(Seq::empty(), programs), programs[i].name@) == Some(initial_state(programs[i].autostart)),
        intent_or_stop(registered(Seq::empty(), programs), programs[i].name@) == if programs[i].autostart {
            Intent::Run
        } else {
            Intent::Stop
        },
    decreases programs.len(),
{
    let ps = programs.drop_last();
    let p = programs.last();
    let r = registered(Seq::empty(), ps);
    let w = registered(Seq::empty(), programs);
    assert(unique_names(ps)) by {
        assert forall|a: int, b: int| 0 <= a < b < ps.len() implies #[trigger] program_names(ps)[a] != #[trigger] program_names(ps)[b] by {
            assert(program_names(programs)[a] != program_names(programs)[b]);
        }
    }
    lemma_registered_names(ps, p.name@);
    if has_name(r, p.name@) {
        let j = choose|j: int| 0 <= j < ps.len() && #[trigger] ps[j].name@ == p.name@;
        assert(program_names(programs)[j] != program_names(programs)[programs.len() - 1]);
    }
    assert(w == r.push((p.name@, initial_state(p.autostart))));
    if ps.len() > 0 {
        law_autostart_decides_initial_intent(ps, 0);
    } else {
        assert(r == Seq::<EntryView>::empty());
    }
    assert(distinct_names(r));
    assert(r.len() == ps.len());
    assert(distinct_names(w)) by {
        assert forall|a: int, b: int| 0 <= a < w.len() && 0 <= b < w.len() && a != b implies #[trigger] w[a].0 != #[trigger] w[b].0 by {
            if a == r.len() as int {
                assert(w[b].0 == r[b].0);
                assert(has_name(r, r[b].0));
            } else if b == r.len() as int {
                assert(w[a].0 == r[a].0);
                assert(has_name(r, r[a].0));
            }
        }
    }
    if i == programs.len() - 1 {
        assert(w[r.len() as int].0 == p.name@);
        crate::state::lemma_lookup_at(w, r.len() as int);
    } else {
        assert(ps[i] == programs[i]);
        law_autostart_decides_initial_intent(ps, i);
        let n = programs[i].name@;
        let k = choose|k: int| 0 <= k < r.len() && #[trigger] r[k].0 == n;
        crate::state::lemma_lookup_at(r, k);
        assert(w[k] == r[k]);
        crate::state::lemma_lookup_at(w, k);
    }
}

/// A status line begins with the word for the program's status, and with
/// no other status word: `STOPPED` exactly for a stopped program, `RUNNING`
/// exactly for a running one, `EXITED` and `FAILED` likewise.  It ends with
/// `[intended: RUN]` exactly when the intent is `Run`, and with
/// `[intended: STOP]` exactly when it is `Stop`.
pub proof fn law_status_line_names_status_and_intent(ps: ProcessState)
    ensures
        has_prefix(status_text(ps), "STOPPED"@) <==> ps.status is Stopped,
        has_prefix(status_text(ps), "RUNNING"@) <==> ps.status is Running,
        has_prefix(status_text(ps), "EXITED"@) <==> ps.status is Exited,
        has_prefix(status_text(ps), "FAILED"@) <==> ps.status is Failed,
        has_suffix(status_text(ps), "[intended: RUN]"@) <==> ps.intent == Intent::Run,
        has_suffix(status_text(ps), "[intended: STOP]"@) <==> ps.intent == Intent::Stop,
        ps.status is Stopped ==> status_text(ps) == if ps.intent == Intent::Run {
            "STOPPED [intended: RUN]"@
        } else {
            "STOPPED [intended: STOP]"@
        },
{
    reveal_strlit("STOPPED");
    reveal_strlit("RUNNING");
    reveal_strlit("EXITED");
    reveal_strlit("FAILED");
    reveal_strlit("[intended: RUN]");
    reveal_strlit("[intended: STOP]");
    reveal_strlit("STOPPED [intended: RUN]");
    reveal_strlit("STOPPED [intended: STOP]");
    reveal_strlit("RUNNING (pid ");
    reveal_strlit("EXITED (code ");
    reveal_strlit("FAILED (");
    reveal_strlit(")");
    reveal_strlit(" [");
    reveal_strlit("intended: RUN");
    reveal_strlit("intended: STOP");
    reveal_strlit("]");
    let t = status_text(ps);
    let w = status_word(ps.status);
    assert(t == w + " ["@ + crate::ipc::intent_word(ps.intent) + "]"@);
    assert(t.subrange(0, w.len() as int) =~= w);
    lemma_prefix_heads(t, "STOPPED"@);
    lemma_prefix_heads(t, "RUNNING"@);
    lemma_prefix_heads(t, "EXITED"@);
    lemma_prefix_heads(t, "FAILED"@);
    match ps.status {
        Status::Stopped => {
            assert(w =~= "STOPPED"@);
            assert(t[0] == 'S' && t[1] == 'T');
        },
        Status::Running(pid) => {
            let head = "RUNNING (pid "@;
            let tail = crate::text::decimal(pid as nat) + ")"@;
            assert(w == head + tail);
            assert(head.subrange(0, 7) =~= "RUNNING"@);
            assert(w.subrange(0, 7) =~= head.subrange(0, 7));
            assert(t.subrange(0, 7) =~= "RUNNING"@);
            assert(t[0] == 'R');
        },
        Status::Exited(code) => {
            let head = "EXITED (code "@;
            let tail = crate::text::signed_decimal(code as int) + ")"@;
            assert(w == head + tail);
            assert(head.subrange(0, 6) =~= "EXITED"@);
            assert(w.subrange(0, 6) =~= head.subrange(0, 6));
            assert(t.subrange(0, 6) =~= "EXITED"@);
            assert(t[0] == 'E');
        },
        Status::Failed(reason) => {
            let head = "FAILED ("@;
            let tail = reason@ + ")"@;
            assert(w == head + tail);
            assert(head.subrange(0, 6) =~= "FAILED"@);
            assert(w.subrange(0, 6) =~= head.subrange(0, 6));
            assert(t.subrange(0, 6) =~= "FAILED"@);
            assert(t[0] == 'F' && t[1] == 'A');
        },
    }
    let n: int = t.len() as int;
    match ps.intent {
        Intent::Run => {
            assert(t.subrange(n - 15, n) =~= "[intended: RUN]"@);
            assert(t[n - 2] == 'N');
            if has_suffix(t, "[intended: STOP]"@) {
                assert(t.subrange(n - 16, n)[14] == t[n - 2]);
            }
        },
        Intent::Stop => {
            assert(t.subrange(n - 16, n) =~= "[intended: STOP]"@);
            assert(t[n - 2] == 'P');
            if has_suffix(t, "[intended: RUN]"@) {
                assert(t.subrange(n - 15, n)[13] == t[n - 2]);
            }
        },
    }
}

/// Whatever the command, an error answer from the daemon is printed as
/// `Error: ` and the daemon's message, and an acknowledgement as the
/// command's word and the target.
pub proof fn law_command_line_shows_daemon_error(done: Seq<char>, target: Seq<char>, e: String)
    ensures
        command_line_text(done, target, IpcResponse::Error(e)) == "Error: "@ + e@,
        command_line_text(done, target, IpcResponse::Ack) == done + target,
{
}

/// The `stop` command prints a line beginning with `Stopped ` only for an
/// acknowledgement, and the `start` command one beginning with `Started `
/// only for an acknowledgement.
pub proof fn law_done_word_only_on_ack(target: Seq<char>, response: IpcResponse)
    ensures
        has_prefix(command_line_text("Stopped "@, target, response), "Stopped "@) <==> response is Ack,
        has_prefix(command_line_text("Started "@, target, response), "Started "@) <==> response is Ack,
{
    reveal_strlit("Stopped ");
    reveal_strlit("Started ");
    reveal_strlit("Error: ");
    reveal_strlit("Unexpected response");
    let a = command_line_text("Stopped "@, target, response);
    let b = command_line_text("Started "@, target, response);
    match response {
        IpcResponse::Ack => {
            assert(a.subrange(0, 8) =~= "Stopped "@);
            assert(b.subrange(0, 8) =~= "Started "@);
        },
        IpcResponse::Error(e) => {
            assert(a[0] == 'E' && b[0] == 'E');
            if has_prefix(a, "Stopped "@) {
                assert(a.subrange(0, 8)[0] == a[0]);
            }
            if has_prefix(b, "Started "@) {
                assert(b.subrange(0, 8)[0] == b[0]);
            }
        },
        IpcResponse::StatusData(_) => {
            assert(a[0] == 'U' && b[0] == 'U');
            if has_prefix(a, "Stopped "@) {
                assert(a.subrange(0, 8)[0] == a[0]);
            }
            if has_prefix(b, "Started "@) {
                assert(b.subrange(0, 8)[0] == b[0]);
            }
        },
    }
}

/// Every file name made of a non-empty stem and `.toml` is read as a
/// program, whatever characters the stem holds, and no other name is.
pub proof fn law_program_file_is_stem_dot_toml(name: Seq<char>, stem: Seq<char>)
    ensures
        stem.len() > 0 ==> is_program_file_name(stem + ".toml"@),
        is_program_file_name(name) <==> exists|s: Seq<char>| s.len() > 0 && name == #[trigger] (s + ".toml"@),
{
    reveal_strlit(".toml");
    let t = stem + ".toml"@;
    assert(t.subrange(t.len() - 5, t.len() as int) =~= ".toml"@);
    if is_program_file_name(name) {
        let s = name.subrange(0, name.len() - 5);
        assert(name =~= s + ".toml"@);
    }
    if exists|s: Seq<char>| s.len() > 0 && name == #[trigger] (s + ".toml"@) {
        let s = choose|s: Seq<char>| s.len() > 0 && name == #[trigger] (s + ".toml"@);
        assert(name.subrange(name.len() - 5, name.len() as int) =~= ".toml"@);
    }
}

proof fn lemma_prefix_heads(s: Seq<char>, p: Seq<char>)
    requires
        p.len() >= 2,
    ensures
        has_prefix(s, p) ==> s[0] == p[0] && s[1] == p[1],
{
    if has_prefix(s, p) {
        assert(s.subrange(0, p.len() as int)[0] == s[0]);
        assert(s.subrange(0, p.len() as int)[1] == s[1]);
    }
}

/// A dashboard row shows the record's own name and intent: `Run` exactly
/// when the record's intent is `Run`, `Stop` otherwise, whatever the
/// program's settings say.  Its status begins with `Stopped`, `Running`,
/// `Exited` or `Failed` exactly for that status, and a memory figure is
/// asked for (`mem_pid`) only for a running program, by its process id.
pub proof fn law_dashboard_row_follows_record(e: EntryView, programs: Seq<ProgramConfig>, others: Seq<ProgramConfig>)
    ensures
        expected_row(e, programs).name == e.0,
        expected_row(e, programs).intent == if e.1.intent == Intent::Run {
            "Run"@
        } else {
            "Stop"@
        },
        expected_row(e, programs).intent == expected_row(e, others).intent,
        expected_row(e, programs).status == expected_row(e, others).status,
        has_prefix(expected_row(e, programs).status, "Stopped"@) <==> e.1.status is Stopped,
        has_prefix(expected_row(e, programs).status, "Running"@) <==> e.1.status is Running,
        has_prefix(expected_row(e, programs).status, "Exited"@) <==> e.1.status is Exited,
        has_prefix(expected_row(e, programs).status, "Failed"@) <==> e.1.status is Failed,
        expected_row(e, programs).mem_pid is Some <==> e.1.status is Running,
        e.1.status is Running ==> expected_row(e, programs).mem_pid == Some(e.1.status->Running_0),
{
    reveal_strlit("Run");
    reveal_strlit("Stop");
    reveal_strlit("Stopped");
    reveal_strlit("Running");
    reveal_strlit("Exited");
    reveal_strlit("Failed");
    reveal_strlit("Running (pid ");
    reveal_strlit("Exited (code ");
    reveal_strlit("Failed: ");
    reveal_strlit(")");
    let w = expected_row(e, programs).status;
    lemma_prefix_heads(w, "Stopped"@);
    lemma_prefix_heads(w, "Running"@);
    lemma_prefix_heads(w, "Exited"@);
    lemma_prefix_heads(w, "Failed"@);
    match e.1.status {
        Status::Stopped => {
            assert(w =~= "Stopped"@);
            assert(w.subrange(0, 7) =~= "Stopped"@);
            assert(w[0] == 'S' && w[1] == 't');
        },
        Status::Running(pid) => {
            let head = "Running (pid "@;
            assert(w == head + (crate::text::decimal(pid as nat) + ")"@));
            assert(head.subrange(0, 7) =~= "Running"@);
            assert(w.subrange(0, 7) =~= head.subrange(0, 7));
            assert(w[0] == 'R');
        },
        Status::Exited(code) => {
            let head = "Exited (code "@;
            assert(w == head + (crate::text::signed_decimal(code as int) + ")"@));
            assert(head.subrange(0, 6) =~= "Exited"@);
            assert(w.subrange(0, 6) =~= head.subrange(0, 6));
            assert(w[0] == 'E');
        },
        Status::Failed(reason) => {
            let head = "Failed: "@;
            assert(w == head + reason@);
            assert(head.subrange(0, 6) =~= "Failed"@);
            assert(w.subrange(0, 6) =~= head.subrange(0, 6));
            assert(w[0] == 'F' && w[1] == 'a');
        },
    }
}

/// Normalizing an endpoint twice gives what normalizing once gives.
pub proof fn law_normalize_idempotent(platform: Platform, endpoint: Seq<char>)
    ensures
        normalized_endpoint(platform, normalized_endpoint(platform, endpoint)) == normalized_endpoint(platform, endpoint),
{
    if platform == Platform::Windows && !has_prefix(endpoint, pipe_prefix()) {
        let n = pipe_prefix() + endpoint;
        assert(n.subrange(0, pipe_prefix().len() as int) =~= pipe_prefix());
    }
}

/// A Windows endpoint given as a bare pipe name and the same endpoint given
/// as a full pipe path normalize to the same path.
pub proof fn law_normalize_bare_and_full_agree(endpoint: Seq<char>)
    requires
        !has_prefix(endpoint, pipe_prefix()),
    ensures
        normalized_endpoint(Platform::Windows, endpoint) == normalized_endpoint(Platform::Windows, pipe_prefix() + endpoint),
{
    law_normalize_idempotent(Platform::Windows, endpoint);
}

} // verus!
