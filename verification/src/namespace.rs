//! Entering the holder's network namespace: the checks made before, the capabilities dropped,
//! the DNS configuration, and waiting for the command.
use vstd::prelude::*;
use crate::capabilities::{clear_capability_set, Clearing};
use crate::text::{decimal, format_i64, format_u64, signed_decimal};

verus! {

/// The file of the network namespace of process `pid`.
pub open spec fn namespace_path_text(pid: int) -> Seq<char> {
    "/proc/"@ + signed_decimal(pid) + "/ns/net"@
}

/// The file of the network namespace of process `pid`.
pub fn namespace_path(pid: i32) -> (r: String)
    ensures
        r@ == namespace_path_text(pid as int),
{
    let digits = format_i64(pid as i64);
    String::from_str("/proc/").concat(digits.as_str()).concat("/ns/net")
}

/// Accepts the namespace only when its owner is the owner of the Docker socket.
pub fn check_namespace_owner(owner_uid: u32, socket_uid: u32) -> (r: Result<(), String>)
    ensures
        owner_uid == socket_uid <==> r is Ok,
        r matches Err(m) ==> m@ == "Target namespace is owned by UID "@ + decimal(owner_uid as nat)
            + ", but the Docker socket is owned by UID "@ + decimal(socket_uid as nat)
            + ". Aborting due to potential privilege escalation."@,
{
    if owner_uid != socket_uid {
        let owner = format_u64(owner_uid as u64);
        let socket = format_u64(socket_uid as u64);
        Err(
            String::from_str("Target namespace is owned by UID ").concat(owner.as_str()).concat(
                ", but the Docker socket is owned by UID ",
            ).concat(socket.as_str()).concat(". Aborting due to potential privilege escalation."),
        )
    } else {
        Ok(())
    }
}

/// Accepts the namespace only when the holder's process id is the same after the namespace
/// file was opened as before.
pub fn check_pid_unchanged(pid: i32, pid_after_open: i32) -> (r: Result<(), String>)
    ensures
        pid == pid_after_open <==> r is Ok,
        r matches Err(m) ==> m@ == "Container state changed while attaching to namespace (PID changed from "@
            + signed_decimal(pid as int) + " to "@ + signed_decimal(pid_after_open as int)
            + "). The container may have restarted or terminated."@,
{
    if pid != pid_after_open {
        let before = format_i64(pid as i64);
        let after = format_i64(pid_after_open as i64);
        Err(
            String::from_str(
                "Container state changed while attaching to namespace (PID changed from ",
            ).concat(before.as_str()).concat(" to ").concat(after.as_str()).concat(
                "). The container may have restarted or terminated.",
            ),
        )
    } else {
        Ok(())
    }
}

/// The capability sets of a process.
#[derive(Clone, Copy, PartialEq, Eq, Structural)]
pub enum CapabilitySet {
    Effective,
    Permitted,
    Inheritable,
    Ambient,
    Bounding,
}

/// The sets cleared before the command runs, in order: effective, permitted, inheritable and
/// ambient always; when `strict`, the bounding set first, while the process still holds the
/// capability (`CAP_SETPCAP`) that dropping from it needs.
pub open spec fn sets_to_clear(strict: bool) -> Seq<CapabilitySet> {
    let base = seq![
        CapabilitySet::Effective,
        CapabilitySet::Permitted,
        CapabilitySet::Inheritable,
        CapabilitySet::Ambient,
    ];
    if strict {
        seq![CapabilitySet::Bounding] + base
    } else {
        base
    }
}

/// The sets cleared before the command runs.
pub fn capability_sets_to_clear(strict: bool) -> (r: Vec<CapabilitySet>)
    ensures
        r@ == sets_to_clear(strict),
{
    let mut r = Vec::new();
    if strict {
        r.push(CapabilitySet::Bounding);
    }
    r.push(CapabilitySet::Effective);
    r.push(CapabilitySet::Permitted);
    r.push(CapabilitySet::Inheritable);
    r.push(CapabilitySet::Ambient);
    assert(r@ =~= sets_to_clear(strict));
    r
}

/// Without `--strict` the bounding set is kept, so that file capabilities keep working; with
/// it every set is cleared, the bounding set first; the effective, permitted, inheritable and
/// ambient sets are cleared either way.
pub proof fn lemma_bounding_set_only_when_strict(strict: bool)
    ensures
        sets_to_clear(strict).contains(CapabilitySet::Bounding) <==> strict,
        strict ==> sets_to_clear(strict)[0] == CapabilitySet::Bounding,
        sets_to_clear(strict).contains(CapabilitySet::Effective),
        sets_to_clear(strict).contains(CapabilitySet::Permitted),
        sets_to_clear(strict).contains(CapabilitySet::Inheritable),
        sets_to_clear(strict).contains(CapabilitySet::Ambient),
{
    let s = sets_to_clear(strict);
    if strict {
        assert(s[0] == CapabilitySet::Bounding);
        assert(s[1] == CapabilitySet::Effective);
        assert(s[2] == CapabilitySet::Permitted);
        assert(s[3] == CapabilitySet::Inheritable);
        assert(s[4] == CapabilitySet::Ambient);
    } else {
        assert(s[0] == CapabilitySet::Effective);
        assert(s[1] == CapabilitySet::Permitted);
        assert(s[2] == CapabilitySet::Inheritable);
        assert(s[3] == CapabilitySet::Ambient);
        assert forall|i: int| 0 <= i < s.len() implies s[i] != CapabilitySet::Bounding by {}
    }
}

/// What the message of a failure to clear `set` starts with.
pub open spec fn clear_failure_prefix(set: CapabilitySet) -> Seq<char> {
    match set {
        CapabilitySet::Effective => "Failed to drop effective capabilities: "@,
        CapabilitySet::Permitted => "Failed to drop permitted capabilities: "@,
        CapabilitySet::Inheritable => "Failed to drop inheritable capabilities: "@,
        CapabilitySet::Ambient => "Failed to drop ambient capabilities: "@,
        CapabilitySet::Bounding => "Failed to drop bounding capabilities: "@,
    }
}

/// Whether `m` reports that clearing `set` failed: it starts with the set's failure prefix
/// and the text of a capability error.
pub open spec fn reports_clear_failure(m: Seq<char>, set: CapabilitySet) -> bool {
    (clear_failure_prefix(set) + "caps error: "@).is_prefix_of(m)
}

fn failure_prefix(set: CapabilitySet) -> (r: &'static str)
    ensures
        r@ == clear_failure_prefix(set),
{
    match set {
        CapabilitySet::Effective => "Failed to drop effective capabilities: ",
        CapabilitySet::Permitted => "Failed to drop permitted capabilities: ",
        CapabilitySet::Inheritable => "Failed to drop inheritable capabilities: ",
        CapabilitySet::Ambient => "Failed to drop ambient capabilities: ",
        CapabilitySet::Bounding => "Failed to drop bounding capabilities: ",
    }
}

/// What clearing `set` reports, given what `caps::clear` answered for it: nothing when it
/// succeeded, else the set's failure prefix followed by the failure's own text.
pub open spec fn clearing_report(set: CapabilitySet, outcome: Result<(), String>) -> Result<(), Seq<char>> {
    match outcome {
        Ok(()) => Ok(()),
        Err(e) => Err(clear_failure_prefix(set) + e@),
    }
}

/// A result with its error as text.
pub open spec fn result_text(r: Result<(), String>) -> Result<(), Seq<char>> {
    match r {
        Ok(()) => Ok(()),
        Err(m) => Err(m@),
    }
}

/// What clearing `set` reports, given what `caps::clear` answered for it.
pub fn report_clearing(set: CapabilitySet, outcome: &Result<(), String>) -> (r: Result<(), String>)
    ensures
        result_text(r) == clearing_report(set, *outcome),
{
    match outcome {
        Ok(()) => Ok(()),
        Err(e) => Err(String::from_str(failure_prefix(set)).concat(e.as_str())),
    }
}

/// A failure report names the set that failed and carries the capability error's text.
proof fn lemma_report_names_set(set: CapabilitySet, answered: Result<(), String>, reported: Result<(), String>)
    requires
        answered matches Err(e) ==> "caps error: "@.is_prefix_of(e@),
        result_text(reported) == clearing_report(set, answered),
    ensures
        reported matches Err(m) ==> reports_clear_failure(m@, set),
{
    if let Err(e) = answered {
        if let Err(m) = reported {
            let p = clear_failure_prefix(set);
            let c = "caps error: "@;
            assert(c =~= e@.subrange(0, c.len() as int));
            assert((p + c) =~= m@.subrange(0, (p + c).len() as int));
        }
    }
}

/// Hands the sets of `capability_sets_to_clear(strict)` to `caps::clear` one by one, in that
/// order, and stops at the first that fails. Gives the report of the last attempt (success
/// only when every set was cleared) and the record of every attempt made.
pub fn clear_capabilities(strict: bool) -> (r: (Result<(), String>, Vec<Clearing>))
    ensures
        0 < r.1@.len() <= sets_to_clear(strict).len(),
        forall|i: int| 0 <= i < r.1@.len() ==> #[trigger] r.1@[i].cleared_set() == sets_to_clear(strict)[i],
        forall|i: int| 0 <= i < r.1@.len() - 1 ==> #[trigger] r.1@[i].answer() is Ok,
        r.1@.last().answer() is Ok ==> r.1@.len() == sets_to_clear(strict).len(),
        result_text(r.0) == clearing_report(sets_to_clear(strict)[r.1@.len() - 1], r.1@.last().answer()),
        r.0 matches Err(m) ==> reports_clear_failure(m@, sets_to_clear(strict)[r.1@.len() - 1]),
{
    let sets = capability_sets_to_clear(strict);
    let mut log: Vec<Clearing> = Vec::new();
    let mut i: usize = 0;
    while i < sets.len()
        invariant
            sets@ == sets_to_clear(strict),
            i <= sets@.len(),
            log@.len() == i,
            forall|j: int| 0 <= j < i ==> #[trigger] log@[j].cleared_set() == sets@[j],
            forall|j: int| 0 <= j < i ==> #[trigger] log@[j].answer() is Ok,
        decreases sets.len() - i,
    {
        let set = sets[i];
        let attempt = clear_capability_set(set);
        let reported = report_clearing(set, attempt.outcome());
        let ghost answered = attempt.answer();
        log.push(attempt);
        proof {
            assert(log@[i as int].answer() == answered);
            assert(log@.last() == log@[i as int]);
            lemma_report_names_set(set, answered, reported);
        }
        if i + 1 == sets.len() {
            return (reported, log);
        }
        if reported.is_err() {
            return (reported, log);
        }
        i = i + 1;
    }
    (Ok(()), log)
}

/// The DNS configuration that the command sees in place of the host's `/etc/resolv.conf`:
/// Docker's embedded DNS server.
pub fn resolv_conf_contents() -> (r: &'static str)
    ensures
        r@ == "nameserver 127.0.0.11\noptions ndots:0\n"@,
{
    "nameserver 127.0.0.11\noptions ndots:0\n"
}

/// Where the DNS configuration is written before it is bound over `/etc/resolv.conf`:
/// a file in `/dev/shm` named after the process and the sub-second part of the time.
pub fn resolv_conf_temp_path(process_id: u32, subsec_nanos: u32) -> (r: String)
    ensures
        r@ == "/dev/shm/docker-intrude-resolv-"@ + decimal(process_id as nat) + "-"@ + decimal(
            subsec_nanos as nat,
        ),
{
    let p = format_u64(process_id as u64);
    let n = format_u64(subsec_nanos as u64);
    String::from_str("/dev/shm/docker-intrude-resolv-").concat(p.as_str()).concat("-").concat(
        n.as_str(),
    )
}

/// How a wait for the command's process ended.
pub enum WaitEvent {
    /// The process exited with this code.
    Exited(i32),
    /// A signal, named here, ended the process.
    Signaled(String),
    /// The wait was interrupted by a signal to this process.
    Interrupted,
    /// The wait failed for this reason.
    Failed(String),
    /// The wait reported something else.
    Other,
}

/// What to do after a wait.
pub enum WaitAction {
    /// Wait again.
    Wait,
    /// Send `SIGTERM` to the command, then end with this error.
    Terminate(String),
    /// End with this outcome: the command's exit code, or an error.
    Finish(Result<i32, String>),
}

/// A `WaitAction` as values.
pub enum WaitActionView {
    Wait,
    Terminate(Seq<char>),
    Finish(Result<i32, Seq<char>>),
}

impl View for WaitAction {
    type V = WaitActionView;

    open spec fn view(&self) -> WaitActionView {
        match self {
            WaitAction::Wait => WaitActionView::Wait,
            WaitAction::Terminate(m) => WaitActionView::Terminate(m@),
            WaitAction::Finish(Ok(c)) => WaitActionView::Finish(Ok(*c)),
            WaitAction::Finish(Err(m)) => WaitActionView::Finish(Err(m@)),
        }
    }
}

/// What follows a wait that ended with `event`; `terminated` says whether this process was
/// asked to stop (`SIGTERM`). Only an interrupted wait is repeated, and only while no stop was
/// asked.
pub open spec fn wait_next(event: WaitEvent, terminated: bool) -> WaitActionView {
    match event {
        WaitEvent::Exited(code) => WaitActionView::Finish(Ok(code)),
        WaitEvent::Signaled(name) => WaitActionView::Finish(
            Err("Child process terminated by signal: "@ + name@),
        ),
        WaitEvent::Interrupted => if terminated {
            WaitActionView::Terminate("Process received SIGTERM, shutting down"@)
        } else {
            WaitActionView::Wait
        },
        WaitEvent::Failed(reason) => WaitActionView::Finish(
            Err("Failed to harvest child process exit status: "@ + reason@),
        ),
        WaitEvent::Other => WaitActionView::Finish(Err("Unexpected waitpid status"@)),
    }
}

/// The command's exit code is passed on unchanged, whatever it is (130 after Ctrl-C too) and
/// whether or not a stop was asked; and it becomes the program's exit status.
pub proof fn lemma_exit_code_passed_on(code: i32, terminated: bool)
    ensures
        wait_next(WaitEvent::Exited(code), terminated) == WaitActionView::Finish(Ok::<i32, Seq<char>>(code)),
{
}

/// Decides what follows a wait for the command's process.
pub fn after_wait(event: WaitEvent, terminated: bool) -> (r: WaitAction)
    ensures
        r@ == wait_next(event, terminated),
{
    match event {
        WaitEvent::Exited(code) => WaitAction::Finish(Ok(code)),
        WaitEvent::Signaled(name) => WaitAction::Finish(
            Err(String::from_str("Child process terminated by signal: ").concat(name.as_str())),
        ),
        WaitEvent::Interrupted => if terminated {
            WaitAction::Terminate(String::from_str("Process received SIGTERM, shutting down"))
        } else {
            WaitAction::Wait
        },
        WaitEvent::Failed(reason) => WaitAction::Finish(
            Err(
                String::from_str("Failed to harvest child process exit status: ").concat(
                    reason.as_str(),
                ),
            ),
        ),
        WaitEvent::Other => WaitAction::Finish(Err(String::from_str("Unexpected waitpid status"))),
    }
}

/// The exit status of the program: the command's own exit code, or 1 when it could not be run.
pub fn exit_status(outcome: &Result<i32, String>) -> (r: i32)
    ensures
        r == match outcome {
            Ok(code) => *code,
            Err(_) => 1i32,
        },
{
    match outcome {
        Ok(code) => *code,
        Err(_) => 1,
    }
}

} // verus!
