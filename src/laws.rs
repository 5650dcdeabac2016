//! What holds across the operations of the registry and the protocol.
use vstd::prelude::*;
use crate::protocol::{reply_text, Command};
use crate::registry::{
    after_exit, after_spawn, after_start, error_text, owns, respawns, status_line, Error, Registry,
    Status, MIN_UPTIME_MS,
};
use crate::text::decimal;

verus! {

/// A status query on a name that no start has registered fails as not found;
/// once a start of it has completed, the query succeeds and reports it active
/// and without a process yet.
pub proof fn law_status_after_start(
    m: Map<Seq<char>, Status>,
    order: Seq<Seq<char>>,
    name: Seq<char>,
    token: u64,
)
    ensures
        !m.contains_key(name) ==> reply_text(Command::Status(name), m, order) == error_text(
            Error::NotFound,
        ),
        after_start(m, name, token).contains_key(name),
        !after_start(m, name, token)[name].exit,
        reply_text(Command::Status(name), after_start(m, name, token), order) == name
            + " 0 [*]"@,
{
    reveal_strlit(" 0 [*]");
    reveal_strlit(" ");
    reveal_strlit(" [");
    reveal_strlit("*");
    reveal_strlit("]");
    assert(decimal(0) =~= seq!['0']);
    assert(status_line(name, after_start(m, name, token)[name]) =~= name + " 0 [*]"@);
}

/// Only a start of a name registers it: the reports of a guardian, a stop,
/// and a start of another name leave an unregistered name unregistered.
pub proof fn law_only_start_registers(
    m: Map<Seq<char>, Status>,
    name: Seq<char>,
    other: Seq<char>,
    token: u64,
    pid: u32,
    success: bool,
    uptime_ms: u64,
)
    requires
        !m.contains_key(name),
    ensures
        !after_spawn(m, other, token, pid).contains_key(name),
        !after_exit(m, other, token, success, uptime_ms).contains_key(name),
        !m.remove(other).contains_key(name),
        other != name ==> !after_start(m, other, token).contains_key(name),
{
}

/// A stop of a name that is not registered fails as not found; a stop after a
/// start removes the name, so that no report of all services lists it.
pub proof fn law_stop_after_start(
    m: Map<Seq<char>, Status>,
    order: Seq<Seq<char>>,
    name: Seq<char>,
    token: u64,
    after: Registry,
)
    requires
        after.wf(),
        after@ == after_start(m, name, token).remove(name),
    ensures
        !m.contains_key(name) ==> reply_text(Command::Stop(name), m, order) == error_text(
            Error::NotFound,
        ),
        reply_text(Command::Stop(name), after_start(m, name, token), order) == Seq::<char>::empty(),
        !after@.contains_key(name),
        !after.order().contains(name),
{
    after.lemma_order();
}

/// A process that exits with status 0 is not respawned: the service is then
/// reported inactive with no pid, and no later spawn is recorded for it.
pub proof fn law_clean_exit_is_final(
    m: Map<Seq<char>, Status>,
    name: Seq<char>,
    token: u64,
    uptime_ms: u64,
    pid: u32,
)
    requires
        owns(m, name, token),
    ensures
        !respawns(m, name, token, true, uptime_ms),
        after_exit(m, name, token, true, uptime_ms)[name].pid == 0,
        after_exit(m, name, token, true, uptime_ms)[name].exit,
        after_spawn(after_exit(m, name, token, true, uptime_ms), name, token, pid) == after_exit(
            m,
            name,
            token,
            true,
            uptime_ms,
        ),
        status_line(name, after_exit(m, name, token, true, uptime_ms)[name]) == name + " 0 []"@,
{
    reveal_strlit(" 0 []");
    reveal_strlit(" ");
    reveal_strlit(" [");
    reveal_strlit("");
    reveal_strlit("]");
    assert(decimal(0) =~= seq!['0']);
    assert(status_line(name, after_exit(m, name, token, true, uptime_ms)[name]) =~= name
        + " 0 []"@);
}

/// A failure sooner than the minimum uptime is not respawned: the service is
/// reported inactive with no pid, and no later spawn is recorded for it.
pub proof fn law_early_failure_is_final(
    m: Map<Seq<char>, Status>,
    name: Seq<char>,
    token: u64,
    uptime_ms: u64,
    pid: u32,
)
    requires
        owns(m, name, token),
        uptime_ms < MIN_UPTIME_MS,
    ensures
        !respawns(m, name, token, false, uptime_ms),
        after_exit(m, name, token, false, uptime_ms)[name].pid == 0,
        after_exit(m, name, token, false, uptime_ms)[name].exit,
        after_spawn(after_exit(m, name, token, false, uptime_ms), name, token, pid) == after_exit(
            m,
            name,
            token,
            false,
            uptime_ms,
        ),
{
}

/// A failure after the minimum uptime is respawned: the old pid is cleared,
/// the guardian keeps the entry, and the pid of the new process is recorded.
pub proof fn law_late_failure_respawns(
    m: Map<Seq<char>, Status>,
    name: Seq<char>,
    token: u64,
    uptime_ms: u64,
    pid: u32,
)
    requires
        owns(m, name, token),
        uptime_ms >= MIN_UPTIME_MS,
    ensures
        respawns(m, name, token, false, uptime_ms),
        after_exit(m, name, token, false, uptime_ms)[name].pid == 0,
        owns(after_exit(m, name, token, false, uptime_ms), name, token),
        after_spawn(after_exit(m, name, token, false, uptime_ms), name, token, pid)[name].pid
            == pid,
{
}

/// A start of a registered name replaces its entry: the guardian of the old
/// entry no longer owns it, so nothing it reports changes the table and it
/// never respawns; only the new guardian's process can be recorded.
pub proof fn law_restart_replaces_guardian(
    m: Map<Seq<char>, Status>,
    name: Seq<char>,
    token: u64,
    old_token: u64,
    pid: u32,
    success: bool,
    uptime_ms: u64,
)
    requires
        old_token != token,
    ensures
        !owns(after_start(m, name, token), name, old_token),
        after_spawn(after_start(m, name, token), name, old_token, pid) == after_start(
            m,
            name,
            token,
        ),
        after_exit(after_start(m, name, token), name, old_token, success, uptime_ms)
            == after_start(m, name, token),
        !respawns(after_start(m, name, token), name, old_token, success, uptime_ms),
        owns(after_start(m, name, token), name, token),
{
}

} // verus!
