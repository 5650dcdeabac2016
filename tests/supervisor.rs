use daemon::definition::{auto_start, auto_start_list, command_of, definition};
use daemon::protocol::{daemon_exec, invocation, parse_request, Invocation, Request};
use daemon::registry::{start, status, status_all, stop, Error, Registry, Status, MIN_UPTIME_MS};
use daemon::text::{find_char, push_decimal, space, trimmed};

fn strings(items: &[&str]) -> Vec<String> {
    items.iter().map(|s| s.to_string()).collect()
}

#[test]
fn status_fails_until_started() {
    let mut reg = Registry::new();
    assert_eq!(status(&reg, "web"), Err(Error::NotFound));
    start(&mut reg, "web");
    assert_eq!(status(&reg, "web"), Ok("web 0 [*]".to_string()));
}

#[test]
fn stop_unknown_is_not_found() {
    let mut reg = Registry::new();
    assert_eq!(stop(&mut reg, "ghost"), Err(Error::NotFound));
}

#[test]
fn stop_after_start_removes_from_listing() {
    let mut reg = Registry::new();
    start(&mut reg, "a");
    start(&mut reg, "b");
    assert_eq!(status_all(&reg), "a 0 [*]\nb 0 [*]");
    assert_eq!(stop(&mut reg, "a"), Ok(0));
    assert_eq!(status_all(&reg), "b 0 [*]");
    assert_eq!(status(&reg, "a"), Err(Error::NotFound));
}

#[test]
fn stop_returns_pid_to_signal() {
    let mut reg = Registry::new();
    let l = start(&mut reg, "a");
    assert!(reg.record_spawn("a", l.token, 321));
    assert_eq!(status(&reg, "a"), Ok("a 321 [*]".to_string()));
    assert_eq!(stop(&mut reg, "a"), Ok(321));
    // the guardian learns that it no longer owns the entry
    assert!(!reg.record_exit("a", l.token, false, 5000));
}

#[test]
fn clean_exit_never_respawns() {
    let mut reg = Registry::new();
    let l = start(&mut reg, "job");
    assert!(reg.record_spawn("job", l.token, 77));
    assert!(!reg.record_exit("job", l.token, true, 5000));
    assert_eq!(status(&reg, "job"), Ok("job 0 []".to_string()));
    assert!(!reg.record_spawn("job", l.token, 78));
    assert_eq!(status(&reg, "job"), Ok("job 0 []".to_string()));
}

#[test]
fn early_failure_does_not_respawn() {
    let mut reg = Registry::new();
    let l = start(&mut reg, "crash");
    assert!(reg.record_spawn("crash", l.token, 10));
    assert!(!reg.record_exit("crash", l.token, false, MIN_UPTIME_MS - 1));
    assert_eq!(status(&reg, "crash"), Ok("crash 0 []".to_string()));
}

#[test]
fn spawn_failure_counts_as_early_failure() {
    let mut reg = Registry::new();
    let l = start(&mut reg, "missing");
    assert!(!reg.record_exit("missing", l.token, false, 0));
    assert_eq!(status(&reg, "missing"), Ok("missing 0 []".to_string()));
}

#[test]
fn late_failure_respawns_with_new_pid() {
    let mut reg = Registry::new();
    let l = start(&mut reg, "flaky");
    assert!(reg.record_spawn("flaky", l.token, 10));
    assert!(reg.record_exit("flaky", l.token, false, MIN_UPTIME_MS));
    assert_eq!(status(&reg, "flaky"), Ok("flaky 0 [*]".to_string()));
    assert!(reg.record_spawn("flaky", l.token, 11));
    assert_eq!(status(&reg, "flaky"), Ok("flaky 11 [*]".to_string()));
}

#[test]
fn restart_replaces_the_old_guardian() {
    let mut reg = Registry::new();
    let first = start(&mut reg, "svc");
    assert!(reg.record_spawn("svc", first.token, 500));
    let second = start(&mut reg, "svc");
    assert_eq!(second.previous, 500);
    assert_ne!(second.token, first.token);
    assert_eq!(status(&reg, "svc"), Ok("svc 0 [*]".to_string()));
    assert!(!reg.record_spawn("svc", first.token, 501));
    assert!(!reg.record_exit("svc", first.token, false, 5000));
    assert!(reg.record_spawn("svc", second.token, 502));
    assert_eq!(status(&reg, "svc"), Ok("svc 502 [*]".to_string()));
    assert_eq!(status_all(&reg), "svc 502 [*]");
}

#[test]
fn echoer_scenario() {
    let mut reg = Registry::new();
    let def = definition("echoer", "/bin/true\n").unwrap();
    assert_eq!(def.program, "/bin/true");
    assert!(def.args.is_empty());
    let reply = daemon_exec(&mut reg, "start/echoer");
    assert_eq!(reply.text, "");
    let l = reply.launch.unwrap();
    assert_eq!(l.name, "echoer");
    assert!(reg.record_spawn("echoer", l.token, 900));
    assert!(!reg.record_exit("echoer", l.token, true, 3));
    assert_eq!(daemon_exec(&mut reg, "status/echoer").text, "echoer 0 []");
    let reply = daemon_exec(&mut reg, "stop/echoer");
    assert_eq!(reply.text, "");
    assert_eq!(reply.signal, 0);
    assert_eq!(daemon_exec(&mut reg, "stop/echoer").text, "Bad find service");
}

#[test]
fn unknown_verb_is_invalid_parameter() {
    let mut reg = Registry::new();
    start(&mut reg, "keep");
    let reply = daemon_exec(&mut reg, "frobnicate/x");
    assert_eq!(reply.text, "Invalid parameter");
    assert!(!reply.shutdown);
    assert_eq!(reply.signal, 0);
    assert!(reply.launch.is_none());
    assert_eq!(status_all(&reg), "keep 0 [*]");
}

#[test]
fn request_without_separator_is_invalid() {
    let mut reg = Registry::new();
    assert_eq!(daemon_exec(&mut reg, "status").text, "Invalid parameter");
    assert_eq!(daemon_exec(&mut reg, "daemon/restart").text, "Invalid parameter");
    assert_eq!(daemon_exec(&mut reg, "").text, "Invalid parameter");
}

#[test]
fn daemon_stop_shuts_down_without_signals() {
    let mut reg = Registry::new();
    let l = start(&mut reg, "long");
    assert!(reg.record_spawn("long", l.token, 1234));
    let reply = daemon_exec(&mut reg, "daemon/stop");
    assert!(reply.shutdown);
    assert_eq!(reply.text, "");
    assert_eq!(reply.signal, 0);
    assert_eq!(status_all(&reg), "long 1234 [*]");
}

#[test]
fn daemon_status_lists_every_service() {
    let mut reg = Registry::new();
    assert_eq!(daemon_exec(&mut reg, "daemon/status").text, "");
    let a = start(&mut reg, "a");
    start(&mut reg, "b");
    assert!(reg.record_spawn("a", a.token, 12));
    assert_eq!(daemon_exec(&mut reg, "daemon/status").text, "a 12 [*]\nb 0 [*]");
}

#[test]
fn start_request_reports_previous_pid() {
    let mut reg = Registry::new();
    let first = daemon_exec(&mut reg, "start/x").launch.unwrap();
    assert!(reg.record_spawn("x", first.token, 42));
    let reply = daemon_exec(&mut reg, "start/x");
    assert_eq!(reply.signal, 42);
    assert!(reply.launch.unwrap().token != first.token);
}

#[test]
fn stop_request_reports_pid() {
    let mut reg = Registry::new();
    let l = daemon_exec(&mut reg, "start/x").launch.unwrap();
    assert!(reg.record_spawn("x", l.token, 42));
    let reply = daemon_exec(&mut reg, "stop/x");
    assert_eq!(reply.signal, 42);
    assert_eq!(reply.text, "");
    assert_eq!(daemon_exec(&mut reg, "status/x").text, "Bad find service");
}

#[test]
fn parse_request_splits_at_first_slash() {
    assert!(matches!(parse_request("start/a/b"), Request::Start(n) if n == "a/b"));
    assert!(matches!(parse_request("stop/"), Request::Stop(n) if n.is_empty()));
    assert!(matches!(parse_request("daemon/stop"), Request::DaemonStop));
    assert!(matches!(parse_request("daemon/status"), Request::DaemonStatus));
    assert!(matches!(parse_request("status/web"), Request::Status(n) if n == "web"));
    assert!(matches!(parse_request("nothing"), Request::Invalid));
}

#[test]
fn definition_stops_at_blank_or_comment() {
    let def = definition("echo", "  /bin/echo \r\n\thello world\n-n\n\nignored\n").unwrap();
    assert_eq!(def.name, "echo");
    assert_eq!(def.program, "/bin/echo");
    assert_eq!(def.args, strings(&["hello world", "-n"]));
    assert_eq!(command_of("/bin/sleep\n10\n# note\n20"), strings(&["/bin/sleep", "10"]));
    assert_eq!(command_of("a\n   \nb"), strings(&["a"]));
}

#[test]
fn empty_definition_is_unavailable() {
    assert!(matches!(definition("x", ""), Err(Error::DefinitionUnavailable)));
    assert!(matches!(definition("x", "# only a comment\n/bin/true"), Err(Error::DefinitionUnavailable)));
    assert_eq!(Error::DefinitionUnavailable.message(), "Bad service definition");
    assert_eq!(Error::NotFound.message(), "Bad find service");
}

#[test]
fn auto_start_list_stops_at_comment() {
    assert_eq!(auto_start_list(" a  b\n\tc #d e\n"), strings(&["a", "b", "c"]));
    assert_eq!(auto_start_list("x#y z"), strings(&["x#y", "z"]));
    assert!(auto_start_list("  \n ").is_empty());
}

#[test]
fn auto_start_starts_each_listed_service() {
    let mut reg = Registry::new();
    let launches = auto_start(&mut reg, "one two\none");
    assert_eq!(launches.len(), 3);
    assert_eq!(launches[0].name, "one");
    assert_eq!(launches[1].name, "two");
    assert_eq!(launches[2].name, "one");
    assert_eq!(launches[0].token + 2, launches[2].token);
    assert_eq!(status_all(&reg), "two 0 [*]\none 0 [*]");
    assert!(!reg.record_spawn("one", launches[0].token, 5));
    assert!(reg.record_spawn("one", launches[2].token, 6));
}

#[test]
fn command_line_modes() {
    assert!(matches!(invocation(&strings(&["prog"])), Invocation::Daemon));
    assert!(matches!(invocation(&strings(&["prog", "status"])), Invocation::Client(t) if t == "daemon/status"));
    assert!(matches!(invocation(&strings(&["prog", "start", "web"])), Invocation::Client(t) if t == "start/web"));
    assert!(matches!(invocation(&strings(&["prog", "a", "b", "c"])), Invocation::Usage));
    assert!(matches!(invocation(&strings(&[])), Invocation::Usage));
}

#[test]
fn decimal_rendering() {
    let mut s = String::from("pid ");
    push_decimal(&mut s, 0);
    assert_eq!(s, "pid 0");
    let mut s = String::new();
    push_decimal(&mut s, 4294967295);
    assert_eq!(s, "4294967295");
    let mut s = String::new();
    push_decimal(&mut s, 1020);
    assert_eq!(s, "1020");
}

#[test]
fn text_scanning() {
    assert_eq!(find_char("ab/cd/e", '/', 0), 2);
    assert_eq!(find_char("ab/cd/e", '/', 3), 5);
    assert_eq!(find_char("abc", '/', 0), 3);
    assert!(space('\u{3000}'));
    assert!(space('\t'));
    assert!(!space('x'));
    assert_eq!(trimmed("  x y \u{a0}", 0, 7), "x y");
    assert_eq!(trimmed("   ", 0, 3), "");
}

#[test]
fn status_new_is_active_without_process() {
    let s = Status::new();
    assert_eq!(s.pid, 0);
    assert!(!s.exit);
    assert_eq!(Registry::new().starts_left(), u64::MAX);
}
