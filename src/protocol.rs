//! The control protocol: requests of the form `verb/argument`, the reply that
//! the daemon gives to each, and the command line that turns into a request.
use vstd::prelude::*;
use crate::registry::{
    after_start, error_text, listing, start, status, status_all, status_line, stop, Error, Launch, Registry,
    Status,
};
use crate::text::{find_char, index_from, lemma_first_from, Scan};

verus! {

/// A request, as the daemon understands it.
pub ghost enum Command {
    /// End the daemon's accept loop.
    DaemonStop,
    /// Report every registered service.
    DaemonStatus,
    /// Report one service.
    Status(Seq<char>),
    /// Start (or restart) one service.
    Start(Seq<char>),
    /// Stop one service.
    Stop(Seq<char>),
    /// Anything else.
    Invalid,
}

/// A parsed request.
pub enum Request {
    DaemonStop,
    DaemonStatus,
    Status(String),
    Start(String),
    Stop(String),
    Invalid,
}

impl View for Request {
    type V = Command;

    open spec fn view(&self) -> Command {
        match self {
            Request::DaemonStop => Command::DaemonStop,
            Request::DaemonStatus => Command::DaemonStatus,
            Request::Status(n) => Command::Status(n@),
            Request::Start(n) => Command::Start(n@),
            Request::Stop(n) => Command::Stop(n@),
            Request::Invalid => Command::Invalid,
        }
    }
}

/// The command that the request text `s` asks for: the text splits at its
/// first `/` into a verb and an argument.
pub open spec fn command_of(s: Seq<char>) -> Command {
    let k = index_from(s, '/', 0);
    if k >= s.len() {
        Command::Invalid
    } else {
        let verb = s.take(k);
        let arg = s.skip(k + 1);
        if verb == "daemon"@ && arg == "stop"@ {
            Command::DaemonStop
        } else if verb == "daemon"@ && arg == "status"@ {
            Command::DaemonStatus
        } else if verb == "status"@ {
            Command::Status(arg)
        } else if verb == "start"@ {
            Command::Start(arg)
        } else if verb == "stop"@ {
            Command::Stop(arg)
        } else {
            Command::Invalid
        }
    }
}

/// Parses the request text `text`.
pub fn parse_request(text: &str) -> (r: Request)
    ensures
        r@ == command_of(text@),
{
    let n = text.unicode_len();
    let k = find_char(text, '/', 0);
    proof {
        lemma_first_from(text@, 0, Scan::Char('/'));
    }
    if k >= n {
        return Request::Invalid;
    }
    let verb = String::from_str(text.substring_char(0, k));
    let arg = String::from_str(text.substring_char(k + 1, n));
    assert(verb@ =~= text@.take(k as int));
    assert(arg@ =~= text@.skip(k as int + 1));
    let daemon = String::from_str("daemon");
    if verb == daemon && arg == String::from_str("stop") {
        Request::DaemonStop
    } else if verb == daemon && arg == String::from_str("status") {
        Request::DaemonStatus
    } else if verb == String::from_str("status") {
        Request::Status(arg)
    } else if verb == String::from_str("start") {
        Request::Start(arg)
    } else if verb == String::from_str("stop") {
        Request::Stop(arg)
    } else {
        Request::Invalid
    }
}

/// What the daemon does for one request.
pub struct Reply {
    /// The text written back to the client.
    pub text: String,
    /// Whether the accept loop ends after this request.
    pub shutdown: bool,
    /// Pid of a process to signal to terminate, 0 for none.
    pub signal: u32,
    /// The guardian to launch, after the signal.
    pub launch: Option<Launch>,
}

/// The text of the reply to `c` on the registry `m`, whose names are reported
/// in the order `order`.
pub open spec fn reply_text(c: Command, m: Map<Seq<char>, Status>, order: Seq<Seq<char>>) -> Seq<
    char,
> {
    match c {
        Command::DaemonStop => seq![],
        Command::DaemonStatus => listing(order, m),
        Command::Status(n) => if m.contains_key(n) {
            status_line(n, m[n])
        } else {
            error_text(Error::NotFound)
        },
        Command::Start(_) => seq![],
        Command::Stop(n) => if m.contains_key(n) {
            seq![]
        } else {
            error_text(Error::NotFound)
        },
        Command::Invalid => "Invalid parameter"@,
    }
}

/// Carries out the request text `request` on the registry.
pub fn daemon_exec(stack: &mut Registry, request: &str) -> (r: Reply)
    requires
        old(stack).wf(),
        old(stack).issued() < u64::MAX,
    ensures
        final(stack).wf(),
        r.text@ == reply_text(command_of(request@), old(stack)@, old(stack).order()),
        r.shutdown == (command_of(request@) == Command::DaemonStop),
        match command_of(request@) {
            Command::Start(n) => {
                &&& final(stack)@ == after_start(old(stack)@, n, old(stack).issued() as u64)
                &&& final(stack).issued() == old(stack).issued() + 1
                &&& r.launch matches Some(l) && l.name@ == n && l.token == old(stack).issued()
                &&& r.signal == (if old(stack)@.contains_key(n) { old(stack)@[n].pid } else { 0 })
            },
            Command::Stop(n) => {
                &&& final(stack)@ == old(stack)@.remove(n)
                &&& final(stack).issued() == old(stack).issued()
                &&& r.launch is None
                &&& r.signal == (if old(stack)@.contains_key(n) { old(stack)@[n].pid } else { 0 })
            },
            _ => {
                &&& final(stack)@ == old(stack)@
                &&& final(stack).issued() == old(stack).issued()
                &&& r.launch is None
                &&& r.signal == 0
            },
        },
{
    proof {
        reveal_strlit("Invalid parameter");
    }
    let ghost before = *stack;
    match parse_request(request) {
        Request::DaemonStop => Reply {
            text: String::new(),
            shutdown: true,
            signal: 0,
            launch: None,
        },
        Request::DaemonStatus => Reply {
            text: status_all(stack),
            shutdown: false,
            signal: 0,
            launch: None,
        },
        Request::Status(name) => {
            let text = match status(stack, name.as_str()) {
                Ok(line) => line,
                Err(e) => e.message(),
            };
            Reply { text, shutdown: false, signal: 0, launch: None }
        },
        Request::Start(name) => {
            let launch = start(stack, name.as_str());
            Reply { text: String::new(), shutdown: false, signal: launch.previous, launch: Some(launch) }
        },
        Request::Stop(name) => match stop(stack, name.as_str()) {
            Ok(pid) => Reply { text: String::new(), shutdown: false, signal: pid, launch: None },
            Err(e) => Reply { text: e.message(), shutdown: false, signal: 0, launch: None },
        },
        Request::Invalid => Reply {
            text: String::from_str("Invalid parameter"),
            shutdown: false,
            signal: 0,
            launch: None,
        },
    }
}

/// What the program does, given its command line.
pub enum Invocation {
    /// Run the daemon.
    Daemon,
    /// Send this request text to the daemon and print the reply.
    Client(String),
    /// The command line has the wrong number of arguments.
    Usage,
}

/// The request that a client sends for `verb` and `argument`.
pub open spec fn request_text(verb: Seq<char>, argument: Seq<char>) -> Seq<char> {
    verb + "/"@ + argument
}

/// Decides the mode from the command line `args`, the program's own name
/// first: no further argument runs the daemon, one argument `x` sends
/// `daemon/x`, two arguments `x y` send `x/y`.
pub fn invocation(args: &Vec<String>) -> (r: Invocation)
    ensures
        args.len() == 1 <==> r is Daemon,
        args.len() == 2 ==> (r matches Invocation::Client(t) && t@ == request_text(
            "daemon"@,
            args[1]@,
        )),
        args.len() == 3 ==> (r matches Invocation::Client(t) && t@ == request_text(
            args[1]@,
            args[2]@,
        )),
        (args.len() == 0 || args.len() > 3) <==> r is Usage,
{
    if args.len() == 1 {
        Invocation::Daemon
    } else if args.len() == 2 {
        proof {
            reveal_strlit("daemon");
            reveal_strlit("/");
        }
        let mut t = String::from_str("daemon");
        t.append("/");
        t.append(args[1].as_str());
        Invocation::Client(t)
    } else if args.len() == 3 {
        proof {
            reveal_strlit("/");
        }
        let mut t = args[1].clone();
        t.append("/");
        t.append(args[2].as_str());
        Invocation::Client(t)
    } else {
        Invocation::Usage
    }
}

} // verus!
