//! The table of registered services and the decisions taken on it: starting,
//! stopping and reporting services, and the restart policy applied when a
//! guardian reports that its process was spawned or has exited.
use vstd::prelude::*;
use crate::text::{decimal, push_decimal};

verus! {

/// Least time, in milliseconds, that a run must have lasted for a failed exit
/// to be followed by a new run.
pub const MIN_UPTIME_MS: u64 = 1000;

/// The runtime state of one registered service.
#[derive(Clone, Copy, Debug)]
pub struct Status {
    /// Process id of the child that the guardian owns, 0 while there is none.
    pub pid: u32,
    /// Set once the service has ended for good: it is then reported inactive.
    pub exit: bool,
    /// The guardian task that may update this entry.
    pub guardian: u64,
}

impl Status {
    /// A fresh state: no process yet, active.
    pub fn new() -> (r: Status)
        ensures
            r.pid == 0,
            !r.exit,
            r.guardian == 0,
    {
        Status { pid: 0, exit: false, guardian: 0 }
    }
}

/// The failures that a request on the registry can meet.
#[derive(Clone, Copy, Debug, PartialEq, Eq, Structural)]
pub enum Error {
    /// No service of that name is registered.
    NotFound,
    /// The definition of a service names no program.
    DefinitionUnavailable,
}

/// The text by which an error is reported to a client.
pub open spec fn error_text(e: Error) -> Seq<char> {
    match e {
        Error::NotFound => "Bad find service"@,
        Error::DefinitionUnavailable => "Bad service definition"@,
    }
}

impl Error {
    /// The text by which this error is reported to a client.
    pub fn message(&self) -> (r: String)
        ensures
            r@ == error_text(*self),
    {
        match self {
            Error::NotFound => String::from_str("Bad find service"),
            Error::DefinitionUnavailable => String::from_str("Bad service definition"),
        }
    }
}

/// The report line of one service: its name, its pid, and `*` between the
/// brackets while it is active.
pub open spec fn status_line(name: Seq<char>, s: Status) -> Seq<char> {
    name + " "@ + decimal(s.pid as nat) + " ["@ + (if s.exit { ""@ } else { "*"@ }) + "]"@
}

/// The report lines of the services `names`, in that order, joined by newlines.
pub open spec fn listing(names: Seq<Seq<char>>, m: Map<Seq<char>, Status>) -> Seq<char>
    decreases names.len(),
{
    if names.len() == 0 {
        seq![]
    } else if names.len() == 1 {
        status_line(names[0], m[names[0]])
    } else {
        listing(names.drop_last(), m) + "\n"@ + status_line(names.last(), m[names.last()])
    }
}

/// Whether the guardian `token` still owns the live entry of `name`.
pub open spec fn owns(m: Map<Seq<char>, Status>, name: Seq<char>, token: u64) -> bool {
    &&& m.contains_key(name)
    &&& m[name].guardian == token
    &&& !m[name].exit
}

/// The table after a start of `name` whose new entry accepts the guardian
/// `token`: the entry has no process yet and is active.
pub open spec fn after_start(m: Map<Seq<char>, Status>, name: Seq<char>, token: u64) -> Map<
    Seq<char>,
    Status,
> {
    m.insert(name, (Status { pid: 0, exit: false, guardian: token }))
}

/// The table after the guardian `token` of `name` reported the process `pid`.
pub open spec fn after_spawn(m: Map<Seq<char>, Status>, name: Seq<char>, token: u64, pid: u32) -> Map<
    Seq<char>,
    Status,
> {
    if owns(m, name, token) {
        m.insert(name, (Status { pid, exit: false, guardian: token }))
    } else {
        m
    }
}

/// Whether the guardian `token` of `name` spawns again after its process
/// exited, `success` telling whether with status 0, after `uptime_ms`
/// milliseconds: only while it owns the entry, after a failure that came late
/// enough.
pub open spec fn respawns(
    m: Map<Seq<char>, Status>,
    name: Seq<char>,
    token: u64,
    success: bool,
    uptime_ms: u64,
) -> bool {
    owns(m, name, token) && !success && uptime_ms >= MIN_UPTIME_MS
}

/// The table after the guardian `token` of `name` reported that its process
/// exited: the pid is cleared, and the service ends for good unless it
/// respawns.
pub open spec fn after_exit(
    m: Map<Seq<char>, Status>,
    name: Seq<char>,
    token: u64,
    success: bool,
    uptime_ms: u64,
) -> Map<Seq<char>, Status> {
    if owns(m, name, token) {
        m.insert(
            name,
            (Status { pid: 0, exit: !respawns(m, name, token, success, uptime_ms), guardian: token }),
        )
    } else {
        m
    }
}

/// What a start hands to the caller: the process of the replaced entry, to be
/// signalled, and the guardian to launch.
pub struct Launch {
    /// The service to guard.
    pub name: String,
    /// The guardian token that the new entry accepts.
    pub token: u64,
    /// Pid of the process of the replaced entry, 0 if there is none.
    pub previous: u32,
}

/// The service table: each registered name with its runtime state.
pub struct Registry {
    names: Vec<String>,
    states: Vec<Status>,
    next_guardian: u64,
    model: Ghost<Map<Seq<char>, Status>>,
}

impl View for Registry {
    type V = Map<Seq<char>, Status>;

    closed spec fn view(&self) -> Map<Seq<char>, Status> {
        self.model@
    }
}

impl Registry {
    /// The registered names, in the order in which they are reported.
    pub closed spec fn order(&self) -> Seq<Seq<char>> {
        self.names@.map_values(|s: String| s@)
    }

    /// How many guardian tokens have been handed out; every entry holds a
    /// smaller one.
    pub closed spec fn issued(&self) -> nat {
        self.next_guardian as nat
    }

    /// Well-formedness: the names are distinct, the map holds exactly the
    /// listed names with their states, and every entry's guardian token was
    /// handed out already.
    pub closed spec fn wf(&self) -> bool {
        &&& self.names.len() == self.states.len()
        &&& forall|i: int, j: int|
            0 <= i < j < self.names.len() ==> self.names[i]@ != self.names[j]@
        &&& forall|i: int|
            0 <= i < self.names.len() ==> self.model@.contains_key(#[trigger] self.names[i]@)
                && self.model@[self.names[i]@] == self.states[i]
        &&& forall|k: Seq<char>| #[trigger]
            self.model@.contains_key(k) ==> exists|i: int|
                0 <= i < self.names.len() && self.names[i]@ == k
        &&& forall|k: Seq<char>| #[trigger]
            self.model@.contains_key(k) ==> self.model@[k].guardian < self.next_guardian
    }

    /// An empty registry.
    pub fn new() -> (r: Registry)
        ensures
            r.wf(),
            r@ == Map::<Seq<char>, Status>::empty(),
            r.order() == Seq::<Seq<char>>::empty(),
            r.issued() == 0,
    {
        let r = Registry {
            names: Vec::new(),
            states: Vec::new(),
            next_guardian: 0,
            model: Ghost(Map::empty()),
        };
        assert(r.order() =~= Seq::<Seq<char>>::empty());
        r
    }

    /// How many more guardian tokens can be handed out.
    pub fn starts_left(&self) -> (r: u64)
        ensures
            r == u64::MAX - self.issued(),
    {
        u64::MAX - self.next_guardian
    }

    /// The registered names are those of the map, each once.
    pub proof fn lemma_order(&self)
        requires
            self.wf(),
        ensures
            self.order().no_duplicates(),
            forall|k: Seq<char>| self.order().contains(k) <==> self@.contains_key(k),
    {
        assert forall|k: Seq<char>| self.order().contains(k) <==> self@.contains_key(k) by {
            if self@.contains_key(k) {
                let i = choose|i: int| 0 <= i < self.names.len() && self.names[i]@ == k;
                assert(self.order()[i] == k);
            }
        }
    }

    fn replace_state(&mut self, i: usize, st: Status)
        requires
            old(self).wf(),
            i < old(self).names.len(),
            st.guardian < old(self).next_guardian,
        ensures
            final(self).wf(),
            final(self).issued() == old(self).issued(),
            final(self).order() == old(self).order(),
            final(self)@ == old(self)@.insert(old(self).names[i as int]@, st),
    {
        let ghost key = self.names[i as int]@;
        let ghost m = self.model@;
        self.states[i] = st;
        self.model = Ghost(m.insert(key, st));
        proof {
            assert forall|j: int| 0 <= j < self.names.len() implies self.model@.contains_key(
                #[trigger] self.names[j]@) && self.model@[self.names[j]@] == self.states[j] by {
                if j != i {
                    assert(self.names[j]@ != key);
                }
            }
            assert forall|k: Seq<char>| #[trigger] self.model@.contains_key(k) implies exists|j: int|
                0 <= j < self.names.len() && self.names[j]@ == k by {
                if k == key {
                    assert(self.names[i as int]@ == k);
                } else {
                    assert(m.contains_key(k));
                    let j = choose|j: int| 0 <= j < old(self).names.len() && old(self).names[j]@ == k;
                    assert(self.names[j]@ == k);
                }
            }
        }
    }

    /// Reported by the guardian `token` of `name` once it has spawned the
    /// process `pid`. Where that guardian still owns the entry, the pid is
    /// recorded and the result is true; otherwise nothing changes and the
    /// result is false: the entry was stopped or replaced, and the caller ends
    /// the process, which no entry may own.
    pub fn record_spawn(&mut self, name: &str, token: u64, pid: u32) -> (r: bool)
        requires
            old(self).wf(),
            pid != 0,
        ensures
            final(self).wf(),
            final(self).issued() == old(self).issued(),
            final(self).order() == old(self).order(),
            r == owns(old(self)@, name@, token),
            final(self)@ == after_spawn(old(self)@, name@, token, pid),
    {
        let key = String::from_str(name);
        match self.find(&key) {
            None => false,
            Some(i) => {
                let cur = self.states[i];
                if cur.guardian == token && !cur.exit {
                    self.replace_state(i, Status { pid, exit: false, guardian: token });
                    true
                } else {
                    false
                }
            },
        }
    }

    /// Reported by the guardian `token` of `name` once its process has exited,
    /// `success` telling whether it exited with status 0, after a run of
    /// `uptime_ms` milliseconds. Where that guardian still owns the entry, the
    /// pid is cleared, and the result tells whether to spawn again: only after
    /// a failure that came late enough. A clean exit, or a failure that came
    /// too soon, ends the service for good: it is reported inactive. Where the
    /// guardian no longer owns the entry nothing changes and it does not spawn
    /// again.
    pub fn record_exit(&mut self, name: &str, token: u64, success: bool, uptime_ms: u64) -> (r:
        bool)
        requires
            old(self).wf(),
        ensures
            final(self).wf(),
            final(self).issued() == old(self).issued(),
            final(self).order() == old(self).order(),
            r == respawns(old(self)@, name@, token, success, uptime_ms),
            final(self)@ == after_exit(old(self)@, name@, token, success, uptime_ms),
    {
        let key = String::from_str(name);
        match self.find(&key) {
            None => false,
            Some(i) => {
                let cur = self.states[i];
                if cur.guardian == token && !cur.exit {
                    let again = !success && uptime_ms >= MIN_UPTIME_MS;
                    self.replace_state(i, Status { pid: 0, exit: !again, guardian: token });
                    again
                } else {
                    false
                }
            },
        }
    }

    fn find(&self, name: &String) -> (r: Option<usize>)
        requires
            self.wf(),
        ensures
            match r {
                Some(i) => i < self.names.len() && self.names[i as int]@ == name@
                    && self@.contains_key(name@),
                None => !self@.contains_key(name@),
            },
    {
        let mut i: usize = 0;
        while i < self.names.len()
            invariant
                self.wf(),
                i <= self.names.len(),
                forall|j: int| 0 <= j < i ==> self.names[j]@ != name@,
            decreases self.names.len() - i,
        {
            if self.names[i] == *name {
                return Some(i);
            }
            i += 1;
        }
        None
    }
}

/// Removes the entry of `name`. The result is the pid of the process that the
/// entry owned, which the caller signals to terminate (0: there is none).
pub fn stop(stack: &mut Registry, name: &str) -> (r: Result<u32, Error>)
    requires
        old(stack).wf(),
    ensures
        final(stack).wf(),
        final(stack).issued() == old(stack).issued(),
        old(stack)@.contains_key(name@) ==> r == Ok::<u32, Error>(old(stack)@[name@].pid)
            && final(stack)@ == old(stack)@.remove(name@),
        !old(stack)@.contains_key(name@) ==> r == Err::<u32, Error>(Error::NotFound)
            && final(stack)@ == old(stack)@,
{
    let key = String::from_str(name);
    match stack.find(&key) {
        None => Err(Error::NotFound),
        Some(i) => {
            let ghost old_names = stack.names@;
            let ghost old_model = stack.model@;
            let _ = stack.names.remove(i);
            let st = stack.states.remove(i);
            stack.model = Ghost(old_model.remove(name@));
            proof {
                let n = stack.names@;
                assert forall|a: int, b: int| 0 <= a < b < n.len() implies n[a]@ != n[b]@ by {
                    let a0 = if a < i { a } else { a + 1 };
                    let b0 = if b < i { b } else { b + 1 };
                    assert(n[a] == old_names[a0] && n[b] == old_names[b0]);
                }
                assert forall|j: int| 0 <= j < n.len() implies stack.model@.contains_key(
                    #[trigger] n[j]@) && stack.model@[n[j]@] == stack.states[j] by {
                    let j0 = if j < i { j } else { j + 1 };
                    assert(n[j] == old_names[j0]);
                    assert(old_names[j0]@ != old_names[i as int]@);
                }
                assert forall|k: Seq<char>| #[trigger] stack.model@.contains_key(k) implies exists|
                    j: int,
                | 0 <= j < n.len() && n[j]@ == k by {
                    let j0 = choose|j0: int| 0 <= j0 < old_names.len() && old_names[j0]@ == k;
                    let j = if j0 < i { j0 } else { j0 - 1 };
                    assert(n[j] == old_names[j0]);
                }
            }
            Ok(st.pid)
        },
    }
}

/// Registers `name` afresh, first stopping the entry it had. The new entry has
/// no process yet, is active, and accepts only the guardian of a token never
/// handed out before.
pub fn start(stack: &mut Registry, name: &str) -> (r: Launch)
    requires
        old(stack).wf(),
        old(stack).issued() < u64::MAX,
    ensures
        final(stack).wf(),
        final(stack).issued() == old(stack).issued() + 1,
        r.name@ == name@,
        r.token == old(stack).issued(),
        r.previous == (if old(stack)@.contains_key(name@) { old(stack)@[name@].pid } else { 0 }),
        final(stack)@ == after_start(old(stack)@, name@, r.token),
{
    let ghost m0 = stack@;
    let previous = match stop(stack, name) {
        Ok(pid) => pid,
        Err(_) => 0,
    };
    let token = stack.next_guardian;
    let mut st = Status::new();
    st.guardian = token;
    let ghost old_names = stack.names@;
    let ghost mid = stack.model@;
    stack.names.push(String::from_str(name));
    stack.states.push(st);
    stack.next_guardian = token + 1;
    stack.model = Ghost(mid.insert(name@, st));
    proof {
        let n = stack.names@;
        assert forall|j: int| 0 <= j < old_names.len() implies n[j]@ != name@ by {
            assert(n[j] == old_names[j]);
            assert(mid.contains_key(old_names[j]@));
        }
        assert forall|j: int| 0 <= j < n.len() implies stack.model@.contains_key(#[trigger] n[j]@)
            && stack.model@[n[j]@] == stack.states[j] by {
            if j < old_names.len() {
                assert(n[j] == old_names[j]);
            }
        }
        assert forall|k: Seq<char>| #[trigger] stack.model@.contains_key(k) implies exists|j: int|
            0 <= j < n.len() && n[j]@ == k by {
            if k != name@ {
                let j = choose|j: int| 0 <= j < old_names.len() && old_names[j]@ == k;
                assert(n[j] == old_names[j]);
            } else {
                assert(n[n.len() - 1]@ == k);
            }
        }
        assert(stack.model@ =~= m0.insert(name@, st));
    }
    Launch { name: String::from_str(name), token, previous }
}

/// Appends the report line of `name` in state `s` to `out`.
fn push_status_line(out: &mut String, name: &str, s: Status)
    ensures
        final(out)@ == old(out)@ + status_line(name@, s),
{
    proof {
        reveal_strlit(" ");
        reveal_strlit(" [");
        reveal_strlit("*");
        reveal_strlit("");
        reveal_strlit("]");
    }
    out.append(name);
    out.append(" ");
    push_decimal(out, s.pid);
    out.append(" [");
    if s.exit {
        out.append("");
    } else {
        out.append("*");
    }
    out.append("]");
    assert(final(out)@ =~= old(out)@ + status_line(name@, s));
}

/// The report line of `name`, if it is registered.
pub fn status(stack: &Registry, name: &str) -> (r: Result<String, Error>)
    requires
        stack.wf(),
    ensures
        r is Ok <==> stack@.contains_key(name@),
        r matches Ok(line) ==> line@ == status_line(name@, stack@[name@]),
        r matches Err(e) ==> e == Error::NotFound,
{
    let key = String::from_str(name);
    match stack.find(&key) {
        None => Err(Error::NotFound),
        Some(i) => {
            let mut line = String::new();
            push_status_line(&mut line, name, stack.states[i]);
            Ok(line)
        },
    }
}

/// The report lines of all registered services, joined by newlines.
pub fn status_all(stack: &Registry) -> (r: String)
    requires
        stack.wf(),
    ensures
        r@ == listing(stack.order(), stack@),
{
    let mut out = String::new();
    let mut i: usize = 0;
    while i < stack.names.len()
        invariant
            stack.wf(),
            i <= stack.names.len(),
            out@ == listing(stack.order().take(i as int), stack@),
        decreases stack.names.len() - i,
    {
        let ghost before = out@;
        if i > 0 {
            proof { reveal_strlit("\n"); }
            out.append("\n");
        }
        let name = stack.names[i].as_str();
        let ghost prefix = stack.order().take(i as int + 1);
        assert(prefix.drop_last() =~= stack.order().take(i as int));
        assert(prefix.last() == stack.names[i as int]@);
        push_status_line(&mut out, name, stack.states[i]);
        i += 1;
        proof {
            if i == 1 {
                assert(before =~= seq![]);
                assert(out@ =~= listing(prefix, stack@));
            }
        }
    }
    assert(stack.order().take(stack.names.len() as int) =~= stack.order());
    out
}

} // verus!
