//! Service definitions and the list of services started with the daemon,
//! read from their text.
use vstd::prelude::*;
use crate::registry::{after_start, start, Error, Launch, Registry, Status};
use crate::text::{
    find_char, find_space, index_from, Scan, lemma_first_from, non_space_from, skip_space,
    space_from, trim, trimmed,
};

verus! {

/// What a service runs: a program and its arguments.
pub struct ServiceDefinition {
    pub name: String,
    pub program: String,
    pub args: Vec<String>,
}

#[via_fn]
proof fn command_lines_decreases(s: Seq<char>, i: int) {
    if 0 <= i < s.len() {
        lemma_first_from(s, i, Scan::Char('\n'));
        assert(i <= index_from(s, '\n', i) <= s.len());
    }
}

/// The command lines of a definition text, read from index `i`: each line
/// trimmed of white space, up to the first line that is blank or starts with
/// `#`, or the end of the text.
pub open spec fn command_lines(s: Seq<char>, i: int) -> Seq<Seq<char>>
    decreases s.len() + 1 - i,
    when 0 <= i
    via command_lines_decreases
{
    if i >= s.len() {
        seq![]
    } else {
        let e = index_from(s, '\n', i);
        let t = trim(s.subrange(i, e));
        if t.len() == 0 || t[0] == '#' {
            seq![]
        } else {
            seq![t] + command_lines(s, e + 1)
        }
    }
}

/// The command lines of the definition text `text`: the program, then its
/// arguments.
pub fn command_of(text: &str) -> (r: Vec<String>)
    ensures
        r@.map_values(|x: String| x@) == command_lines(text@, 0),
{
    let n = text.unicode_len();
    let mut out: Vec<String> = Vec::new();
    let mut i: usize = 0;
    while i < n
        invariant
            n == text@.len(),
            i <= n,
            command_lines(text@, 0) == out@.map_values(|x: String| x@) + command_lines(
                text@,
                i as int,
            ),
        decreases n - i,
    {
        let e = find_char(text, '\n', i);
        proof {
            lemma_first_from(text@, i as int, Scan::Char('\n'));
        }
        let line = trimmed(text, i, e);
        if line.unicode_len() == 0 || line.as_str().get_char(0) == '#' {
            assert(command_lines(text@, i as int) =~= seq![]);
            assert(out@.map_values(|x: String| x@) + seq![] =~= out@.map_values(|x: String| x@));
            return out;
        }
        let ghost before = out@;
        out.push(line);
        assert(out@.map_values(|x: String| x@) =~= before.map_values(|x: String| x@).push(
            line@,
        ));
        assert(command_lines(text@, i as int) == seq![line@] + command_lines(text@, e as int + 1));
        if e < n {
            i = e + 1;
        } else {
            assert(command_lines(text@, e as int + 1) =~= seq![]);
            assert(command_lines(text@, n as int) =~= seq![]);
            i = n;
        }
    }
    assert(command_lines(text@, i as int) =~= seq![]);
    assert(out@.map_values(|x: String| x@) + seq![] =~= out@.map_values(|x: String| x@));
    out
}

/// The definition of the service `name` from its text: the first command line
/// is the program, the others are its arguments. A text without a command
/// line defines nothing.
pub fn definition(name: &str, text: &str) -> (r: Result<ServiceDefinition, Error>)
    ensures
        r is Err <==> command_lines(text@, 0).len() == 0,
        r matches Err(e) ==> e == Error::DefinitionUnavailable,
        r matches Ok(d) ==> d.name@ == name@ && d.program@ == command_lines(text@, 0)[0]
            && d.args@.map_values(|x: String| x@) == command_lines(text@, 0).drop_first(),
{
    let mut lines = command_of(text);
    if lines.len() == 0 {
        return Err(Error::DefinitionUnavailable);
    }
    let ghost all = lines@;
    let program = lines.remove(0);
    assert(lines@.map_values(|x: String| x@) =~= all.map_values(|x: String| x@).drop_first());
    Ok(ServiceDefinition { name: String::from_str(name), program, args: lines })
}

#[via_fn]
proof fn auto_start_names_decreases(s: Seq<char>, i: int) {
    if 0 <= i <= s.len() {
        lemma_first_from(s, i, Scan::NonSpace);
        let a = non_space_from(s, i);
        if a < s.len() {
            lemma_first_from(s, a, Scan::Space);
            assert(space_from(s, a) > a);
        }
    }
}

/// The service names of an auto-start list, read from index `i`: the words
/// that white space separates, up to the first word that starts with `#`.
pub open spec fn auto_start_names(s: Seq<char>, i: int) -> Seq<Seq<char>>
    decreases s.len() + 1 - i,
    when 0 <= i <= s.len()
    via auto_start_names_decreases
{
    let a = non_space_from(s, i);
    if a >= s.len() {
        seq![]
    } else {
        let b = space_from(s, a);
        let t = s.subrange(a, b);
        if t[0] == '#' {
            seq![]
        } else {
            seq![t] + auto_start_names(s, b)
        }
    }
}

/// The registry after starting each of `names` in turn, with guardian tokens
/// from `token` on.
pub open spec fn apply_starts(
    m: Map<Seq<char>, Status>,
    names: Seq<Seq<char>>,
    token: nat,
) -> Map<Seq<char>, Status>
    decreases names.len(),
{
    if names.len() == 0 {
        m
    } else {
        let n = (names.len() - 1) as nat;
        after_start(apply_starts(m, names.drop_last(), token), names.last(), (token + n) as u64)
    }
}

/// The pid that `name` has in `m`, 0 if it is not there.
pub open spec fn pid_in(m: Map<Seq<char>, Status>, name: Seq<char>) -> u32 {
    if m.contains_key(name) {
        m[name].pid
    } else {
        0
    }
}

/// The service names of the auto-start list `text`.
pub fn auto_start_list(text: &str) -> (r: Vec<String>)
    ensures
        r@.map_values(|x: String| x@) == auto_start_names(text@, 0),
{
    let n = text.unicode_len();
    let mut out: Vec<String> = Vec::new();
    let mut i: usize = 0;
    while i < n
        invariant
            n == text@.len(),
            i <= n,
            auto_start_names(text@, 0) == out@.map_values(|x: String| x@) + auto_start_names(
                text@,
                i as int,
            ),
        decreases n - i,
    {
        let a = skip_space(text, i);
        proof {
            lemma_first_from(text@, i as int, Scan::NonSpace);
        }
        if a >= n {
            assert(auto_start_names(text@, i as int) =~= seq![]);
            assert(out@.map_values(|x: String| x@) + seq![] =~= out@.map_values(|x: String| x@));
            return out;
        }
        let b = find_space(text, a);
        proof {
            lemma_first_from(text@, a as int, Scan::Space);
        }
        if text.get_char(a) == '#' {
            assert(auto_start_names(text@, i as int) =~= seq![]);
            assert(out@.map_values(|x: String| x@) + seq![] =~= out@.map_values(|x: String| x@));
            return out;
        }
        let word = String::from_str(text.substring_char(a, b));
        let ghost before = out@;
        out.push(word);
        assert(out@.map_values(|x: String| x@) =~= before.map_values(|x: String| x@).push(
            word@,
        ));
        assert(auto_start_names(text@, i as int) == seq![word@] + auto_start_names(text@, b as int));
        i = b;
    }
    proof {
        lemma_first_from(text@, i as int, Scan::NonSpace);
    }
    assert(auto_start_names(text@, i as int) =~= seq![]);
    assert(out@.map_values(|x: String| x@) + seq![] =~= out@.map_values(|x: String| x@));
    out
}

/// Starts each service of the auto-start list `text`, in order. The result
/// holds what each start handed back.
pub fn auto_start(stack: &mut Registry, text: &str) -> (r: Vec<Launch>)
    requires
        old(stack).wf(),
        old(stack).issued() + text@.len() < u64::MAX,
    ensures
        final(stack).wf(),
        r.len() == auto_start_names(text@, 0).len(),
        final(stack).issued() == old(stack).issued() + r.len(),
        final(stack)@ == apply_starts(old(stack)@, auto_start_names(text@, 0), old(stack).issued()),
        forall|i: int|
            0 <= i < r.len() ==> {
                let names = auto_start_names(text@, 0);
                &&& (#[trigger] r[i]).name@ == names[i]
                &&& r[i].token == old(stack).issued() + i
                &&& r[i].previous == pid_in(
                    apply_starts(old(stack)@, names.take(i), old(stack).issued()),
                    names[i],
                )
            },
{
    let names = auto_start_list(text);
    let ghost want = auto_start_names(text@, 0);
    proof {
        lemma_auto_start_names_len(text@, 0);
    }
    let ghost m0 = stack@;
    let ghost t0 = stack.issued();
    let mut out: Vec<Launch> = Vec::new();
    let mut i: usize = 0;
    while i < names.len()
        invariant
            stack.wf(),
            want == names@.map_values(|x: String| x@),
            want.len() <= text@.len(),
            t0 + text@.len() < u64::MAX,
            i <= names.len(),
            out.len() == i,
            stack.issued() == t0 + i,
            stack@ == apply_starts(m0, want.take(i as int), t0),
            forall|j: int|
                0 <= j < i ==> {
                    &&& (#[trigger] out[j]).name@ == want[j]
                    &&& out[j].token == t0 + j
                    &&& out[j].previous == pid_in(apply_starts(m0, want.take(j), t0), want[j])
                },
        decreases names.len() - i,
    {
        let launch = start(stack, names[i].as_str());
        proof {
            assert(want.take(i as int + 1).drop_last() =~= want.take(i as int));
        }
        out.push(launch);
        i += 1;
    }
    assert(want.take(i as int) =~= want);
    out
}

/// An auto-start list names no more services than it has characters.
pub proof fn lemma_auto_start_names_len(s: Seq<char>, i: int)
    requires
        0 <= i <= s.len(),
    ensures
        auto_start_names(s, i).len() <= s.len() - i,
    decreases s.len() + 1 - i,
{
    lemma_first_from(s, i, Scan::NonSpace);
    let a = non_space_from(s, i);
    if a < s.len() {
        lemma_first_from(s, a, Scan::Space);
        let b = space_from(s, a);
        if s[a] != '#' {
            lemma_auto_start_names_len(s, b);
        }
    }
}

} // verus!
