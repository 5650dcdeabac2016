//! Text helpers on which the protocol and the parsers are built.
use vstd::prelude::*;

verus! {

/// The character of the decimal digit `d`.
pub open spec fn digit_char(d: nat) -> char {
    if d == 0 { '0' }
    else if d == 1 { '1' }
    else if d == 2 { '2' }
    else if d == 3 { '3' }
    else if d == 4 { '4' }
    else if d == 5 { '5' }
    else if d == 6 { '6' }
    else if d == 7 { '7' }
    else if d == 8 { '8' }
    else { '9' }
}

/// The decimal representation of `n`, most significant digit first, without
/// leading zeros ("0" for zero).
pub open spec fn decimal(n: nat) -> Seq<char>
    decreases n,
{
    if n < 10 {
        seq![digit_char(n)]
    } else {
        decimal(n / 10).push(digit_char(n % 10))
    }
}

fn digit_text(d: u32) -> (r: &'static str)
    requires
        d < 10,
    ensures
        r@ == seq![digit_char(d as nat)],
{
    proof {
        reveal_strlit("0");
        reveal_strlit("1");
        reveal_strlit("2");
        reveal_strlit("3");
        reveal_strlit("4");
        reveal_strlit("5");
        reveal_strlit("6");
        reveal_strlit("7");
        reveal_strlit("8");
        reveal_strlit("9");
    }
    let r = if d == 0 { "0" }
    else if d == 1 { "1" }
    else if d == 2 { "2" }
    else if d == 3 { "3" }
    else if d == 4 { "4" }
    else if d == 5 { "5" }
    else if d == 6 { "6" }
    else if d == 7 { "7" }
    else if d == 8 { "8" }
    else { "9" };
    assert(r@ =~= seq![digit_char(d as nat)]);
    r
}

/// Appends the decimal representation of `n` to `out`.
pub fn push_decimal(out: &mut String, n: u32)
    ensures
        final(out)@ == old(out)@ + decimal(n as nat),
    decreases n,
{
    if n >= 10 {
        push_decimal(out, n / 10);
    }
    out.append(digit_text(n % 10));
    assert(final(out)@ =~= old(out)@ + decimal(n as nat));
}

/// What a scan over a text looks for.
pub ghost enum Scan {
    /// The given character.
    Char(char),
    /// White space.
    Space,
    /// Anything but white space.
    NonSpace,
}

/// Whether the scan `k` stops at `x`.
pub open spec fn hits(k: Scan, x: char) -> bool {
    match k {
        Scan::Char(c) => x == c,
        Scan::Space => is_space(x),
        Scan::NonSpace => !is_space(x),
    }
}

/// The first index at or after `i` where the scan `k` stops, or the length of
/// `s` where it stops nowhere.
pub open spec fn first_from(s: Seq<char>, i: int, k: Scan) -> int
    decreases s.len() - i,
{
    if i >= s.len() {
        s.len() as int
    } else if hits(k, s[i]) {
        i
    } else {
        first_from(s, i + 1, k)
    }
}

/// Whether `c` is white space in the sense of Unicode's White_Space property.
pub open spec fn is_space(c: char) -> bool {
    let v = c as u32;
    (0x9 <= v <= 0xd) || v == 0x20 || v == 0x85 || v == 0xa0 || v == 0x1680 || (0x2000 <= v
        <= 0x200a) || v == 0x2028 || v == 0x2029 || v == 0x202f || v == 0x205f || v == 0x3000
}

/// The first index at or after `i` that holds `c`, or the length.
pub open spec fn index_from(s: Seq<char>, c: char, i: int) -> int {
    first_from(s, i, Scan::Char(c))
}

/// The first index at or after `i` that holds white space, or the length.
pub open spec fn space_from(s: Seq<char>, i: int) -> int {
    first_from(s, i, Scan::Space)
}

/// The first index at or after `i` that holds no white space, or the length.
pub open spec fn non_space_from(s: Seq<char>, i: int) -> int {
    first_from(s, i, Scan::NonSpace)
}

/// `t` without its leading white space.
pub open spec fn trim_start(t: Seq<char>) -> Seq<char>
    decreases t.len(),
{
    if t.len() > 0 && is_space(t[0]) {
        trim_start(t.drop_first())
    } else {
        t
    }
}

/// `t` without its trailing white space.
pub open spec fn trim_end(t: Seq<char>) -> Seq<char>
    decreases t.len(),
{
    if t.len() > 0 && is_space(t.last()) {
        trim_end(t.drop_last())
    } else {
        t
    }
}

/// `t` without its leading and trailing white space.
pub open spec fn trim(t: Seq<char>) -> Seq<char> {
    trim_end(trim_start(t))
}

/// The index found by `first_from` lies between `i` and the length, and the scan
/// stops at no character before it.
pub proof fn lemma_first_from(s: Seq<char>, i: int, k: Scan)
    requires
        0 <= i <= s.len(),
    ensures
        i <= first_from(s, i, k) <= s.len(),
        first_from(s, i, k) < s.len() ==> hits(k, s[first_from(s, i, k)]),
        forall|j: int| i <= j < first_from(s, i, k) ==> !hits(k, s[j]),
    decreases s.len() - i,
{
    if i < s.len() && !hits(k, s[i]) {
        lemma_first_from(s, i + 1, k);
    }
}

/// Whether `c` is white space.
pub fn space(c: char) -> (r: bool)
    ensures
        r == is_space(c),
{
    let v = c as u32;
    (0x9 <= v && v <= 0xd) || v == 0x20 || v == 0x85 || v == 0xa0 || v == 0x1680 || (0x2000 <= v
        && v <= 0x200a) || v == 0x2028 || v == 0x2029 || v == 0x202f || v == 0x205f || v == 0x3000
}

/// The first index at or after `from` that holds `c`, or the length.
pub fn find_char(s: &str, c: char, from: usize) -> (r: usize)
    requires
        from <= s@.len(),
    ensures
        r == index_from(s@, c, from as int),
{
    let n = s.unicode_len();
    let mut i = from;
    while i < n
        invariant
            n == s@.len(),
            from <= i <= n,
            index_from(s@, c, from as int) == index_from(s@, c, i as int),
        decreases n - i,
    {
        if s.get_char(i) == c {
            return i;
        }
        i += 1;
    }
    i
}

/// The first index at or after `from` that holds white space, or the length.
pub fn find_space(s: &str, from: usize) -> (r: usize)
    requires
        from <= s@.len(),
    ensures
        r == space_from(s@, from as int),
{
    let n = s.unicode_len();
    let mut i = from;
    while i < n
        invariant
            n == s@.len(),
            from <= i <= n,
            space_from(s@, from as int) == space_from(s@, i as int),
        decreases n - i,
    {
        if space(s.get_char(i)) {
            return i;
        }
        i += 1;
    }
    i
}

/// The first index at or after `from` that holds no white space, or the
/// length.
pub fn skip_space(s: &str, from: usize) -> (r: usize)
    requires
        from <= s@.len(),
    ensures
        r == non_space_from(s@, from as int),
{
    let n = s.unicode_len();
    let mut i = from;
    while i < n
        invariant
            n == s@.len(),
            from <= i <= n,
            non_space_from(s@, from as int) == non_space_from(s@, i as int),
        decreases n - i,
    {
        if !space(s.get_char(i)) {
            return i;
        }
        i += 1;
    }
    i
}

/// The characters of `s` from `from` to `to`, without leading and trailing
/// white space.
pub fn trimmed(s: &str, from: usize, to: usize) -> (r: String)
    requires
        from <= to <= s@.len(),
    ensures
        r@ == trim(s@.subrange(from as int, to as int)),
{
    let mut a = from;
    while a < to && space(s.get_char(a))
        invariant
            from <= a <= to <= s@.len(),
            trim_start(s@.subrange(from as int, to as int)) == trim_start(
                s@.subrange(a as int, to as int),
            ),
        decreases to - a,
    {
        assert(s@.subrange(a as int, to as int).drop_first() =~= s@.subrange(
            a as int + 1,
            to as int,
        ));
        a += 1;
    }
    let mut b = to;
    while a < b && space(s.get_char(b - 1))
        invariant
            a <= b <= to <= s@.len(),
            trim_end(s@.subrange(a as int, to as int)) == trim_end(
                s@.subrange(a as int, b as int),
            ),
        decreases b - a,
    {
        assert(s@.subrange(a as int, b as int).drop_last() =~= s@.subrange(
            a as int,
            b as int - 1,
        ));
        b -= 1;
    }
    String::from_str(s.substring_char(a, b))
}

} // verus!
