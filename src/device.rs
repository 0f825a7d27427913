use vstd::prelude::*;

use crate::numtext::{all_digits, decimal_split, decimal_units, digits_value, fraction_digits, is_digit, lemma_split_unique, parse_fixed, parsed_fixed, pow10};

verus! {

/// How many times choosing an output device is tried before giving up.
pub const SETUP_ATTEMPTS: usize = 3;

/// How an output device is chosen among `n` available ports.
#[derive(Debug, Clone, Copy, PartialEq, Eq, Structural)]
pub enum PortChoice {
    /// there is none to choose
    NoPort,
    /// the only one is taken
    Only,
    /// the operator is asked
    Ask,
}

pub fn port_choice(n_ports: usize) -> (r: PortChoice)
    ensures
        n_ports == 0 ==> r == PortChoice::NoPort,
        n_ports == 1 ==> r == PortChoice::Only,
        n_ports > 1 ==> r == PortChoice::Ask,
{
    if n_ports == 0 {
        PortChoice::NoPort
    } else if n_ports == 1 {
        PortChoice::Only
    } else {
        PortChoice::Ask
    }
}

/// Whether another attempt is made after `failures` failed ones.
pub fn retry_allowed(failures: usize) -> (r: bool)
    ensures
        r == (failures < SETUP_ATTEMPTS),
{
    failures < SETUP_ATTEMPTS
}

pub open spec fn is_space(c: char) -> bool {
    c == ' ' || c == '\t' || c == '\n' || c == '\r'
}

/// `s` without its leading spaces, tabs and line ends.
pub open spec fn trim_start(s: Seq<char>) -> Seq<char>
    decreases s.len(),
{
    if s.len() > 0 && is_space(s[0]) {
        trim_start(s.drop_first())
    } else {
        s
    }
}

/// `s` without its trailing spaces, tabs and line ends.
pub open spec fn trim_end(s: Seq<char>) -> Seq<char>
    decreases s.len(),
{
    if s.len() > 0 && is_space(s.last()) {
        trim_end(s.drop_last())
    } else {
        s
    }
}

/// The port that the operator's answer `s` selects among `n` ports: the answer, less
/// surrounding blanks, must be the decimal digits of an index below `n`.
pub open spec fn selected_port(s: Seq<char>, n: nat) -> Option<usize> {
    let t = trim_end(trim_start(s));
    if t.len() > 0 && all_digits(t) && digits_value(t) < n {
        Some(digits_value(t) as usize)
    } else {
        None
    }
}

fn is_space_char(c: char) -> (r: bool)
    ensures
        r == is_space(c),
{
    c == ' ' || c == '\t' || c == '\n' || c == '\r'
}

proof fn lemma_digits_read_as_decimal(t: Seq<char>)
    requires
        t.len() > 0,
        all_digits(t),
    ensures
        parsed_fixed(t, 0) == (if digits_value(t) <= u64::MAX { Some(digits_value(t) as u64) } else { None::<u64> }),
{
    assert(t.subrange(0, t.len() as int) =~= t);
    assert(decimal_split(t, t.len() as int));
    let k = choose|k: int| decimal_split(t, k);
    lemma_split_unique(t, t.len() as int, k);
    assert(fraction_digits(seq![], 0) =~= Seq::<char>::empty());
    assert(pow10(0) == 1);
    assert(decimal_units(t, 0) == digits_value(t));
}

/// The index of the port that the operator's answer selects among `n_ports`, if any.
pub fn select_port(answer: &str, n_ports: usize) -> (r: Option<usize>)
    ensures
        r == selected_port(answer@, n_ports as nat),
{
    let n = answer.unicode_len();
    let ghost s = answer@;
    let mut a: usize = 0;
    assert(s.subrange(0, n as int) =~= s);
    while a < n && is_space_char(answer.get_char(a))
        invariant
            n == s.len(),
            s == answer@,
            a <= n,
            trim_start(s.subrange(a as int, n as int)) == trim_start(s),
        decreases n - a,
    {
        assert(s.subrange(a as int, n as int).drop_first() =~= s.subrange(a + 1, n as int));
        a = a + 1;
    }
    assert(trim_start(s) == s.subrange(a as int, n as int));
    let ghost u = s.subrange(a as int, n as int);
    let mut b: usize = n;
    while b > a && is_space_char(answer.get_char(b - 1))
        invariant
            n == s.len(),
            s == answer@,
            u == s.subrange(a as int, n as int),
            a <= b <= n,
            trim_end(s.subrange(a as int, b as int)) == trim_end(u),
        decreases b - a,
    {
        assert(s.subrange(a as int, b as int).drop_last() =~= s.subrange(a as int, b - 1));
        b = b - 1;
    }
    let t = answer.substring_char(a, b);
    assert(t@ == trim_end(trim_start(s)));
    if a == b {
        return None;
    }
    let mut i: usize = a;
    while i < b
        invariant
            s == answer@,
            a <= i <= b <= n,
            n == s.len(),
            t@ == s.subrange(a as int, b as int),
            t@ == trim_end(trim_start(s)),
            forall|j: int| a <= j < i ==> is_digit(#[trigger] s[j]),
        decreases b - i,
    {
        if !is_digit_at(answer, i) {
            assert(t@[i - a] == s[i as int]);
            return None;
        }
        i = i + 1;
    }
    assert(all_digits(t@)) by {
        assert forall|j: int| 0 <= j < t@.len() implies is_digit(#[trigger] t@[j]) by {
            assert(t@[j] == s[a + j]);
        }
    }
    proof {
        lemma_digits_read_as_decimal(t@);
    }
    match parse_fixed(t, 0) {
        Some(v) => if v < n_ports as u64 {
            Some(v as usize)
        } else {
            None
        },
        None => None,
    }
}

fn is_digit_at(s: &str, i: usize) -> (r: bool)
    requires
        i < s@.len(),
    ensures
        r == is_digit(s@[i as int]),
{
    let c = s.get_char(i);
    '0' <= c && c <= '9'
}

} // verus!
