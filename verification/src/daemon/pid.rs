//! The PID file: reading the PID it holds, and what a PID found there means.

use vstd::prelude::*;
use crate::text::{is_white_space, lemma_trim_end_before, lemma_trim_start_after, str_chars, str_concat, str_trim, trimmed};

verus! {

/// A decimal digit.
pub open spec fn is_digit(c: char) -> bool {
    '0' <= c <= '9'
}

/// The value of a run of decimal digits.
pub open spec fn digits_value(d: Seq<char>) -> int
    decreases d.len(),
{
    if d.len() == 0 {
        0
    } else {
        digits_value(d.drop_last()) * 10 + (d.last() as int - '0' as int)
    }
}

/// The text after an optional leading `+`.
pub open spec fn unsigned_digits(s: Seq<char>) -> Seq<char> {
    if s.len() > 0 && s[0] == '+' { s.skip(1) } else { s }
}

/// Every character is a decimal digit.
pub open spec fn all_digits(d: Seq<char>) -> bool {
    forall|i: int| 0 <= i < d.len() ==> is_digit(#[trigger] d[i])
}

/// What `u32::from_str` gives: an optional `+`, then one or more decimal digits whose
/// value fits in a `u32`; nothing for anything else.
pub open spec fn u32_from_str(s: Seq<char>) -> Option<u32> {
    let d = unsigned_digits(s);
    if d.len() == 0 || !all_digits(d) {
        None
    } else if digits_value(d) > u32::MAX {
        None
    } else {
        Some(digits_value(d) as u32)
    }
}

proof fn lemma_digits_nonneg(d: Seq<char>)
    requires
        forall|i: int| 0 <= i < d.len() ==> is_digit(#[trigger] d[i]),
    ensures
        digits_value(d) >= 0,
    decreases d.len(),
{
    if d.len() > 0 {
        assert forall|i: int| 0 <= i < d.len() - 1 implies is_digit(#[trigger] d.drop_last()[i]) by {
            assert(d.drop_last()[i] == d[i]);
        }
        lemma_digits_nonneg(d.drop_last());
        assert(is_digit(d[d.len() - 1]));
    }
}

/// Parses a decimal `u32` the way `u32::from_str` does.
pub fn parse_u32(s: &str) -> (r: Option<u32>)
    ensures
        r == u32_from_str(s@),
{
    let v = str_chars(s);
    let n = v.len();
    let start: usize = if n > 0 && v[0] == '+' { 1 } else { 0 };
    let ghost d = unsigned_digits(s@);
    proof {
        assert(d =~= v@.skip(start as int));
    }
    if start >= n {
        return None;
    }
    let big: u64 = 0x1_0000_0000;
    let mut acc: u64 = 0;
    let mut i: usize = start;
    while i < n
        invariant
            v@ == s@,
            n == v@.len(),
            start <= i <= n,
            d == v@.skip(start as int),
            d == unsigned_digits(s@),
            start < n,
            forall|k: int| 0 <= k < i - start ==> is_digit(#[trigger] d[k]),
            acc <= big,
            big == 0x1_0000_0000,
            acc == if digits_value(d.take(i - start)) >= big { big as int } else { digits_value(d.take(i - start)) },
        decreases n - i,
    {
        let c = v[i];
        if !('0' <= c && c <= '9') {
            proof {
                assert(d[i - start] == c);
                assert(!is_digit(d[i - start]));
                assert(!all_digits(d));
                assert(u32_from_str(s@) is None);
            }
            return None;
        }
        let dg = (c as u32 - '0' as u32) as u64;
        proof {
            let t = d.take(i - start + 1);
            assert(t.drop_last() =~= d.take(i - start));
            assert(t.last() == c);
            assert forall|k: int| 0 <= k < i - start implies is_digit(#[trigger] d.take(i - start)[k]) by {
                assert(d.take(i - start)[k] == d[k]);
            }
            lemma_digits_nonneg(d.take(i - start));
        }
        if acc >= big {
            acc = big;
        } else {
            acc = acc * 10 + dg;
            if acc > big {
                acc = big;
            }
        }
        i = i + 1;
    }
    proof {
        assert(d.take(n - start) =~= d);
        assert forall|k: int| 0 <= k < d.len() implies is_digit(#[trigger] d[k]) by {}
    }
    if acc >= big {
        None
    } else {
        Some(acc as u32)
    }
}

/// The character of a decimal digit.
pub open spec fn digit_char(d: nat) -> char {
    if d == 0 { '0' } else if d == 1 { '1' } else if d == 2 { '2' } else if d == 3 { '3' }
    else if d == 4 { '4' } else if d == 5 { '5' } else if d == 6 { '6' } else if d == 7 { '7' }
    else if d == 8 { '8' } else { '9' }
}

/// The decimal digits of a number, without leading zeros ("0" for zero).
pub open spec fn decimal(v: nat) -> Seq<char>
    decreases v,
{
    if v < 10 {
        seq![digit_char(v)]
    } else {
        decimal(v / 10).push(digit_char(v % 10))
    }
}

proof fn lemma_decimal(v: nat)
    ensures
        decimal(v).len() > 0,
        all_digits(decimal(v)),
        digits_value(decimal(v)) == v,
        decimal(v)[0] != '+',
    decreases v,
{
    let m = v % 10;
    assert(digit_char(m) as int - '0' as int == m && is_digit(digit_char(m)) && digit_char(m) != '+') by {
        assert(m < 10);
    }
    if v >= 10 {
        lemma_decimal(v / 10);
        let d = decimal(v);
        assert(d.drop_last() == decimal(v / 10));
        assert(d.last() == digit_char(m));
        assert(v == (v / 10) * 10 + v % 10) by (nonlinear_arith);
        assert(digits_value(d) == digits_value(decimal(v / 10)) * 10 + (digit_char(m) as int - '0' as int));
        assert forall|i: int| 0 <= i < d.len() implies is_digit(#[trigger] d[i]) by {
            if i < d.len() - 1 {
                assert(d[i] == decimal(v / 10)[i]);
            }
        }
        assert(d[0] == decimal(v / 10)[0]);
    } else {
        let d = decimal(v);
        assert(d.drop_last() =~= Seq::<char>::empty());
        assert(m == v);
        assert(digits_value(d) == digits_value(d.drop_last()) * 10 + (d.last() as int - '0' as int));
    }
}

/// The text a PID file holds for `pid`: its decimal digits.
pub fn pid_text(pid: u32) -> (r: String)
    ensures
        r@ == decimal(pid as nat),
    decreases pid,
{
    let digit = char_of_digit(pid % 10);
    if pid < 10 {
        let v = vec![digit];
        proof {
            assert(v@ =~= decimal(pid as nat));
        }
        crate::text::string_from_chars(v.as_slice())
    } else {
        let head = pid_text(pid / 10);
        let mut v = str_chars(head.as_str());
        v.push(digit);
        proof {
            assert(v@ =~= decimal(pid as nat));
        }
        crate::text::string_from_chars(v.as_slice())
    }
}

/// The character of a decimal digit.
fn char_of_digit(d: u32) -> (c: char)
    requires
        d < 10,
    ensures
        c == digit_char(d as nat),
{
    if d == 0 { '0' } else if d == 1 { '1' } else if d == 2 { '2' } else if d == 3 { '3' }
    else if d == 4 { '4' } else if d == 5 { '5' } else if d == 6 { '6' } else if d == 7 { '7' }
    else if d == 8 { '8' } else { '9' }
}

/// PID file law: the text written for a PID parses back to that PID.
pub proof fn law_pid_round_trip(pid: u32)
    ensures
        u32_from_str(decimal(pid as nat)) == Some(pid),
{
    lemma_decimal(pid as nat);
    assert(unsigned_digits(decimal(pid as nat)) == decimal(pid as nat));
}

/// PID file law: a file holding a PID's text, with any whitespace around it, reads back as
/// that PID.
pub proof fn law_pid_file_round_trip(pid: u32, lead: Seq<char>, pad: Seq<char>)
    requires
        forall|i: int| 0 <= i < lead.len() ==> is_white_space(#[trigger] lead[i]),
        forall|i: int| 0 <= i < pad.len() ==> is_white_space(#[trigger] pad[i]),
    ensures
        trimmed(lead + decimal(pid as nat) + pad) == decimal(pid as nat),
        u32_from_str(trimmed(lead + decimal(pid as nat) + pad)) == Some(pid),
{
    let d = decimal(pid as nat);
    lemma_decimal(pid as nat);
    assert(is_digit(d[0]) && is_digit(d.last()));
    assert(lead + d + pad =~= lead + (d + pad));
    assert((d + pad)[0] == d[0]);
    lemma_trim_start_after(lead, d + pad);
    lemma_trim_end_before(d, pad);
    law_pid_round_trip(pid);
}

/// Reads the PID a PID file holds: its text, trimmed, as a `u32`; or the error message.
pub fn parse_pid(contents: &str) -> (r: Result<u32, String>)
    ensures
        match u32_from_str(trimmed(contents@)) {
            Some(v) => r == Ok::<u32, String>(v),
            None => r matches Err(e) && e@ == "Invalid PID in file: "@ + trimmed(contents@),
        },
{
    let t = str_trim(contents);
    match parse_u32(t) {
        Some(v) => Ok(v),
        None => Err(str_concat("Invalid PID in file: ", t)),
    }
}

/// What a PID file says of the daemon
#[derive(Debug, Clone, Copy, PartialEq, Eq, Structural)]
pub enum PidStatus {
    /// There is no PID file
    NoPidFile,
    /// The daemon with this PID is running
    Running(u32),
    /// The file names a process that is gone: the file is stale and is removed
    Stale(u32),
}

/// What a PID file that holds `pid_in_file` means, where `process_running` says whether a
/// process with that PID exists
pub fn pid_status(pid_in_file: Option<u32>, process_running: bool) -> (r: PidStatus)
    ensures
        r == match pid_in_file {
            None => PidStatus::NoPidFile,
            Some(p) => if process_running { PidStatus::Running(p) } else { PidStatus::Stale(p) },
        },
{
    match pid_in_file {
        None => PidStatus::NoPidFile,
        Some(p) => if process_running { PidStatus::Running(p) } else { PidStatus::Stale(p) },
    }
}

/// Check if another daemon instance is already running: the PID file names a running
/// process
pub fn is_daemon_running_by_pid(pid_in_file: Option<u32>, process_running: bool) -> (r: bool)
    ensures
        r == (pid_in_file is Some && process_running),
{
    match pid_status(pid_in_file, process_running) {
        PidStatus::Running(_) => true,
        _ => false,
    }
}

} // verus!
