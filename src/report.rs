use crate::amount::{amount_text, amount_u64_to_string, decimal, push_decimal, string_of};
use crate::miner::SrcType;
use vstd::prelude::*;

verus! {

/// Appends the characters of `s`.
fn push_str(out: &mut Vec<char>, s: &str)
    ensures
        final(out)@ == old(out)@ + s@,
{
    let n = s.unicode_len();
    let mut i: usize = 0;
    let ghost base = out@;
    while i < n
        invariant
            n == s@.len(),
            i <= n,
            out@ == base + s@.take(i as int),
        decreases n - i,
    {
        out.push(s.get_char(i));
        i = i + 1;
        assert(out@ =~= base + s@.take(i as int));
    }
    assert(s@.take(n as int) =~= s@);
}

/// At least two digits: a leading zero below ten.
pub open spec fn two_digits(n: nat) -> Seq<char> {
    if n < 10 {
        seq!['0'] + decimal(n)
    } else {
        decimal(n)
    }
}

/// A countdown as minutes and seconds, `mm:ss`.
pub open spec fn duration_text(seconds: u32) -> Seq<char> {
    two_digits((seconds / 60) as nat) + seq![':'] + two_digits((seconds % 60) as nat)
}

fn push_two_digits(out: &mut Vec<char>, n: u64)
    ensures
        final(out)@ == old(out)@ + two_digits(n as nat),
{
    if n < 10 {
        out.push('0');
    }
    push_decimal(out, n);
    assert(final(out)@ =~= old(out)@ + two_digits(n as nat));
}

/// Seconds as `mm:ss` (`75` is `01:15`).
pub fn format_duration(seconds: u32) -> (r: String)
    ensures
        r@ == duration_text(seconds),
{
    let mut out: Vec<char> = Vec::new();
    push_two_digits(&mut out, (seconds / 60) as u64);
    out.push(':');
    push_two_digits(&mut out, (seconds % 60) as u64);
    assert(out@ =~= duration_text(seconds));
    string_of(out)
}

/// The message posted for an accepted solution: its source, difficulty, the
/// reward it brought and the new balance, one per line.
pub open spec fn notice_text(source: SrcType, difficulty: u32, reward: u64, balance: u64) -> Seq<
    char,
> {
    "S: "@ + source.name_spec() + "\nD: "@ + decimal(difficulty as nat) + "\nR: "@ + amount_text(
        reward,
    ) + "\nB: "@ + amount_text(balance)
}

pub fn notification_text(source: SrcType, difficulty: u32, reward: u64, balance: u64) -> (r: String)
    ensures
        r@ == notice_text(source, difficulty, reward, balance),
{
    let mut out: Vec<char> = Vec::new();
    push_str(&mut out, "S: ");
    push_str(&mut out, source.as_str());
    push_str(&mut out, "\nD: ");
    push_decimal(&mut out, difficulty as u64);
    push_str(&mut out, "\nR: ");
    let r = amount_u64_to_string(reward);
    push_str(&mut out, r.as_str());
    push_str(&mut out, "\nB: ");
    let b = amount_u64_to_string(balance);
    push_str(&mut out, b.as_str());
    assert(out@ =~= notice_text(source, difficulty, reward, balance));
    string_of(out)
}

} // verus!
