//! Decimal output.

use crate::state::terminal::TerminalState;
use crate::text::push_char;
use vstd::prelude::*;

verus! {

/// The character of the decimal digit `d`.
pub open spec fn digit(d: nat) -> char {
    if d == 0 {
        '0'
    } else if d == 1 {
        '1'
    } else if d == 2 {
        '2'
    } else if d == 3 {
        '3'
    } else if d == 4 {
        '4'
    } else if d == 5 {
        '5'
    } else if d == 6 {
        '6'
    } else if d == 7 {
        '7'
    } else if d == 8 {
        '8'
    } else {
        '9'
    }
}

/// `n` in decimal, without leading zeros.
pub open spec fn decimal(n: nat) -> Seq<char>
    decreases n,
{
    if n < 10 {
        seq![digit(n)]
    } else {
        decimal(n / 10).push(digit(n % 10))
    }
}

fn digit_char(d: u64) -> (c: char)
    requires
        d < 10,
    ensures
        c == digit(d as nat),
{
    if d == 0 {
        '0'
    } else if d == 1 {
        '1'
    } else if d == 2 {
        '2'
    } else if d == 3 {
        '3'
    } else if d == 4 {
        '4'
    } else if d == 5 {
        '5'
    } else if d == 6 {
        '6'
    } else if d == 7 {
        '7'
    } else if d == 8 {
        '8'
    } else {
        '9'
    }
}

/// `n` in decimal.
pub fn format_number(n: u64) -> (text: String)
    ensures
        text@ == decimal(n as nat),
{
    // digits from the last to the first
    let mut digits: Vec<char> = Vec::new();
    let mut val = n;
    while val >= 10
        invariant
            decimal(n as nat) == decimal(val as nat) + digits@.reverse(),
        decreases val,
    {
        let ghost before = digits@;
        digits.push(digit_char(val % 10));
        proof {
            assert(digits@.reverse() =~= seq![digit((val % 10) as nat)] + before.reverse());
            assert(decimal(val as nat) == decimal((val / 10) as nat).push(digit((val % 10) as nat)));
            assert(decimal((val / 10) as nat).push(digit((val % 10) as nat)) + before.reverse()
                =~= decimal((val / 10) as nat) + digits@.reverse());
        }
        val = val / 10;
    }
    let mut text = String::new();
    push_char(&mut text, digit_char(val));
    let mut i: usize = digits.len();
    while i > 0
        invariant
            i <= digits.len(),
            val < 10,
            text@ == decimal(val as nat) + digits@.reverse().take(digits.len() - i),
        decreases i,
    {
        i -= 1;
        push_char(&mut text, digits[i]);
        proof {
            let r = digits@.reverse();
            assert(r.take(digits.len() - i) =~= r.take(digits.len() - i - 1).push(digits@[i as int]));
        }
    }
    proof {
        assert(digits@.reverse().take(digits.len() as int) =~= digits@.reverse());
    }
    text
}

/// Writes `n` in decimal.
pub fn write_number(output: &mut TerminalState, n: u64)
    requires
        old(output).wf(),
    ensures
        final(output)@ == old(output)@.write_str(decimal(n as nat)),
        final(output).wf(),
        final(output)@.same_size(old(output)@),
{
    let text = format_number(n);
    output.write_str(text.as_str());
}

} // verus!
