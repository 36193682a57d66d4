//! Short descriptions for debugging: cutting a text to a preview and
//! writing a number in decimal.

use crate::text::push_char;
use vstd::prelude::*;

verus! {

/// The three dots that mark a cut.
pub open spec fn ellipsis() -> Seq<char> {
    seq!['.', '.', '.']
}

/// `s` cut to its first `max` characters and marked with three dots, or
/// `s` itself where it is no longer than that.
pub open spec fn truncated(s: Seq<char>, max: nat) -> Seq<char> {
    if s.len() > max {
        s.take(max as int) + ellipsis()
    } else {
        s
    }
}

/// Cuts `s` to at most `max_chars` characters for display, marking a cut
/// with three dots.
pub fn truncate_for_repr(s: &str, max_chars: usize) -> (r: String)
    ensures
        r@ == truncated(s@, max_chars as nat),
{
    let mut out = String::new();
    let mut kept: usize = 0;
    let mut cut = false;
    for c in it: s.chars()
        invariant_except_break
            !cut,
            kept == it.index(),
            kept <= max_chars,
            out@ == s@.take(kept as int),
        invariant
            it.seq() == s@,
        ensures
            cut ==> s@.len() > max_chars && out@ == s@.take(max_chars as int) + ellipsis(),
            !cut ==> s@.len() <= max_chars && out@ == s@,
    {
        if kept >= max_chars {
            proof {
                reveal_strlit("...");
            }
            out.append("...");
            cut = true;
            break;
        }
        push_char(&mut out, c);
        kept += 1;
    }
    out
}

/// The decimal digit for `d`, where `d` is below ten.
pub open spec fn digit(d: nat) -> char {
    ((48 + d) as u8) as char
}

/// `n` written in decimal, without leading zeros.
pub open spec fn decimal(n: nat) -> Seq<char>
    decreases n,
{
    if n < 10 {
        seq![digit(n)]
    } else {
        decimal(n / 10).push(digit(n % 10))
    }
}

/// Writes `n` in decimal.
pub fn decimal_string(n: usize) -> (r: String)
    ensures
        r@ == decimal(n as nat),
{
    let mut digits: Vec<char> = Vec::new();
    let mut rest: usize = n;
    while rest >= 10
        invariant
            decimal(n as nat) == decimal(rest as nat) + digits@.reverse(),
        decreases rest,
    {
        let low: u8 = (rest % 10) as u8;
        proof {
            let grown = digits@.push(digit(low as nat));
            assert(decimal((rest / 10) as nat).push(digit(low as nat)) + digits@.reverse()
                == decimal((rest / 10) as nat) + grown.reverse());
        }
        digits.push((48 + low) as char);
        rest = rest / 10;
    }
    let mut out = String::new();
    push_char(&mut out, (48 + rest as u8) as char);
    let mut left: usize = digits.len();
    while left > 0
        invariant
            left <= digits.len(),
            out@ == decimal(rest as nat) + digits@.reverse().take(digits.len() - left),
            decimal(n as nat) == decimal(rest as nat) + digits@.reverse(),
        decreases left,
    {
        left -= 1;
        proof {
            let back = digits@.reverse();
            let k: int = digits.len() - left - 1;
            assert(decimal(rest as nat) + back.take(k).push(back[k]) == (decimal(rest as nat)
                + back.take(k)).push(back[k]));
        }
        push_char(&mut out, digits[left]);
    }
    out
}

} // verus!
