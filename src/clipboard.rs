//! The computable part of the clipboard gate: the plan of a copy (what to
//! place, when to clear) and its confirmation text.

use vstd::prelude::*;
use vstd::string::StringExecFns;

use crate::secret::SecretBuffer;

verus! {

/// The decimal digit `d` as a character.
pub open spec fn digit_char(d: nat) -> char {
    seq!['0', '1', '2', '3', '4', '5', '6', '7', '8', '9'][d as int]
}

/// The decimal rendering of `n`, without leading zeros.
pub open spec fn decimal(n: nat) -> Seq<char>
    decreases n,
{
    if n < 10 {
        seq![digit_char(n)]
    } else {
        decimal(n / 10).push(digit_char(n % 10))
    }
}

/// The confirmation shown after a copy that is cleared after `secs` seconds.
pub open spec fn copy_message_text(secs: nat) -> Seq<char> {
    "Copied to clipboard for "@ + decimal(secs) + " seconds..."@
}

fn digit_str(d: u64) -> (r: &'static str)
    requires
        d < 10,
    ensures
        r@ == seq![digit_char(d as nat)],
{
    proof {
        reveal_strlit("0");
        reveal_strlit("1");
        reveal_strlit("2");
        reveal_strlit("3");
        reveal_strlit("4");
        reveal_strlit("5");
        reveal_strlit("6");
        reveal_strlit("7");
        reveal_strlit("8");
        reveal_strlit("9");
    }
    let r = if d == 0 {
        "0"
    } else if d == 1 {
        "1"
    } else if d == 2 {
        "2"
    } else if d == 3 {
        "3"
    } else if d == 4 {
        "4"
    } else if d == 5 {
        "5"
    } else if d == 6 {
        "6"
    } else if d == 7 {
        "7"
    } else if d == 8 {
        "8"
    } else {
        "9"
    };
    assert(r@ =~= seq![digit_char(d as nat)]);
    r
}

/// Appends the decimal rendering of `n` to `out`.
fn push_decimal(out: &mut String, n: u64)
    ensures
        final(out)@ == old(out)@ + decimal(n as nat),
    decreases n,
{
    if n < 10 {
        out.append(digit_str(n));
        proof {
            assert(decimal(n as nat) == seq![digit_char(n as nat)]);
        }
    } else {
        push_decimal(out, n / 10);
        out.append(digit_str(n % 10));
        proof {
            assert(decimal(n as nat) == decimal((n / 10) as nat).push(digit_char((n % 10) as nat)));
            assert(final(out)@ =~= old(out)@ + decimal(n as nat));
        }
    }
}

/// The confirmation text of a copy cleared after `timeout_secs` seconds.
pub fn copy_message(timeout_secs: u64) -> (r: String)
    ensures
        r@ == copy_message_text(timeout_secs as nat),
{
    let mut out = String::from_str("Copied to clipboard for ");
    push_decimal(&mut out, timeout_secs);
    out.append(" seconds...");
    proof {
        assert(out@ =~= copy_message_text(timeout_secs as nat));
    }
    out
}

/// A copy to the clipboard: the text to place now, the delay in seconds
/// after which the clipboard is set to the empty text, and the confirmation.
pub struct ClipboardCopy {
    pub secret: SecretBuffer,
    pub clear_after_secs: u64,
    pub message: String,
}

/// Plans the copy of `secret`, cleared again after `timeout_secs` seconds.
pub fn plan_copy(secret: SecretBuffer, timeout_secs: u64) -> (r: ClipboardCopy)
    ensures
        r.secret@ == secret@,
        r.clear_after_secs == timeout_secs,
        r.message@ == copy_message_text(timeout_secs as nat),
{
    ClipboardCopy { secret, clear_after_secs: timeout_secs, message: copy_message(timeout_secs) }
}

} // verus!
