//! The store's key layout: where occupant lists and mailboxes live.
//!
//! An occupant list is keyed by its line, a mailbox by its line and the
//! token of the participant who wrote into it.

use vstd::prelude::*;

verus! {

/// The character for the decimal digit `d`.
pub open spec fn digit_char(d: int) -> char
    recommends
        0 <= d <= 9,
{
    ((d + 48) as u8) as char
}

/// `n` written in decimal, most significant digit first.
pub open spec fn dec_digits(n: int) -> Seq<char>
    recommends
        n >= 0,
    decreases n,
{
    if n < 10 {
        seq![digit_char(n)]
    } else {
        dec_digits(n / 10).push(digit_char(n % 10))
    }
}

/// The key under which line `line_id`'s occupant list is stored.
pub open spec fn spec_line_key(line_id: u16) -> Seq<char> {
    "sender:"@ + dec_digits(line_id as int) + ":line"@
}

/// The key under which the mailbox of `sender` within `line_id` is stored.
pub open spec fn spec_mailbox_key(line_id: u16, sender: Seq<char>) -> Seq<char> {
    "line:"@ + dec_digits(line_id as int) + ":"@ + sender
}

fn push_digit(s: &mut String, d: u16)
    requires
        d <= 9,
    ensures
        final(s)@ == old(s)@.push(digit_char(d as int)),
{
    let piece: &str = match d {
        0 => "0",
        1 => "1",
        2 => "2",
        3 => "3",
        4 => "4",
        5 => "5",
        6 => "6",
        7 => "7",
        8 => "8",
        _ => "9",
    };
    proof {
        reveal_strlit("0");
        reveal_strlit("1");
        reveal_strlit("2");
        reveal_strlit("3");
        reveal_strlit("4");
        reveal_strlit("5");
        reveal_strlit("6");
        reveal_strlit("7");
        reveal_strlit("8");
        reveal_strlit("9");
        assert(piece@ =~= seq![digit_char(d as int)]);
    }
    s.append(piece);
    proof {
        assert(old(s)@ + piece@ =~= old(s)@.push(digit_char(d as int)));
    }
}

fn push_decimal(s: &mut String, n: u16)
    ensures
        final(s)@ == old(s)@ + dec_digits(n as int),
    decreases n,
{
    if n < 10 {
        push_digit(s, n);
        proof {
            assert(old(s)@ + dec_digits(n as int) =~= old(s)@.push(digit_char(n as int)));
        }
    } else {
        push_decimal(s, n / 10);
        push_digit(s, n % 10);
        proof {
            assert(old(s)@ + dec_digits(n as int) =~= (old(s)@ + dec_digits(n as int / 10)).push(
                digit_char(n as int % 10),
            ));
        }
    }
}

/// Build the occupant-list key for `line_id`.
pub(crate) fn line_key(line_id: u16) -> (r: String)
    ensures
        r@ == spec_line_key(line_id),
{
    let mut s = "sender:".to_owned();
    push_decimal(&mut s, line_id);
    s.append(":line");
    proof {
        assert(s@ =~= spec_line_key(line_id));
    }
    s
}

/// Build the mailbox key for `sender` within `line_id`.
pub(crate) fn mailbox_key(line_id: u16, sender: &str) -> (r: String)
    ensures
        r@ == spec_mailbox_key(line_id, sender@),
{
    let mut s = "line:".to_owned();
    push_decimal(&mut s, line_id);
    s.append(":");
    s.append(sender);
    proof {
        assert(s@ =~= spec_mailbox_key(line_id, sender@));
    }
    s
}

} // verus!
