//! Row validation: mapping one raw input row — a kind, a client id, a
//! transaction id and an optional amount — to a [`TransactionEvent`].
//!
//! The kind is case-insensitive and may carry surrounding whitespace.
//! Deposits and withdrawals require an amount; every failure carries a
//! message naming the client and transaction involved.

use vstd::prelude::*;
use crate::common::event::TransactionEvent;
use crate::common::money::{
    chars_to_string, dec_seq, is_space, is_space_char, push_dec, spec_parse_money, trimmed, Money,
    MoneyParseError,
};

verus! {

/// The lowercase form of an ASCII letter; any other character unchanged.
pub open spec fn lower_char(c: char) -> char {
    if c == 'A' {
        'a'
    } else if c == 'B' {
        'b'
    } else if c == 'C' {
        'c'
    } else if c == 'D' {
        'd'
    } else if c == 'E' {
        'e'
    } else if c == 'F' {
        'f'
    } else if c == 'G' {
        'g'
    } else if c == 'H' {
        'h'
    } else if c == 'I' {
        'i'
    } else if c == 'J' {
        'j'
    } else if c == 'K' {
        'k'
    } else if c == 'L' {
        'l'
    } else if c == 'M' {
        'm'
    } else if c == 'N' {
        'n'
    } else if c == 'O' {
        'o'
    } else if c == 'P' {
        'p'
    } else if c == 'Q' {
        'q'
    } else if c == 'R' {
        'r'
    } else if c == 'S' {
        's'
    } else if c == 'T' {
        't'
    } else if c == 'U' {
        'u'
    } else if c == 'V' {
        'v'
    } else if c == 'W' {
        'w'
    } else if c == 'X' {
        'x'
    } else if c == 'Y' {
        'y'
    } else if c == 'Z' {
        'z'
    } else {
        c
    }
}

/// `s` lowercased character by character.
pub open spec fn lower(s: Seq<char>) -> Seq<char> {
    s.map_values(|c: char| lower_char(c))
}

/// The message for a deposit or withdrawal row without an amount.
pub open spec fn missing_amount_msg(kind_deposit: bool, client: u16, tx: u32) -> Seq<char> {
    (if kind_deposit {
        "deposit missing amount for client "@
    } else {
        "withdrawal missing amount for client "@
    }) + dec_seq(client as int) + " tx "@ + dec_seq(tx as int)
}

/// The message for a row whose kind is not one of the five event kinds.
pub open spec fn unknown_kind_msg(kind: Seq<char>, client: u16, tx: u32) -> Seq<char> {
    "unknown transaction type: "@ + kind + " for client "@ + dec_seq(client as int) + " tx "@
        + dec_seq(tx as int)
}

/// The message for an amount that does not parse.
pub open spec fn money_err_msg(e: MoneyParseError) -> Seq<char> {
    match e {
        MoneyParseError::Empty => "empty amount"@,
        MoneyParseError::Malformed => "invalid decimal"@,
        MoneyParseError::Overflow => "amount overflow"@,
    }
}

/// What a raw row maps to: the event, or the exact failure message.
///
/// The kind is trimmed and lowercased first; deposits and withdrawals must
/// carry an amount that parses as money.
pub open spec fn spec_row_event(
    kind_raw: Seq<char>,
    client: u16,
    tx: u32,
    amount: Option<Seq<char>>,
) -> Result<TransactionEvent, Seq<char>> {
    let kind = lower(trimmed(kind_raw));
    if kind == "deposit"@ {
        match amount {
            None => Err(missing_amount_msg(true, client, tx)),
            Some(a) => match spec_parse_money(a) {
                Ok(v) => Ok(TransactionEvent::Deposit { client, tx, amount: Money(v) }),
                Err(e) => Err(money_err_msg(e)),
            },
        }
    } else if kind == "withdrawal"@ {
        match amount {
            None => Err(missing_amount_msg(false, client, tx)),
            Some(a) => match spec_parse_money(a) {
                Ok(v) => Ok(TransactionEvent::Withdrawal { client, tx, amount: Money(v) }),
                Err(e) => Err(money_err_msg(e)),
            },
        }
    } else if kind == "dispute"@ {
        Ok(TransactionEvent::Dispute { client, tx })
    } else if kind == "resolve"@ {
        Ok(TransactionEvent::Resolve { client, tx })
    } else if kind == "chargeback"@ {
        Ok(TransactionEvent::Chargeback { client, tx })
    } else {
        Err(unknown_kind_msg(kind, client, tx))
    }
}

fn lower_char_of(c: char) -> (r: char)
    ensures
        r == lower_char(c),
{
    match c {
        'A' => 'a',
        'B' => 'b',
        'C' => 'c',
        'D' => 'd',
        'E' => 'e',
        'F' => 'f',
        'G' => 'g',
        'H' => 'h',
        'I' => 'i',
        'J' => 'j',
        'K' => 'k',
        'L' => 'l',
        'M' => 'm',
        'N' => 'n',
        'O' => 'o',
        'P' => 'p',
        'Q' => 'q',
        'R' => 'r',
        'S' => 's',
        'T' => 't',
        'U' => 'u',
        'V' => 'v',
        'W' => 'w',
        'X' => 'x',
        'Y' => 'y',
        'Z' => 'z',
        _ => c,
    }
}

/// The trimmed, lowercased characters of `s`.
fn normalized_chars(s: &str) -> (v: Vec<char>)
    ensures
        v@ == lower(trimmed(s@)),
{
    let n = s.unicode_len();
    let mut lo: usize = 0;
    while lo < n && is_space_char(s.get_char(lo))
        invariant
            0 <= lo <= n,
            n == s@.len(),
            forall|k: int| 0 <= k < lo ==> is_space(#[trigger] s@[k]),
        decreases n - lo,
    {
        lo = lo + 1;
    }
    let mut hi: usize = n;
    while hi > lo && is_space_char(s.get_char(hi - 1))
        invariant
            lo <= hi <= n,
            n == s@.len(),
            forall|k: int| hi <= k < n ==> is_space(#[trigger] s@[k]),
        decreases hi,
    {
        hi = hi - 1;
    }
    proof {
        crate::common::money::lemma_trimmed_subrange(s@, lo as int, hi as int);
    }
    let mut v: Vec<char> = Vec::new();
    let mut i = lo;
    while i < hi
        invariant
            lo <= i <= hi <= n,
            n == s@.len(),
            v@ == lower(s@.subrange(lo as int, i as int)),
        decreases hi - i,
    {
        v.push(lower_char_of(s.get_char(i)));
        proof {
            assert(lower(s@.subrange(lo as int, i + 1 as int)) =~= lower(
                s@.subrange(lo as int, i as int),
            ).push(lower_char(s@[i as int])));
        }
        i = i + 1;
    }
    proof {
        assert(s@.subrange(lo as int, hi as int) == trimmed(s@));
    }
    v
}

/// Whether the characters of `v` spell exactly `s`.
fn chars_eq_str(v: &Vec<char>, s: &str) -> (b: bool)
    ensures
        b == (v@ == s@),
{
    let n = s.unicode_len();
    if v.len() != n {
        return false;
    }
    let mut i: usize = 0;
    while i < n
        invariant
            0 <= i <= n,
            n == s@.len(),
            v@.len() == n,
            forall|k: int| 0 <= k < i ==> v@[k] == s@[k],
        decreases n - i,
    {
        if v[i] != s.get_char(i) {
            return false;
        }
        i = i + 1;
    }
    proof {
        assert(v@ =~= s@);
    }
    true
}

/// Appends every character of `s` to `v`.
fn push_str_chars(v: &mut Vec<char>, s: &str)
    ensures
        final(v)@ == old(v)@ + s@,
{
    let n = s.unicode_len();
    let mut i: usize = 0;
    while i < n
        invariant
            0 <= i <= n,
            n == s@.len(),
            v@ == old(v)@ + s@.subrange(0, i as int),
        decreases n - i,
    {
        v.push(s.get_char(i));
        proof {
            assert(old(v)@ + s@.subrange(0, i + 1 as int) =~= (old(v)@ + s@.subrange(
                0,
                i as int,
            )).push(s@[i as int]));
        }
        i = i + 1;
    }
    proof {
        assert(old(v)@ + s@.subrange(0, n as int) =~= old(v)@ + s@);
    }
}

/// Builds the missing-amount message for a deposit or withdrawal row.
fn build_missing_amount(kind_deposit: bool, client: u16, tx: u32) -> (r: String)
    ensures
        r@ == missing_amount_msg(kind_deposit, client, tx),
{
    let mut v: Vec<char> = Vec::new();
    if kind_deposit {
        push_str_chars(&mut v, "deposit missing amount for client ");
    } else {
        push_str_chars(&mut v, "withdrawal missing amount for client ");
    }
    push_dec(&mut v, client as u64);
    push_str_chars(&mut v, " tx ");
    push_dec(&mut v, tx as u64);
    proof {
        assert(v@ =~= missing_amount_msg(kind_deposit, client, tx));
    }
    chars_to_string(&v)
}

/// Builds the unknown-kind message around the normalized kind.
fn build_unknown_kind(kind: &Vec<char>, client: u16, tx: u32) -> (r: String)
    ensures
        r@ == unknown_kind_msg(kind@, client, tx),
{
    let mut v: Vec<char> = Vec::new();
    push_str_chars(&mut v, "unknown transaction type: ");
    let mut i: usize = 0;
    while i < kind.len()
        invariant
            0 <= i <= kind@.len(),
            v@ == "unknown transaction type: "@ + kind@.subrange(0, i as int),
        decreases kind@.len() - i,
    {
        v.push(kind[i]);
        proof {
            assert(v@ =~= "unknown transaction type: "@ + kind@.subrange(0, i + 1 as int));
        }
        i = i + 1;
    }
    proof {
        assert(kind@.subrange(0, kind@.len() as int) =~= kind@);
    }
    push_str_chars(&mut v, " for client ");
    push_dec(&mut v, client as u64);
    push_str_chars(&mut v, " tx ");
    push_dec(&mut v, tx as u64);
    proof {
        assert(v@ =~= unknown_kind_msg(kind@, client, tx));
    }
    chars_to_string(&v)
}

/// Maps one raw input row to a validated event.
///
/// The kind is trimmed and lowercased before matching.  Deposit and
/// withdrawal rows must carry an amount that parses as money; dispute,
/// resolve and chargeback rows carry none.  Every rejection names the
/// client and transaction, exactly as [`spec_row_event`] states.
pub fn row_to_event(tx_type: &str, client: u16, tx: u32, amount: Option<&str>) -> (r: Result<
    TransactionEvent,
    String,
>)
    ensures
        ({
            let sr = spec_row_event(
                tx_type@,
                client,
                tx,
                match amount {
                    Some(a) => Some(a@),
                    None => None,
                },
            );
            match r {
                Ok(ev) => sr == Ok::<TransactionEvent, Seq<char>>(ev),
                Err(m) => sr matches Err(msg) && m@ == msg,
            }
        }),
{
    let kind = normalized_chars(tx_type);
    if chars_eq_str(&kind, "deposit") {
        match amount {
            None => Err(build_missing_amount(true, client, tx)),
            Some(a) => match Money::from_str(a) {
                Ok(m) => Ok(TransactionEvent::Deposit { client, tx, amount: m }),
                Err(e) => Err(String::from_str(e.message())),
            },
        }
    } else if chars_eq_str(&kind, "withdrawal") {
        match amount {
            None => Err(build_missing_amount(false, client, tx)),
            Some(a) => match Money::from_str(a) {
                Ok(m) => Ok(TransactionEvent::Withdrawal { client, tx, amount: m }),
                Err(e) => Err(String::from_str(e.message())),
            },
        }
    } else if chars_eq_str(&kind, "dispute") {
        Ok(TransactionEvent::Dispute { client, tx })
    } else if chars_eq_str(&kind, "resolve") {
        Ok(TransactionEvent::Resolve { client, tx })
    } else if chars_eq_str(&kind, "chargeback") {
        Ok(TransactionEvent::Chargeback { client, tx })
    } else {
        Err(build_unknown_kind(&kind, client, tx))
    }
}

} // verus!
