//! The identifier of an order: its price rank and a digest of its content.

use vstd::prelude::*;
use vstd::string::*;
use crate::order::{order_id_of, Order};

verus! {

/// `(price rank, content digest)`. Ids are ordered by rank first and by digest
/// among equal ranks; two ids are the same when both parts are.
#[derive(Clone, Copy, Debug, PartialEq, Eq, Structural, PartialOrd, Ord, Hash)]
pub struct OrderId(pub u128, pub u64);

/// The order of ids: by price rank, then by content digest.
pub open spec fn id_lt(a: OrderId, b: OrderId) -> bool {
    a.0 < b.0 || (a.0 == b.0 && a.1 < b.1)
}

/// The character that writes the digit `d`.
pub open spec fn digit_char(d: nat) -> char
    recommends
        d < 10,
{
    if d == 0 {
        '0'
    } else if d == 1 {
        '1'
    } else if d == 2 {
        '2'
    } else if d == 3 {
        '3'
    } else if d == 4 {
        '4'
    } else if d == 5 {
        '5'
    } else if d == 6 {
        '6'
    } else if d == 7 {
        '7'
    } else if d == 8 {
        '8'
    } else {
        '9'
    }
}

/// `n` written in decimal, without leading zeros.
pub open spec fn decimal(n: nat) -> Seq<char>
    decreases n,
{
    if n < 10 {
        seq![digit_char(n)]
    } else {
        decimal(n / 10).push(digit_char(n % 10))
    }
}

impl OrderId {
    /// The id of `order`.
    pub fn from_order(order: &Order) -> (id: Self)
        requires
            order.valid(),
        ensures
            id == order_id_of(order@),
    {
        order.get_id()
    }

    /// Whether `self` comes before `other` in a book.
    pub fn precedes(&self, other: &OrderId) -> (r: bool)
        ensures
            r == id_lt(*self, *other),
    {
        self.0 < other.0 || (self.0 == other.0 && self.1 < other.1)
    }

    /// The id as text: the rank in decimal, directly followed by the digest in
    /// decimal.
    pub fn to_string(&self) -> (text: String)
        ensures
            text@ == decimal(self.0 as nat) + decimal(self.1 as nat),
    {
        let mut text = String::new();
        write_decimal(self.0, &mut text);
        write_decimal(self.1 as u128, &mut text);
        text
    }
}

/// The text of one digit.
fn digit_text(d: u128) -> (text: &'static str)
    requires
        d < 10,
    ensures
        text@ == seq![digit_char(d as nat)],
{
    proof {
        reveal_strlit("0");
        reveal_strlit("1");
        reveal_strlit("2");
        reveal_strlit("3");
        reveal_strlit("4");
        reveal_strlit("5");
        reveal_strlit("6");
        reveal_strlit("7");
        reveal_strlit("8");
        reveal_strlit("9");
    }
    let text = if d == 0 {
        "0"
    } else if d == 1 {
        "1"
    } else if d == 2 {
        "2"
    } else if d == 3 {
        "3"
    } else if d == 4 {
        "4"
    } else if d == 5 {
        "5"
    } else if d == 6 {
        "6"
    } else if d == 7 {
        "7"
    } else if d == 8 {
        "8"
    } else {
        "9"
    };
    text
}

/// Writes `n` in decimal behind what `out` holds.
fn write_decimal(n: u128, out: &mut String)
    ensures
        final(out)@ == old(out)@ + decimal(n as nat),
    decreases n,
{
    if n >= 10 {
        write_decimal(n / 10, out);
    }
    out.append(digit_text(n % 10));
}

} // verus!
