//! Rendering amounts and payment records as text for accounting events.

use vstd::prelude::*;

use crate::rate::{Coin, CoinV};
use vstd::string::StringExecFns;

verus! {

/// The character of one decimal digit value.
pub open spec fn spec_digit_char(d: int) -> char
    recommends
        0 <= d < 10,
{
    if d == 0 {
        '0'
    } else if d == 1 {
        '1'
    } else if d == 2 {
        '2'
    } else if d == 3 {
        '3'
    } else if d == 4 {
        '4'
    } else if d == 5 {
        '5'
    } else if d == 6 {
        '6'
    } else if d == 7 {
        '7'
    } else if d == 8 {
        '8'
    } else {
        '9'
    }
}

/// The decimal digits of `n`, most significant first, with no leading
/// zeroes (zero itself is the single digit `'0'`).
pub open spec fn spec_dec_str(n: nat) -> Seq<char>
    decreases n,
{
    if n < 10 {
        seq![spec_digit_char(n as int)]
    } else {
        spec_dec_str(n / 10).push(spec_digit_char((n % 10) as int))
    }
}

/// An amount followed directly by its denomination, as `"20uusd"`.
pub open spec fn spec_coin_str(coin: CoinV) -> Seq<char> {
    spec_dec_str(coin.amount as nat) + coin.denom
}

/// The payment record `"<receiver><<amount><denom>"` — receiver, a `'<'`
/// separator, then the amount and denomination.
pub open spec fn spec_payment_attr_str(receiver: Seq<char>, amount: CoinV) -> Seq<char> {
    receiver + seq!['<'] + spec_coin_str(amount)
}

/// The one-character string of one decimal digit value.
fn digit_str(d: u128) -> (r: &'static str)
    requires
        d < 10,
    ensures
        r@ == seq![spec_digit_char(d as int)],
{
    if d == 0 {
        proof {
            reveal_strlit("0");
            assert("0"@ =~= seq![spec_digit_char(0)]);
        }
        "0"
    } else if d == 1 {
        proof {
            reveal_strlit("1");
            assert("1"@ =~= seq![spec_digit_char(1)]);
        }
        "1"
    } else if d == 2 {
        proof {
            reveal_strlit("2");
            assert("2"@ =~= seq![spec_digit_char(2)]);
        }
        "2"
    } else if d == 3 {
        proof {
            reveal_strlit("3");
            assert("3"@ =~= seq![spec_digit_char(3)]);
        }
        "3"
    } else if d == 4 {
        proof {
            reveal_strlit("4");
            assert("4"@ =~= seq![spec_digit_char(4)]);
        }
        "4"
    } else if d == 5 {
        proof {
            reveal_strlit("5");
            assert("5"@ =~= seq![spec_digit_char(5)]);
        }
        "5"
    } else if d == 6 {
        proof {
            reveal_strlit("6");
            assert("6"@ =~= seq![spec_digit_char(6)]);
        }
        "6"
    } else if d == 7 {
        proof {
            reveal_strlit("7");
            assert("7"@ =~= seq![spec_digit_char(7)]);
        }
        "7"
    } else if d == 8 {
        proof {
            reveal_strlit("8");
            assert("8"@ =~= seq![spec_digit_char(8)]);
        }
        "8"
    } else {
        proof {
            reveal_strlit("9");
            assert("9"@ =~= seq![spec_digit_char(9)]);
        }
        "9"
    }
}

/// Renders an amount in decimal.
pub fn u128_to_string(n: u128) -> (s: String)
    ensures
        s@ == spec_dec_str(n as nat),
    decreases n,
{
    if n < 10 {
        digit_str(n).to_owned()
    } else {
        let mut s = u128_to_string(n / 10);
        let d = digit_str(n % 10);
        s.append(d);
        proof {
            assert(s@ =~= spec_dec_str((n / 10) as nat).push(
                spec_digit_char((n % 10) as int),
            ));
        }
        s
    }
}

/// Renders a coin as its amount followed by its denomination.
pub fn coin_string(coin: &Coin) -> (r: String)
    ensures
        r@ == spec_coin_str(coin@),
{
    let mut s = u128_to_string(coin.amount);
    s.append(coin.denom.as_str());
    s
}

/// A record of one payment made to one receiver, used in accounting
/// events.
#[derive(Debug, PartialEq)]
pub struct PaymentAttribute {
    /// The amount paid.
    pub amount: Coin,
    /// The address the payment was made to.
    pub receiver: String,
}

impl PaymentAttribute {
    /// The record text: receiver, a `'<'` separator, then the amount.
    pub fn to_string(&self) -> (r: String)
        ensures
            r@ == spec_payment_attr_str(self.receiver@, self.amount@),
    {
        let mut s = self.receiver.clone();
        s.append("<");
        let amount = u128_to_string(self.amount.amount);
        s.append(amount.as_str());
        s.append(self.amount.denom.as_str());
        proof {
            reveal_strlit("<");
            assert("<"@ =~= seq!['<']);
            assert(s@ =~= spec_payment_attr_str(self.receiver@, self.amount@));
        }
        s
    }
}

} // verus!
