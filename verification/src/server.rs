//! The server's own settings: the port it listens on and its address.
use vstd::prelude::*;
use crate::text::{concat2, decimal, decimal_string, parse_u16, parse_u16_str, digits_value, all_digits, digit_char, digit_value, is_digit};

verus! {

/// The port used when `PORT` does not name one.
pub const DEFAULT_PORT: u16 = 3000;

/// The port to listen on, from the value of `PORT`: the number it holds
/// when it is one (`u16::from_str`), else the default port.
pub fn port_from_env(value: Option<&str>) -> (p: u16)
    ensures
        p == match value {
            Some(v) => match parse_u16(v@) {
                Some(n) => n,
                None => DEFAULT_PORT,
            },
            None => DEFAULT_PORT,
        },
{
    match value {
        Some(v) => match parse_u16_str(v) {
            Some(n) => n,
            None => DEFAULT_PORT,
        },
        None => DEFAULT_PORT,
    }
}

/// The address the server listens on: the loopback interface and `port`.
pub fn listen_addr(port: u16) -> (r: String)
    ensures
        r@ == "127.0.0.1:"@ + decimal(port as nat),
{
    let p = decimal_string(port as u64);
    concat2("127.0.0.1:", p.as_str())
}

proof fn lemma_decimal_digits(n: nat)
    ensures
        decimal(n).len() > 0,
        all_digits(decimal(n)),
        digits_value(decimal(n)) == n,
        is_digit(decimal(n)[0]),
    decreases n,
{
    if n < 10 {
        assert(digit_value(digit_char(n)) == n);
        assert(decimal(n).drop_last() =~= Seq::<char>::empty());
        assert(digits_value(decimal(n)) == digits_value(decimal(n).drop_last()) * 10 + digit_value(
            decimal(n).last(),
        ));
    } else {
        lemma_decimal_digits(n / 10);
        let d = decimal(n);
        assert(d.drop_last() =~= decimal(n / 10));
        assert(digit_value(digit_char(n % 10)) == n % 10);
        assert(d.last() == digit_char(n % 10));
        assert(digits_value(d) == digits_value(d.drop_last()) * 10 + digit_value(d.last()));
        assert((n / 10) * 10 + n % 10 == n);
        assert(d[0] == decimal(n / 10)[0]);
        assert forall|i: int| 0 <= i < d.len() implies is_digit(#[trigger] d[i]) by {
            if i < d.len() - 1 {
                assert(d[i] == decimal(n / 10)[i]);
            }
        }
    }
}

/// A port written in decimal is read back as the same port.
pub proof fn lemma_port_round_trip(port: u16)
    ensures
        parse_u16(decimal(port as nat)) == Some(port),
{
    lemma_decimal_digits(port as nat);
}

} // verus!
