//! The listening-address text: rendering the configured `(host, port)` pair
//! as `host:port`, and the exact line logged when serving begins.

use vstd::prelude::*;
use crate::config::{all_dec_digits, dec_value, digit_value, is_dec_digit, valid_port_text};

verus! {

/// The decimal numeral of `n`, most significant digit first, no leading
/// zeros (the numeral of zero is "0").
pub open spec fn dec_numeral(n: nat) -> Seq<char>
    decreases n,
{
    if n < 10 {
        seq![digit_char(n)]
    } else {
        dec_numeral(n / 10) + seq![digit_char(n % 10)]
    }
}

pub open spec fn digit_char(d: nat) -> char {
    if d == 0 { '0' }
    else if d == 1 { '1' }
    else if d == 2 { '2' }
    else if d == 3 { '3' }
    else if d == 4 { '4' }
    else if d == 5 { '5' }
    else if d == 6 { '6' }
    else if d == 7 { '7' }
    else if d == 8 { '8' }
    else { '9' }
}

/// The text `serve` logs for a bound address: the configured host, a colon,
/// and the configured port's numeral.
pub open spec fn address_text(host: Seq<char>, port: u16) -> Seq<char> {
    host + seq![':'] + dec_numeral(port as nat)
}

proof fn lemma_digit_char_value(d: nat)
    requires
        d < 10,
    ensures
        is_dec_digit(digit_char(d)),
        digit_value(digit_char(d)) == d,
{
}

/// The numeral of `n` consists of digits and denotes exactly `n`.
pub proof fn lemma_dec_numeral_value(n: nat)
    ensures
        all_dec_digits(dec_numeral(n)),
        dec_numeral(n).len() > 0,
        dec_value(dec_numeral(n)) == n,
    decreases n,
{
    if n < 10 {
        lemma_digit_char_value(n);
        assert(dec_numeral(n).drop_last() =~= Seq::<char>::empty());
        assert(dec_numeral(n).last() == digit_char(n));
        assert(dec_value(dec_numeral(n)) == dec_value(Seq::<char>::empty()) * 10 + digit_value(digit_char(n)));
        assert(dec_value(Seq::<char>::empty()) == 0);
    } else {
        lemma_dec_numeral_value(n / 10);
        lemma_digit_char_value(n % 10);
        assert(dec_numeral(n).drop_last() =~= dec_numeral(n / 10));
        assert(dec_numeral(n).last() == digit_char(n % 10));
        assert(dec_numeral(n).len() > 0);
        assert(dec_value(dec_numeral(n)) == dec_value(dec_numeral(n / 10)) * 10 + digit_value(digit_char(n % 10)));
        assert(n == (n / 10) * 10 + n % 10) by (nonlinear_arith);
    }
}

/// Law: the logged listening address is exact. For every valid port the
/// rendered address is the host, one colon, and a port text that is itself
/// valid and denotes exactly the configured port — parsing the logged text
/// gives back the pair that was configured.
pub proof fn lemma_address_round_trip(host: Seq<char>, port: u16)
    requires
        1 <= port,
    ensures
        address_text(host, port).subrange(0, host.len() as int) == host,
        address_text(host, port)[host.len() as int] == ':',
        address_text(host, port).subrange(
            host.len() as int + 1,
            address_text(host, port).len() as int,
        ) == dec_numeral(port as nat),
        valid_port_text(dec_numeral(port as nat)),
        dec_value(dec_numeral(port as nat)) == port,
{
    lemma_dec_numeral_value(port as nat);
    let t = address_text(host, port);
    assert(t.subrange(0, host.len() as int) =~= host);
    assert(t.subrange(host.len() as int + 1, t.len() as int) =~= dec_numeral(port as nat));
}

fn digit_str(d: u32) -> (r: &'static str)
    requires
        d < 10,
    ensures
        r@ == seq![digit_char(d as nat)],
{
    proof {
        reveal_strlit("0");
        reveal_strlit("1");
        reveal_strlit("2");
        reveal_strlit("3");
        reveal_strlit("4");
        reveal_strlit("5");
        reveal_strlit("6");
        reveal_strlit("7");
        reveal_strlit("8");
        reveal_strlit("9");
    }
    if d == 0 { "0" }
    else if d == 1 { "1" }
    else if d == 2 { "2" }
    else if d == 3 { "3" }
    else if d == 4 { "4" }
    else if d == 5 { "5" }
    else if d == 6 { "6" }
    else if d == 7 { "7" }
    else if d == 8 { "8" }
    else { "9" }
}

fn push_numeral(out: &mut String, n: u32)
    ensures
        final(out)@ == old(out)@ + dec_numeral(n as nat),
    decreases n,
{
    if n < 10 {
        out.append(digit_str(n));
    } else {
        push_numeral(out, n / 10);
        out.append(digit_str(n % 10));
    }
}

/// Renders `n` as its decimal numeral.
pub fn numeral_string(n: u16) -> (r: String)
    ensures
        r@ == dec_numeral(n as nat),
{
    let mut out = String::new();
    push_numeral(&mut out, n as u32);
    out
}

/// Renders the address the server binds: exactly the configured host,
/// a colon, and the configured port in decimal.
pub fn format_address(host: &str, port: u16) -> (r: String)
    ensures
        r@ == address_text(host@, port),
{
    proof {
        reveal_strlit(":");
    }
    let mut out = String::from_str(host);
    out.append(":");
    push_numeral(&mut out, port as u32);
    out
}

/// The exact line logged once the listener is bound: the address prefixed
/// with `listening on http://`.
pub fn listening_line(host: &str, port: u16) -> (r: String)
    ensures
        r@ == "listening on http://"@ + address_text(host@, port),
{
    let mut out = String::from_str("listening on http://");
    out.append(format_address(host, port).as_str());
    out
}

} // verus!
