//! Where the server listens for GDB.
use vstd::prelude::*;

verus! {

/// The TCP port that the server listens on unless told otherwise.
pub const DEFAULT_PORT: u32 = 3333;

/// The character of a decimal digit.
pub open spec fn decimal_digit(d: nat) -> char {
    (48 + d) as char
}

/// The decimal digits of `n`, most significant first, without leading zeros.
pub open spec fn decimal_digits(n: nat) -> Seq<char>
    decreases n,
{
    if n < 10 {
        seq![decimal_digit(n)]
    } else {
        decimal_digits(n / 10).push(decimal_digit(n % 10))
    }
}

/// The address that the server binds: every IPv4 interface, at `port`.
pub open spec fn listen_address_spec(port: u32) -> Seq<char> {
    "0.0.0.0:"@ + decimal_digits(port as nat)
}

/// Appends the character of the decimal digit `d`.
fn push_digit(s: &mut String, d: u32)
    requires
        d < 10,
    ensures
        final(s)@ == old(s)@.push(decimal_digit(d as nat)),
{
    let digit: &str = match d {
        0 => "0",
        1 => "1",
        2 => "2",
        3 => "3",
        4 => "4",
        5 => "5",
        6 => "6",
        7 => "7",
        8 => "8",
        _ => "9",
    };
    proof {
        reveal_strlit("0");
        reveal_strlit("1");
        reveal_strlit("2");
        reveal_strlit("3");
        reveal_strlit("4");
        reveal_strlit("5");
        reveal_strlit("6");
        reveal_strlit("7");
        reveal_strlit("8");
        reveal_strlit("9");
    }
    assert(digit@ =~= seq![decimal_digit(d as nat)]);
    s.append(digit);
}

/// Appends the decimal digits of `n`.
fn push_decimal(s: &mut String, n: u32)
    ensures
        final(s)@ == old(s)@ + decimal_digits(n as nat),
    decreases n,
{
    if n >= 10 {
        push_decimal(s, n / 10);
    }
    push_digit(s, n % 10);
    assert(final(s)@ =~= old(s)@ + decimal_digits(n as nat));
}

/// The address that the server binds for `port`: `0.0.0.0:` and the port in decimal.
pub fn listen_address(port: u32) -> (r: String)
    ensures
        r@ == listen_address_spec(port),
{
    let mut s = String::from_str("0.0.0.0:");
    push_decimal(&mut s, port);
    s
}

/// The number that a string of decimal digit characters spells, most significant first.
pub open spec fn parse_decimal(s: Seq<char>) -> int
    decreases s.len(),
{
    if s.len() == 0 {
        0
    } else {
        parse_decimal(s.drop_last()) * 10 + (s.last() as int - '0' as int)
    }
}

/// A decimal digit character `0`-`9`.
pub open spec fn is_decimal_char(c: char) -> bool {
    '0' <= c <= '9'
}

/// The digits of `n` are decimal digit characters that read back as `n`, with no
/// leading zero (but for zero itself).
pub proof fn lemma_decimal_digits_spell(n: nat)
    ensures
        parse_decimal(decimal_digits(n)) == n,
        forall|i: int|
            0 <= i < decimal_digits(n).len() ==> is_decimal_char(#[trigger] decimal_digits(n)[i]),
        decimal_digits(n).len() >= 1,
        n > 0 ==> decimal_digits(n)[0] != '0',
    decreases n,
{
    let s = decimal_digits(n);
    if n >= 10 {
        lemma_decimal_digits_spell(n / 10);
        assert(s.drop_last() =~= decimal_digits(n / 10));
        assert(s[0] == decimal_digits(n / 10)[0]);
        vstd::arithmetic::div_mod::lemma_fundamental_div_mod(n as int, 10);
        assert(s.last() == decimal_digit(n % 10));
        assert(decimal_digit(n % 10) as int - '0' as int == n % 10);
        assert(parse_decimal(s) == parse_decimal(s.drop_last()) * 10 + (s.last() as int - '0' as int));
    } else {
        assert(s.drop_last() =~= Seq::<char>::empty());
        assert(decimal_digit(n) as int - '0' as int == n);
        assert(parse_decimal(s) == parse_decimal(s.drop_last()) * 10 + (s.last() as int - '0' as int));
    }
}

/// The listening address is `0.0.0.0:` followed by decimal digits that read back
/// as the port.
pub proof fn lemma_listen_address_port(port: u32)
    ensures
        listen_address_spec(port).subrange(0, 8) == "0.0.0.0:"@,
        parse_decimal(listen_address_spec(port).subrange(8, listen_address_spec(port).len() as int))
            == port,
        forall|i: int|
            8 <= i < listen_address_spec(port).len() ==> is_decimal_char(
                #[trigger] listen_address_spec(port)[i],
            ),
{
    reveal_strlit("0.0.0.0:");
    let d = decimal_digits(port as nat);
    lemma_decimal_digits_spell(port as nat);
    let a = listen_address_spec(port);
    assert(a.subrange(0, 8) =~= "0.0.0.0:"@);
    assert(a.subrange(8, a.len() as int) =~= d);
    assert forall|i: int| 8 <= i < a.len() implies is_decimal_char(#[trigger] a[i]) by {
        assert(a[i] == d[i - 8]);
    }
}

} // verus!
