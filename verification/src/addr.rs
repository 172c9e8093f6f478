use vstd::prelude::*;
use vstd::string::StringExecFns;

verus! {

/// An IP address, modelled as its numeric value.
#[derive(Clone, Copy, Debug, PartialEq, Eq, Structural)]
pub enum Ip {
    V4(u32),
    V6(u128),
}

/// A socket address: an IP address and a port.
#[derive(Clone, Copy, Debug, PartialEq, Eq, Structural)]
pub struct Addr {
    pub ip: Ip,
    pub port: u16,
}

/// The character that writes one digit value; base 16 covers base 10.
pub open spec fn digit_char(d: nat) -> char {
    if d == 0 {
        '0'
    } else if d == 1 {
        '1'
    } else if d == 2 {
        '2'
    } else if d == 3 {
        '3'
    } else if d == 4 {
        '4'
    } else if d == 5 {
        '5'
    } else if d == 6 {
        '6'
    } else if d == 7 {
        '7'
    } else if d == 8 {
        '8'
    } else if d == 9 {
        '9'
    } else if d == 10 {
        'a'
    } else if d == 11 {
        'b'
    } else if d == 12 {
        'c'
    } else if d == 13 {
        'd'
    } else if d == 14 {
        'e'
    } else {
        'f'
    }
}

/// The decimal writing of `n`, most significant digit first, no leading zero.
pub open spec fn dec_rep(n: nat) -> Seq<char>
    decreases n,
{
    if n < 10 {
        seq![digit_char(n)]
    } else {
        dec_rep(n / 10).push(digit_char(n % 10))
    }
}

/// The hexadecimal writing of `n`, most significant digit first, lower case,
/// no leading zero.
pub open spec fn hex_rep(n: nat) -> Seq<char>
    decreases n,
{
    if n < 16 {
        seq![digit_char(n)]
    } else {
        hex_rep(n / 16).push(digit_char(n % 16))
    }
}

/// The string slice that writes one digit value.
fn digit_str(d: u8) -> (s: &'static str)
    requires
        d < 16,
    ensures
        s@ == seq![digit_char(d as nat)],
{
    proof {
        reveal_strlit("0");
        reveal_strlit("1");
        reveal_strlit("2");
        reveal_strlit("3");
        reveal_strlit("4");
        reveal_strlit("5");
        reveal_strlit("6");
        reveal_strlit("7");
        reveal_strlit("8");
        reveal_strlit("9");
        reveal_strlit("a");
        reveal_strlit("b");
        reveal_strlit("c");
        reveal_strlit("d");
        reveal_strlit("e");
        reveal_strlit("f");
    }
    let s: &'static str = match d {
        0 => "0",
        1 => "1",
        2 => "2",
        3 => "3",
        4 => "4",
        5 => "5",
        6 => "6",
        7 => "7",
        8 => "8",
        9 => "9",
        10 => "a",
        11 => "b",
        12 => "c",
        13 => "d",
        14 => "e",
        _ => "f",
    };
    proof {
        assert(s@ =~= seq![digit_char(d as nat)]);
    }
    s
}

/// Appends the decimal writing of `n` to `s`.
pub fn push_dec(s: &mut String, n: u64)
    ensures
        final(s)@ == old(s)@ + dec_rep(n as nat),
    decreases n,
{
    if n < 10 {
        s.append(digit_str(n as u8));
        assert(s@ =~= old(s)@ + dec_rep(n as nat));
    } else {
        push_dec(s, n / 10);
        s.append(digit_str((n % 10) as u8));
        assert(s@ =~= old(s)@ + dec_rep(n as nat));
    }
}

/// Appends the hexadecimal writing of `n` to `s`.
pub fn push_hex(s: &mut String, n: u64)
    ensures
        final(s)@ == old(s)@ + hex_rep(n as nat),
    decreases n,
{
    if n < 16 {
        s.append(digit_str(n as u8));
        assert(s@ =~= old(s)@ + hex_rep(n as nat));
    } else {
        push_hex(s, n / 16);
        s.append(digit_str((n % 16) as u8));
        assert(s@ =~= old(s)@ + hex_rep(n as nat));
    }
}

/// One of the four dotted groups of an IPv4 address; group 0 is the most
/// significant.
pub open spec fn v4_octet(n: u32, i: int) -> nat {
    if i == 0 {
        (n as nat / 16777216) % 256
    } else if i == 1 {
        (n as nat / 65536) % 256
    } else if i == 2 {
        (n as nat / 256) % 256
    } else {
        n as nat % 256
    }
}

/// One of the eight colon-separated groups of an IPv6 address; group 0 is the
/// most significant.
pub open spec fn v6_group(n: u128, i: int) -> nat {
    if i == 0 {
        (n as nat / 0x10000000000000000000000000000) % 65536
    } else if i == 1 {
        (n as nat / 0x1000000000000000000000000) % 65536
    } else if i == 2 {
        (n as nat / 0x100000000000000000000) % 65536
    } else if i == 3 {
        (n as nat / 0x10000000000000000) % 65536
    } else if i == 4 {
        (n as nat / 0x1000000000000) % 65536
    } else if i == 5 {
        (n as nat / 0x100000000) % 65536
    } else if i == 6 {
        (n as nat / 0x10000) % 65536
    } else {
        n as nat % 65536
    }
}

/// The text form of an IPv4 address: four decimal groups joined by dots.
pub open spec fn v4_text(n: u32) -> Seq<char> {
    dec_rep(v4_octet(n, 0)) + seq!['.'] + dec_rep(v4_octet(n, 1)) + seq!['.'] + dec_rep(
        v4_octet(n, 2),
    ) + seq!['.'] + dec_rep(v4_octet(n, 3))
}

/// The text form of an IPv6 address: eight hexadecimal groups joined by
/// colons, without zero compression, in brackets.
pub open spec fn v6_text(n: u128) -> Seq<char> {
    seq!['['] + hex_rep(v6_group(n, 0)) + seq![':'] + hex_rep(v6_group(n, 1)) + seq![':'] + hex_rep(
        v6_group(n, 2),
    ) + seq![':'] + hex_rep(v6_group(n, 3)) + seq![':'] + hex_rep(v6_group(n, 4)) + seq![':']
        + hex_rep(v6_group(n, 5)) + seq![':'] + hex_rep(v6_group(n, 6)) + seq![':'] + hex_rep(
        v6_group(n, 7),
    ) + seq![']']
}

/// The text form of a socket address: the address, a colon, the decimal port.
pub open spec fn addr_text_spec(a: Addr) -> Seq<char> {
    match a.ip {
        Ip::V4(n) => v4_text(n) + seq![':'] + dec_rep(a.port as nat),
        Ip::V6(n) => v6_text(n) + seq![':'] + dec_rep(a.port as nat),
    }
}

/// Appends a dot.
fn push_dot(s: &mut String)
    ensures
        final(s)@ == old(s)@ + seq!['.'],
{
    proof {
        reveal_strlit(".");
    }
    s.append(".");
    assert(s@ =~= old(s)@ + seq!['.']);
}

/// Appends a colon.
fn push_colon(s: &mut String)
    ensures
        final(s)@ == old(s)@ + seq![':'],
{
    proof {
        reveal_strlit(":");
    }
    s.append(":");
    assert(s@ =~= old(s)@ + seq![':']);
}

/// Writes a socket address as text, as `addr_text_spec` lays it down.
pub fn addr_text(a: &Addr) -> (s: String)
    ensures
        s@ == addr_text_spec(*a),
{
    let mut s = String::new();
    match a.ip {
        Ip::V4(n) => {
            push_dec(&mut s, ((n / 16777216) % 256) as u64);
            push_dot(&mut s);
            push_dec(&mut s, ((n / 65536) % 256) as u64);
            push_dot(&mut s);
            push_dec(&mut s, ((n / 256) % 256) as u64);
            push_dot(&mut s);
            push_dec(&mut s, (n % 256) as u64);
        },
        Ip::V6(n) => {
            proof {
                reveal_strlit("[");
                reveal_strlit("]");
            }
            s.append("[");
            assert(s@ =~= seq!['[']);
            push_hex(&mut s, ((n / 0x10000000000000000000000000000) % 65536) as u64);
            push_colon(&mut s);
            push_hex(&mut s, ((n / 0x1000000000000000000000000) % 65536) as u64);
            push_colon(&mut s);
            push_hex(&mut s, ((n / 0x100000000000000000000) % 65536) as u64);
            push_colon(&mut s);
            push_hex(&mut s, ((n / 0x10000000000000000) % 65536) as u64);
            push_colon(&mut s);
            push_hex(&mut s, ((n / 0x1000000000000) % 65536) as u64);
            push_colon(&mut s);
            push_hex(&mut s, ((n / 0x100000000) % 65536) as u64);
            push_colon(&mut s);
            push_hex(&mut s, ((n / 0x10000) % 65536) as u64);
            push_colon(&mut s);
            push_hex(&mut s, (n % 65536) as u64);
            s.append("]");
        },
    }
    push_colon(&mut s);
    push_dec(&mut s, a.port as u64);
    proof {
        assert(s@ =~= addr_text_spec(*a));
    }
    s
}

} // verus!
