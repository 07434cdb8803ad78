use vstd::prelude::*;

use crate::format::{decimal, decimal_string};
use crate::net::{IpAddress, SocketAddress};

verus! {

/// The lowercase hexadecimal digit for `d`, when `d < 16`.
pub open spec fn lower_hex_char(d: nat) -> char {
    if d < 10 {
        ((d + 48) as u32) as char
    } else {
        ((d + 87) as u32) as char
    }
}

/// `n` in lowercase hexadecimal, without leading zeros.
pub open spec fn lower_hex(n: nat) -> Seq<char>
    decreases n,
{
    if n < 16 {
        seq![lower_hex_char(n)]
    } else {
        lower_hex(n / 16).push(lower_hex_char(n % 16))
    }
}

/// An IPv4 address in dotted decimal.
pub open spec fn ipv4_text(a: u8, b: u8, c: u8, d: u8) -> Seq<char> {
    decimal(a as nat) + "."@ + decimal(b as nat) + "."@ + decimal(c as nat) + "."@ + decimal(d as nat)
}

/// Segments in hexadecimal, separated by colons.
pub open spec fn groups_text(segs: Seq<u16>) -> Seq<char>
    decreases segs.len(),
{
    if segs.len() == 0 {
        Seq::empty()
    } else if segs.len() == 1 {
        lower_hex(segs[0] as nat)
    } else {
        groups_text(segs.drop_last()) + ":"@ + lower_hex(segs.last() as nat)
    }
}

/// The first longest run of zero segments among the first `n`, as its
/// start and length, with the run that ends at `n` as start and length.
pub open spec fn zero_spans(segs: Seq<u16>, n: nat) -> (nat, nat, nat, nat)
    decreases n,
{
    if n == 0 {
        (0, 0, 0, 0)
    } else {
        let (ls, ll, cs, cl) = zero_spans(segs, (n - 1) as nat);
        if segs[n - 1] == 0 {
            let start: nat = if cl == 0 {
                (n - 1) as nat
            } else {
                cs
            };
            if cl + 1 > ll {
                (start, cl + 1, start, cl + 1)
            } else {
                (ls, ll, start, cl + 1)
            }
        } else {
            (ls, ll, 0, 0)
        }
    }
}

/// Whether the segments hold an IPv4 address mapped into IPv6.
pub open spec fn is_ipv4_mapped(segs: Seq<u16>) -> bool {
    segs.len() == 8 && segs[0] == 0 && segs[1] == 0 && segs[2] == 0 && segs[3] == 0 && segs[4] == 0 && segs[5]
        == 0xffff
}

/// An IPv6 address as Rust's `Ipv6Addr` writes it: a mapped IPv4 address
/// after `::ffff:`; otherwise the segments in hex, with the first longest
/// run of two or more zero segments written `::`.
pub open spec fn ipv6_text(segs: Seq<u16>) -> Seq<char> {
    if is_ipv4_mapped(segs) {
        "::ffff:"@ + ipv4_text(
            (segs[6] / 256) as u8,
            (segs[6] % 256) as u8,
            (segs[7] / 256) as u8,
            (segs[7] % 256) as u8,
        )
    } else {
        let (start, len, _, _) = zero_spans(segs, segs.len());
        if len > 1 {
            groups_text(segs.subrange(0, start as int)) + "::"@ + groups_text(
                segs.subrange((start + len) as int, segs.len() as int),
            )
        } else {
            groups_text(segs)
        }
    }
}

/// An address as Rust's `SocketAddr` writes it: `ip:port`, with an IPv6
/// address in brackets, followed inside them by `%` and its scope id when
/// that is not zero.
pub open spec fn address_text(addr: SocketAddress) -> Seq<char> {
    match addr.ip {
        IpAddress::V4(a, b, c, d) => ipv4_text(a, b, c, d) + ":"@ + decimal(addr.port as nat),
        IpAddress::V6(a, b, c, d, e, f, g, h) => "["@ + ipv6_text(seq![a, b, c, d, e, f, g, h]) + (if addr.scope_id
            == 0 {
            Seq::empty()
        } else {
            "%"@ + decimal(addr.scope_id as nat)
        }) + "]:"@ + decimal(addr.port as nat),
    }
}

fn lower_hex_digit(d: u16) -> (s: &'static str)
    requires
        d < 16,
    ensures
        s@ == seq![lower_hex_char(d as nat)],
{
    let s = match d {
        0 => "0",
        1 => "1",
        2 => "2",
        3 => "3",
        4 => "4",
        5 => "5",
        6 => "6",
        7 => "7",
        8 => "8",
        9 => "9",
        10 => "a",
        11 => "b",
        12 => "c",
        13 => "d",
        14 => "e",
        _ => "f",
    };
    proof {
        reveal_strlit("0");
        reveal_strlit("1");
        reveal_strlit("2");
        reveal_strlit("3");
        reveal_strlit("4");
        reveal_strlit("5");
        reveal_strlit("6");
        reveal_strlit("7");
        reveal_strlit("8");
        reveal_strlit("9");
        reveal_strlit("a");
        reveal_strlit("b");
        reveal_strlit("c");
        reveal_strlit("d");
        reveal_strlit("e");
        reveal_strlit("f");
    }
    s
}

/// Appends `n` in lowercase hexadecimal.
fn append_lower_hex(text: &mut String, n: u16)
    ensures
        final(text)@ == old(text)@ + lower_hex(n as nat),
    decreases n,
{
    if n >= 16 {
        append_lower_hex(text, n / 16);
        text.append(lower_hex_digit(n % 16));
        assert(lower_hex(n as nat) == lower_hex((n / 16) as nat).push(lower_hex_char((n % 16) as nat)));
        assert(final(text)@ =~= old(text)@ + lower_hex(n as nat)) by {
            assert(text@ =~= old(text)@ + lower_hex((n / 16) as nat) + seq![lower_hex_char((n % 16) as nat)]);
        }
    } else {
        text.append(lower_hex_digit(n));
    }
}

/// Appends the segments in hexadecimal, separated by colons.
fn append_groups(text: &mut String, segs: &[u16], from: usize, to: usize)
    requires
        from <= to <= segs@.len(),
    ensures
        final(text)@ == old(text)@ + groups_text(segs@.subrange(from as int, to as int)),
{
    let mut i = from;
    proof {
        assert(segs@.subrange(from as int, from as int) =~= Seq::<u16>::empty());
    }
    while i < to
        invariant
            from <= i <= to <= segs@.len(),
            text@ == old(text)@ + groups_text(segs@.subrange(from as int, i as int)),
        decreases to - i,
    {
        let ghost before = text@;
        if i > from {
            text.append(":");
            proof {
                reveal_strlit(":");
            }
        }
        append_lower_hex(text, segs[i]);
        proof {
            let part = segs@.subrange(from as int, i as int + 1);
            assert(part.drop_last() =~= segs@.subrange(from as int, i as int));
            assert(part.last() == segs@[i as int]);
            if i == from {
                assert(part.len() == 1);
            }
        }
        i = i + 1;
    }
}

/// Appends an IPv4 address in dotted decimal.
fn append_ipv4(text: &mut String, a: u8, b: u8, c: u8, d: u8)
    ensures
        final(text)@ == old(text)@ + ipv4_text(a, b, c, d),
{
    text.append(decimal_string(a as u64).as_str());
    text.append(".");
    text.append(decimal_string(b as u64).as_str());
    text.append(".");
    text.append(decimal_string(c as u64).as_str());
    text.append(".");
    text.append(decimal_string(d as u64).as_str());
    assert(text@ =~= old(text)@ + ipv4_text(a, b, c, d));
}

/// Appends an IPv6 address as Rust writes it.
fn append_ipv6(text: &mut String, segs: &[u16])
    requires
        segs@.len() == 8,
    ensures
        final(text)@ == old(text)@ + ipv6_text(segs@),
{
    if segs[0] == 0 && segs[1] == 0 && segs[2] == 0 && segs[3] == 0 && segs[4] == 0 && segs[5] == 0xffff {
        text.append("::ffff:");
        append_ipv4(text, (segs[6] / 256) as u8, (segs[6] % 256) as u8, (segs[7] / 256) as u8, (segs[7] % 256) as u8);
        assert(text@ =~= old(text)@ + ipv6_text(segs@));
        return;
    }
    let mut longest_start: usize = 0;
    let mut longest_len: usize = 0;
    let mut current_start: usize = 0;
    let mut current_len: usize = 0;
    let mut i: usize = 0;
    while i < 8
        invariant
            segs@.len() == 8,
            i <= 8,
            zero_spans(segs@, i as nat) == (
                longest_start as nat,
                longest_len as nat,
                current_start as nat,
                current_len as nat,
            ),
            longest_start + longest_len <= i,
            current_start + current_len <= i,
            current_len <= i,
        decreases 8 - i,
    {
        if segs[i] == 0 {
            if current_len == 0 {
                current_start = i;
            }
            current_len = current_len + 1;
            if current_len > longest_len {
                longest_start = current_start;
                longest_len = current_len;
            }
        } else {
            current_start = 0;
            current_len = 0;
        }
        i = i + 1;
    }
    assert(segs@.subrange(0, 8) =~= segs@);
    if longest_len > 1 {
        append_groups(text, segs, 0, longest_start);
        text.append("::");
        append_groups(text, segs, longest_start + longest_len, 8);
        assert(text@ =~= old(text)@ + ipv6_text(segs@));
    } else {
        append_groups(text, segs, 0, 8);
    }
}

/// Writes an address as Rust's `SocketAddr` does.
pub fn address_string(addr: &SocketAddress) -> (text: String)
    ensures
        text@ == address_text(*addr),
{
    let mut text = String::new();
    match addr.ip {
        IpAddress::V4(a, b, c, d) => {
            append_ipv4(&mut text, a, b, c, d);
            text.append(":");
        },
        IpAddress::V6(a, b, c, d, e, f, g, h) => {
            let segs: [u16; 8] = [a, b, c, d, e, f, g, h];
            text.append("[");
            append_ipv6(&mut text, segs.as_slice());
            assert(segs@ =~= seq![a, b, c, d, e, f, g, h]);
            if addr.scope_id != 0 {
                text.append("%");
                text.append(decimal_string(addr.scope_id as u64).as_str());
            }
            text.append("]:");
        },
    }
    text.append(decimal_string(addr.port as u64).as_str());
    text
}

} // verus!
