//! IP addresses as values, and the text they are written back as: decimal
//! dotted quads, and IPv6 groups in lower-case hexadecimal with the longest
//! run of zero groups shortened to `::`.
use vstd::prelude::*;
use crate::ids::hex_char;
use crate::net::{ipv4_octets, ipv6_groups, parse_ipv4, parse_ipv6};

verus! {

/// An IP address: four octets, or eight 16-bit groups.
#[derive(Debug, Clone, Copy, PartialEq, Eq)]
pub enum IpAddress {
    V4([u8; 4]),
    V6([u16; 8]),
}

/// An IP address and a port to listen on.
#[derive(Debug, Clone, Copy, PartialEq, Eq)]
pub struct SocketAddress {
    pub ip: IpAddress,
    pub port: u16,
}

/// The address `text` is read as, if any: IPv4 first, then IPv6.
pub open spec fn ip_of(text: Seq<char>) -> Option<IpAddress> {
    match ipv4_octets(text) {
        Some(o) => Some(IpAddress::V4([o[0], o[1], o[2], o[3]])),
        None => match ipv6_groups(text) {
            Some(g) => Some(IpAddress::V6([g[0], g[1], g[2], g[3], g[4], g[5], g[6], g[7]])),
            None => None,
        },
    }
}

/// Reads an IP address from `text`.
pub fn parse_ip(text: &str) -> (r: Option<IpAddress>)
    ensures
        r == ip_of(text@),
{
    let v = crate::text::to_chars(text);
    match parse_ipv4(v.as_slice()) {
        Some(o) => {
            assert(o@.len() == 4);
            Some(IpAddress::V4([o[0], o[1], o[2], o[3]]))
        },
        None => match parse_ipv6(v.as_slice()) {
            Some(g) => {
                proof {
                    crate::net::lemma_ipv6_groups_len(v@);
                }
                Some(IpAddress::V6([g[0], g[1], g[2], g[3], g[4], g[5], g[6], g[7]]))
            },
            None => None,
        },
    }
}

/// The character of a decimal digit.
pub open spec fn dec_char(d: nat) -> char {
    ((d + 48) as u8) as char
}

/// `n` in decimal, without leading zeros.
pub open spec fn dec_text(n: nat) -> Seq<char>
    decreases n,
{
    if n < 10 {
        seq![dec_char(n)]
    } else {
        dec_text(n / 10).push(dec_char(n % 10))
    }
}

/// `n` in lower-case hexadecimal, without leading zeros.
pub open spec fn hex_text(n: nat) -> Seq<char>
    decreases n,
{
    if n < 16 {
        seq![hex_char(n)]
    } else {
        hex_text(n / 16).push(hex_char(n % 16))
    }
}

/// Appends `n` in decimal.
pub fn push_dec(out: &mut String, n: u64)
    ensures
        final(out)@ == old(out)@ + dec_text(n as nat),
    decreases n,
{
    if n >= 10 {
        push_dec(out, n / 10);
    }
    let d = (n % 10) as u8;
    out.push((d + 48) as char);
}

/// Appends `n` in lower-case hexadecimal.
pub fn push_hex(out: &mut String, n: u64)
    ensures
        final(out)@ == old(out)@ + hex_text(n as nat),
    decreases n,
{
    if n >= 16 {
        push_hex(out, n / 16);
    }
    let d = (n % 16) as u8;
    if d < 10 {
        out.push((d + 48) as char);
    } else {
        out.push((d + 87) as char);
    }
}

/// `n` in decimal.
pub fn dec_string(n: u64) -> (s: String)
    ensures
        s@ == dec_text(n as nat),
{
    let mut s = String::new();
    push_dec(&mut s, n);
    s
}

/// Four octets as a dotted quad.
pub open spec fn ipv4_text(o: Seq<u8>) -> Seq<char> {
    dec_text(o[0] as nat) + "."@ + dec_text(o[1] as nat) + "."@ + dec_text(o[2] as nat) + "."@ + dec_text(
        o[3] as nat,
    )
}

/// Groups in hexadecimal, separated by colons.
pub open spec fn join_hex(g: Seq<u16>) -> Seq<char>
    decreases g.len(),
{
    if g.len() == 0 {
        Seq::<char>::empty()
    } else if g.len() == 1 {
        hex_text(g[0] as nat)
    } else {
        join_hex(g.drop_last()) + ":"@ + hex_text(g.last() as nat)
    }
}

/// Groups `s` to `s + l` of `g` exist and are zero, with at least one.
pub open spec fn zeros_at(g: Seq<u16>, s: int, l: int) -> bool {
    &&& 0 <= s
    &&& 1 <= l
    &&& s + l <= g.len()
    &&& forall|k: int| s <= k < s + l ==> g[k] == 0
}

/// `(s, l)` is the longest run of zero groups of `g`, and the first of the
/// longest ones.
pub open spec fn longest_zero_run(g: Seq<u16>, s: int, l: int) -> bool {
    &&& zeros_at(g, s, l)
    &&& forall|s2: int, l2: int| #[trigger] zeros_at(g, s2, l2) ==> l2 <= l
    &&& forall|s2: int| 0 <= s2 < s ==> !zeros_at(g, s2, l)
}

/// The eight groups are an IPv4 address mapped into IPv6: `::ffff:a.b.c.d`.
pub open spec fn ipv4_mapped(g: Seq<u16>) -> bool {
    g[0] == 0 && g[1] == 0 && g[2] == 0 && g[3] == 0 && g[4] == 0 && g[5] == 0xffff
}

/// Eight groups as `Ipv6Addr`'s `Display` writes them: a mapped IPv4
/// address as `::ffff:` and a dotted quad; otherwise the groups in
/// hexadecimal with the first longest run of two or more zero groups
/// written as `::`.
pub open spec fn ipv6_text(g: Seq<u16>) -> Seq<char> {
    if ipv4_mapped(g) {
        "::ffff:"@ + ipv4_text(seq![(g[6] / 256) as u8, (g[6] % 256) as u8, (g[7] / 256) as u8, (g[7] % 256) as u8])
    } else if exists|s: int, l: int| longest_zero_run(g, s, l) && l > 1 {
        let (s, l) = choose|s: int, l: int| longest_zero_run(g, s, l) && l > 1;
        join_hex(g.subrange(0, s)) + "::"@ + join_hex(g.subrange(s + l, g.len() as int))
    } else {
        join_hex(g)
    }
}

/// There is at most one first longest run of zero groups.
proof fn lemma_longest_zero_run_unique(g: Seq<u16>, s: int, l: int, s2: int, l2: int)
    requires
        longest_zero_run(g, s, l),
        longest_zero_run(g, s2, l2),
    ensures
        s == s2 && l == l2,
{
    assert(zeros_at(g, s, l));
    assert(zeros_at(g, s2, l2));
    assert(l == l2);
    if s < s2 {
        assert(!zeros_at(g, s, l2));
    }
    if s2 < s {
        assert(!zeros_at(g, s2, l));
    }
}

/// Appends groups in hexadecimal, separated by colons.
fn push_groups(out: &mut String, g: &[u16], from: usize, to: usize)
    requires
        from <= to <= g@.len(),
    ensures
        final(out)@ == old(out)@ + join_hex(g@.subrange(from as int, to as int)),
{
    let mut i = from;
    while i < to
        invariant
            from <= i <= to <= g@.len(),
            out@ == old(out)@ + join_hex(g@.subrange(from as int, i as int)),
        decreases to - i,
    {
        let ghost before = out@;
        if i > from {
            out.push(':');
        }
        push_hex(out, g[i] as u64);
        proof {
            let part = g@.subrange(from as int, i + 1);
            assert(part.drop_last() =~= g@.subrange(from as int, i as int));
            assert(part.last() == g@[i as int]);
            reveal_strlit(":");
            if i == from {
                assert(g@.subrange(from as int, i as int).len() == 0);
            }
            assert(out@ =~= old(out)@ + join_hex(part));
        }
        i = i + 1;
    }
}

/// The text an IPv4 address is written as.
pub fn format_ipv4(o: [u8; 4]) -> (s: String)
    ensures
        s@ == ipv4_text(o@),
{
    let mut s = String::new();
    push_dec(&mut s, o[0] as u64);
    s.push('.');
    push_dec(&mut s, o[1] as u64);
    s.push('.');
    push_dec(&mut s, o[2] as u64);
    s.push('.');
    push_dec(&mut s, o[3] as u64);
    proof {
        reveal_strlit(".");
        assert(s@ =~= ipv4_text(o@));
    }
    s
}

/// The text an IPv6 address is written as.
pub fn format_ipv6(g: [u16; 8]) -> (s: String)
    ensures
        s@ == ipv6_text(g@),
{
    if g[0] == 0 && g[1] == 0 && g[2] == 0 && g[3] == 0 && g[4] == 0 && g[5] == 0xffff {
        let v4: [u8; 4] = [(g[6] / 256) as u8, (g[6] % 256) as u8, (g[7] / 256) as u8, (g[7] % 256) as u8];
        let tail = format_ipv4(v4);
        let mut s = String::from_str("::ffff:");
        s.append(tail.as_str());
        proof {
            assert(v4@ =~= seq![(g@[6] / 256) as u8, (g@[6] % 256) as u8, (g@[7] / 256) as u8, (g@[7] % 256) as u8]);
        }
        return s;
    }
    let ghost gs = g@;
    let mut cur_start: usize = 0;
    let mut cur_len: usize = 0;
    let mut best_start: usize = 0;
    let mut best_len: usize = 0;
    let mut i: usize = 0;
    while i < 8
        invariant
            gs == g@,
            gs.len() == 8,
            i <= 8,
            cur_len <= i,
            cur_start + cur_len == i,
            forall|k: int| cur_start <= k < i ==> gs[k] == 0,
            cur_start > 0 ==> gs[cur_start - 1] != 0,
            cur_len <= best_len,
            best_len == 0 ==> forall|k: int| 0 <= k < i ==> gs[k] != 0,
            best_len >= 1 ==> zeros_at(gs, best_start as int, best_len as int) && best_start + best_len <= i,
            forall|s2: int, l2: int| #[trigger] zeros_at(gs, s2, l2) && s2 + l2 <= i ==> l2 <= best_len,
            forall|s2: int| 0 <= s2 < best_start ==> !(zeros_at(gs, s2, best_len as int) && s2 + best_len <= i),
        decreases 8 - i,
    {
        if g[i] == 0 {
            if cur_len == 0 {
                cur_start = i;
            }
            cur_len = cur_len + 1;
            if cur_len > best_len {
                best_start = cur_start;
                best_len = cur_len;
            }
        } else {
            cur_len = 0;
            cur_start = i + 1;
        }
        proof {
            assert forall|s2: int, l2: int| #[trigger] zeros_at(gs, s2, l2) && s2 + l2 <= i + 1 implies l2 <= best_len by {
                if s2 + l2 == i + 1 {
                    assert(gs[i as int] == 0);
                    if s2 < cur_start {
                        assert(gs[cur_start - 1] == 0);
                    }
                }
            }
        }
        i = i + 1;
    }
    let mut s = String::new();
    if best_len > 1 {
        proof {
            assert(longest_zero_run(gs, best_start as int, best_len as int));
            assert forall|s2: int, l2: int| longest_zero_run(gs, s2, l2) && l2 > 1 implies s2 == best_start && l2 == best_len by {
                lemma_longest_zero_run_unique(gs, best_start as int, best_len as int, s2, l2);
            }
        }
        push_groups(&mut s, &g, 0, best_start);
        s.push(':');
        s.push(':');
        push_groups(&mut s, &g, best_start + best_len, 8);
        proof {
            reveal_strlit("::");
            assert(s@ =~= join_hex(gs.subrange(0, best_start as int)) + "::"@ + join_hex(
                gs.subrange(best_start + best_len, 8),
            ));
        }
    } else {
        proof {
            assert forall|s2: int, l2: int| !(longest_zero_run(gs, s2, l2) && l2 > 1) by {
                if longest_zero_run(gs, s2, l2) && l2 > 1 {
                    assert(zeros_at(gs, s2, l2) && s2 + l2 <= 8);
                }
            }
        }
        push_groups(&mut s, &g, 0, 8);
        assert(gs.subrange(0, 8) =~= gs);
    }
    s
}

} // verus!
