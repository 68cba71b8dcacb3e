//! Recognising textual IP addresses, as `str::parse::<IpAddr>` reads them,
//! and telling loopback addresses apart.
use vstd::prelude::*;

verus! {

/// `s` cut at every `sep`: the pieces between separators, in order
/// (an empty string gives one empty piece).
pub open spec fn split_on(s: Seq<char>, sep: char) -> Seq<Seq<char>>
    decreases s.len(),
{
    if s.len() == 0 {
        seq![Seq::<char>::empty()]
    } else {
        let rest = split_on(s.drop_last(), sep);
        if s.last() == sep {
            rest.push(Seq::<char>::empty())
        } else {
            rest.update(rest.len() - 1, rest.last().push(s.last()))
        }
    }
}

/// A string without the separator is one piece.
pub proof fn lemma_split_without_separator(s: Seq<char>, sep: char)
    requires
        forall|i: int| 0 <= i < s.len() ==> s[i] != sep,
    ensures
        split_on(s, sep).len() == 1,
    decreases s.len(),
{
    if s.len() > 0 {
        lemma_split_without_separator(s.drop_last(), sep);
    }
}

pub open spec fn is_dec_digit(c: char) -> bool {
    '0' <= c <= '9'
}

pub open spec fn is_hex_digit(c: char) -> bool {
    ||| '0' <= c <= '9'
    ||| 'a' <= c <= 'f'
    ||| 'A' <= c <= 'F'
}

pub open spec fn hex_digit_value(c: char) -> nat {
    if '0' <= c <= '9' {
        (c as u32 - '0' as u32) as nat
    } else if 'a' <= c <= 'f' {
        (c as u32 - 'a' as u32 + 10) as nat
    } else {
        (c as u32 - 'A' as u32 + 10) as nat
    }
}

/// The number that the digits of `f` spell in base `radix`.
pub open spec fn digits_value(f: Seq<char>, radix: nat) -> nat
    decreases f.len(),
{
    if f.len() == 0 {
        0
    } else {
        digits_value(f.drop_last(), radix) * radix + hex_digit_value(f.last())
    }
}

/// A decimal octet as `Ipv4Addr` accepts it: one to three digits, no
/// leading zero unless the octet is `0`, value at most 255.
pub open spec fn dec_octet(f: Seq<char>) -> Option<u8> {
    if 1 <= f.len() <= 3 && (forall|k: int| 0 <= k < f.len() ==> is_dec_digit(#[trigger] f[k])) && !(
    f.len() > 1 && f[0] == '0') && digits_value(f, 10) <= 255 {
        Some(digits_value(f, 10) as u8)
    } else {
        None
    }
}

/// The four octets of a dotted-decimal IPv4 address, if `s` is one.
pub open spec fn ipv4_octets(s: Seq<char>) -> Option<Seq<u8>> {
    let parts = split_on(s, '.');
    if parts.len() == 4 && dec_octet(parts[0]) is Some && dec_octet(parts[1]) is Some && dec_octet(
        parts[2],
    ) is Some && dec_octet(parts[3]) is Some {
        Some(
            seq![
                dec_octet(parts[0])->0,
                dec_octet(parts[1])->0,
                dec_octet(parts[2])->0,
                dec_octet(parts[3])->0,
            ],
        )
    } else {
        None
    }
}

/// A group of an IPv6 address: one to four hexadecimal digits.
pub open spec fn hex_group(f: Seq<char>) -> Option<u16> {
    if 1 <= f.len() <= 4 && (forall|k: int| 0 <= k < f.len() ==> is_hex_digit(#[trigger] f[k])) {
        Some(digits_value(f, 16) as u16)
    } else {
        None
    }
}

/// The 16-bit groups that the colon-separated `parts` stand for; when
/// `v4_last` holds, the last part may be a dotted IPv4 address, which
/// stands for two groups.
pub open spec fn parts_groups(parts: Seq<Seq<char>>, v4_last: bool) -> Option<Seq<u16>>
    decreases parts.len(),
{
    if parts.len() == 0 {
        Some(Seq::<u16>::empty())
    } else {
        let last = parts.last();
        let front = parts_groups(parts.drop_last(), false);
        let tail: Option<Seq<u16>> = if v4_last && last.contains('.') {
            match ipv4_octets(last) {
                Some(o) => Some(
                    seq![(o[0] as int * 256 + o[1] as int) as u16, (o[2] as int * 256 + o[3] as int) as u16],
                ),
                None => None,
            }
        } else {
            match hex_group(last) {
                Some(g) => Some(seq![g]),
                None => None,
            }
        };
        match (front, tail) {
            (Some(a), Some(b)) => Some(a + b),
            _ => None,
        }
    }
}

/// The index of the first `::` in `s` at or after `i`, or -1.
pub open spec fn find_double_colon(s: Seq<char>, i: int) -> int
    decreases s.len() - i,
{
    if i < 0 || i + 1 >= s.len() {
        -1
    } else if s[i] == ':' && s[i + 1] == ':' {
        i
    } else {
        find_double_colon(s, i + 1)
    }
}

/// The groups of the colon-separated `s`; an empty `s` has none.
pub open spec fn groups_of(s: Seq<char>, v4_last: bool) -> Option<Seq<u16>> {
    if s.len() == 0 {
        Some(Seq::<u16>::empty())
    } else {
        parts_groups(split_on(s, ':'), v4_last)
    }
}

/// The eight groups of an IPv6 address, if `s` is one: eight groups, the
/// last two of which may be written as an IPv4 address, or a `::` that
/// stands for one or more zero groups between at most seven written ones.
pub open spec fn ipv6_groups(s: Seq<char>) -> Option<Seq<u16>> {
    let d = find_double_colon(s, 0);
    if d < 0 {
        match parts_groups(split_on(s, ':'), true) {
            Some(g) => if g.len() == 8 {
                Some(g)
            } else {
                None
            },
            None => None,
        }
    } else {
        let head = groups_of(s.subrange(0, d), false);
        let tail = groups_of(s.subrange(d + 2, s.len() as int), true);
        match (head, tail) {
            (Some(h), Some(t)) => if h.len() + t.len() <= 7 {
                Some(h + Seq::new((8 - h.len() - t.len()) as nat, |k: int| 0u16) + t)
            } else {
                None
            },
            _ => None,
        }
    }
}

/// `s` is an IPv4 address in `127.0.0.0/8` or the IPv6 address `::1`,
/// which is what `IpAddr::is_loopback` accepts after `str::parse`.
pub open spec fn is_loopback_ip(s: Seq<char>) -> bool {
    match ipv4_octets(s) {
        Some(o) => o[0] == 127,
        None => match ipv6_groups(s) {
            Some(g) => g == seq![0u16, 0u16, 0u16, 0u16, 0u16, 0u16, 0u16, 1u16],
            None => false,
        },
    }
}

/// The characters `v[a..b]` as a vector.
pub fn copy_range(v: &[char], a: usize, b: usize) -> (r: Vec<char>)
    requires
        a <= b <= v@.len(),
    ensures
        r@ == v@.subrange(a as int, b as int),
{
    let mut r: Vec<char> = Vec::new();
    let mut i = a;
    while i < b
        invariant
            a <= i <= b <= v@.len(),
            r@ == v@.subrange(a as int, i as int),
        decreases b - i,
    {
        r.push(v[i]);
        i = i + 1;
        assert(r@ == v@.subrange(a as int, i as int));
    }
    r
}

/// The pieces of `v` between the separators `sep`.
pub fn split_chars(v: &[char], sep: char) -> (r: Vec<Vec<char>>)
    ensures
        r@.len() == split_on(v@, sep).len(),
        forall|k: int| 0 <= k < r@.len() ==> #[trigger] r@[k]@ == split_on(v@, sep)[k],
{
    let mut done: Vec<Vec<char>> = Vec::new();
    let mut cur: Vec<char> = Vec::new();
    let mut i: usize = 0;
    while i < v.len()
        invariant
            i <= v@.len(),
            done@.len() + 1 == split_on(v@.subrange(0, i as int), sep).len(),
            forall|k: int| 0 <= k < done@.len() ==> #[trigger] done@[k]@ == split_on(v@.subrange(0, i as int), sep)[k],
            cur@ == split_on(v@.subrange(0, i as int), sep).last(),
        decreases v@.len() - i,
    {
        let ghost before = v@.subrange(0, i as int);
        let ghost after = v@.subrange(0, i + 1);
        assert(after.drop_last() == before);
        assert(after.last() == v@[i as int]);
        if v[i] == sep {
            let finished = cur;
            done.push(finished);
            cur = Vec::new();
        } else {
            cur.push(v[i]);
        }
        i = i + 1;
    }
    assert(v@.subrange(0, v@.len() as int) == v@);
    done.push(cur);
    done
}

/// Whether `c` occurs in `v`.
pub fn chars_have(v: &[char], c: char) -> (r: bool)
    ensures
        r == v@.contains(c),
{
    let mut i: usize = 0;
    while i < v.len()
        invariant
            i <= v@.len(),
            forall|k: int| 0 <= k < i ==> v@[k] != c,
        decreases v@.len() - i,
    {
        if v[i] == c {
            return true;
        }
        i = i + 1;
    }
    false
}

/// A decimal IPv4 octet, as `dec_octet` describes.
pub fn parse_dec_octet(f: &[char]) -> (r: Option<u8>)
    ensures
        r == dec_octet(f@),
{
    if f.len() < 1 || f.len() > 3 {
        return None;
    }
    if f.len() > 1 && f[0] == '0' {
        return None;
    }
    let mut val: u32 = 0;
    let mut k: usize = 0;
    while k < f.len()
        invariant
            1 <= f@.len() <= 3,
            k <= f@.len(),
            forall|j: int| 0 <= j < k ==> is_dec_digit(#[trigger] f@[j]),
            val == digits_value(f@.subrange(0, k as int), 10),
            val < (if k == 0 { 1int } else if k == 1 { 10int } else if k == 2 { 100int } else { 1000int }),
        decreases f@.len() - k,
    {
        let c = f[k];
        if !('0' <= c && c <= '9') {
            return None;
        }
        let d = (c as u32) - ('0' as u32);
        assert(f@.subrange(0, k + 1).drop_last() == f@.subrange(0, k as int));
        val = val * 10 + d;
        k = k + 1;
    }
    assert(f@.subrange(0, f@.len() as int) == f@);
    if val > 255 {
        return None;
    }
    Some(val as u8)
}

/// An IPv6 group of one to four hexadecimal digits.
pub fn parse_hex_group(f: &[char]) -> (r: Option<u16>)
    ensures
        r == hex_group(f@),
{
    if f.len() < 1 || f.len() > 4 {
        return None;
    }
    let mut val: u32 = 0;
    let mut k: usize = 0;
    while k < f.len()
        invariant
            1 <= f@.len() <= 4,
            k <= f@.len(),
            forall|j: int| 0 <= j < k ==> is_hex_digit(#[trigger] f@[j]),
            val == digits_value(f@.subrange(0, k as int), 16),
            val < (if k == 0 { 1int } else if k == 1 { 16int } else if k == 2 { 256int } else if k == 3 { 4096int } else { 65536int }),
        decreases f@.len() - k,
    {
        let c = f[k];
        let d: u32;
        if '0' <= c && c <= '9' {
            d = (c as u32) - ('0' as u32);
        } else if 'a' <= c && c <= 'f' {
            d = (c as u32) - ('a' as u32) + 10;
        } else if 'A' <= c && c <= 'F' {
            d = (c as u32) - ('A' as u32) + 10;
        } else {
            return None;
        }
        assert(f@.subrange(0, k + 1).drop_last() == f@.subrange(0, k as int));
        val = val * 16 + d;
        k = k + 1;
    }
    assert(f@.subrange(0, f@.len() as int) == f@);
    Some(val as u16)
}

/// The octets of a dotted-decimal IPv4 address.
pub fn parse_ipv4(v: &[char]) -> (r: Option<Vec<u8>>)
    ensures
        match r {
            Some(o) => ipv4_octets(v@) == Some(o@),
            None => ipv4_octets(v@) is None,
        },
{
    let parts = split_chars(v, '.');
    if parts.len() != 4 {
        return None;
    }
    let a = parse_dec_octet(parts[0].as_slice());
    let b = parse_dec_octet(parts[1].as_slice());
    let c = parse_dec_octet(parts[2].as_slice());
    let d = parse_dec_octet(parts[3].as_slice());
    match (a, b, c, d) {
        (Some(a), Some(b), Some(c), Some(d)) => {
            let mut o: Vec<u8> = Vec::new();
            o.push(a);
            o.push(b);
            o.push(c);
            o.push(d);
            assert(o@ == seq![a, b, c, d]);
            Some(o)
        },
        _ => None,
    }
}

/// The groups that one colon-separated part stands for.
fn part_groups(part: &[char], v4: bool) -> (r: Option<Vec<u16>>)
    ensures
        match r {
            Some(g) => Some(g@) == (if v4 && part@.contains('.') {
                match ipv4_octets(part@) {
                    Some(o) => Some(
                        seq![(o[0] as int * 256 + o[1] as int) as u16, (o[2] as int * 256 + o[3] as int) as u16],
                    ),
                    None => None,
                }
            } else {
                match hex_group(part@) {
                    Some(g) => Some(seq![g]),
                    None => None,
                }
            }),
            None => (if v4 && part@.contains('.') {
                ipv4_octets(part@) is None
            } else {
                hex_group(part@) is None
            }),
        },
{
    let mut g: Vec<u16> = Vec::new();
    if v4 && chars_have(part, '.') {
        match parse_ipv4(part) {
            Some(o) => {
                let hi = (o[0] as u16) * 256 + (o[1] as u16);
                let lo = (o[2] as u16) * 256 + (o[3] as u16);
                g.push(hi);
                g.push(lo);
                assert(g@ == seq![(o@[0] as int * 256 + o@[1] as int) as u16, (o@[2] as int * 256 + o@[3] as int) as u16]);
                Some(g)
            },
            None => None,
        }
    } else {
        match parse_hex_group(part) {
            Some(x) => {
                g.push(x);
                assert(g@ == seq![x]);
                Some(g)
            },
            None => None,
        }
    }
}

/// The groups that the colon-separated `parts` stand for, as `parts_groups` says.
pub fn parse_parts(parts: &Vec<Vec<char>>, v4_last: bool) -> (r: Option<Vec<u16>>)
    ensures
        match r {
            Some(g) => parts_groups(parts@.map_values(|p: Vec<char>| p@), v4_last) == Some(g@),
            None => parts_groups(parts@.map_values(|p: Vec<char>| p@), v4_last) is None,
        },
{
    let ghost ps = parts@.map_values(|p: Vec<char>| p@);
    let n = parts.len();
    if n == 0 {
        return Some(Vec::new());
    }
    let mut acc: Vec<u16> = Vec::new();
    let mut i: usize = 0;
    while i < n - 1
        invariant
            n == parts@.len(),
            n >= 1,
            i <= n - 1,
            ps == parts@.map_values(|p: Vec<char>| p@),
            parts_groups(ps.subrange(0, i as int), false) == Some(acc@),
        decreases n - 1 - i,
    {
        let ghost pre = ps.subrange(0, i + 1);
        assert(pre.drop_last() == ps.subrange(0, i as int));
        assert(pre.last() == parts@[i as int]@);
        match part_groups(parts[i].as_slice(), false) {
            Some(g) => {
                let mut g2 = g;
                let ghost old_acc = acc@;
                acc.append(&mut g2);
                assert(acc@ == old_acc + g@);
            },
            None => {
                proof {
                    lemma_parts_groups_prefix_none(ps, i as int + 1);
                }
                return None;
            },
        }
        i = i + 1;
    }
    let ghost full = ps.subrange(0, n as int);
    assert(full == ps);
    assert(full.drop_last() == ps.subrange(0, n - 1));
    assert(full.last() == parts@[n - 1]@);
    match part_groups(parts[n - 1].as_slice(), v4_last) {
        Some(g) => {
            let mut g2 = g;
            let ghost old_acc = acc@;
            acc.append(&mut g2);
            assert(acc@ == old_acc + g@);
            Some(acc)
        },
        None => None,
    }
}

/// When a prefix of the parts stands for nothing, neither do the parts.
proof fn lemma_parts_groups_prefix_none(ps: Seq<Seq<char>>, j: int)
    requires
        1 <= j <= ps.len(),
        parts_groups(ps.subrange(0, j), false) is None,
        j < ps.len() || true,
    ensures
        forall|v4: bool| j < ps.len() ==> parts_groups(ps, v4) is None,
    decreases ps.len() - j,
{
    if j < ps.len() {
        if j + 1 < ps.len() {
            let q = ps.subrange(0, j + 1);
            assert(q.drop_last() == ps.subrange(0, j));
            lemma_parts_groups_prefix_none(ps, j + 1);
        } else {
            assert(ps.drop_last() == ps.subrange(0, j));
        }
    }
}

/// The index of the first `::` in `v`, or `None`.
fn find_colon_pair(v: &[char]) -> (r: Option<usize>)
    ensures
        match r {
            Some(i) => find_double_colon(v@, 0) == i as int && i + 1 < v@.len(),
            None => find_double_colon(v@, 0) < 0,
        },
{
    let mut i: usize = 0;
    while v.len() > 0 && i < v.len() - 1
        invariant
            i <= v@.len(),
            find_double_colon(v@, 0) == find_double_colon(v@, i as int),
        decreases v@.len() - i,
    {
        if v[i] == ':' && v[i + 1] == ':' {
            return Some(i);
        }
        i = i + 1;
    }
    None
}

/// The groups of the colon-separated `v`, as `groups_of` says.
fn parse_groups(v: &[char], v4_last: bool) -> (r: Option<Vec<u16>>)
    ensures
        match r {
            Some(g) => groups_of(v@, v4_last) == Some(g@),
            None => groups_of(v@, v4_last) is None,
        },
{
    if v.len() == 0 {
        return Some(Vec::new());
    }
    let parts = split_chars(v, ':');
    assert(parts@.map_values(|p: Vec<char>| p@) =~= split_on(v@, ':'));
    parse_parts(&parts, v4_last)
}

/// The eight groups of an IPv6 address, as `ipv6_groups` says.
pub fn parse_ipv6(v: &[char]) -> (r: Option<Vec<u16>>)
    ensures
        match r {
            Some(g) => ipv6_groups(v@) == Some(g@),
            None => ipv6_groups(v@) is None,
        },
{
    match find_colon_pair(v) {
        None => {
            let parts = split_chars(v, ':');
            assert(parts@.map_values(|p: Vec<char>| p@) =~= split_on(v@, ':'));
            match parse_parts(&parts, true) {
                Some(g) => if g.len() == 8 {
                    Some(g)
                } else {
                    None
                },
                None => None,
            }
        },
        Some(d) => {
            let head_chars = copy_range(v, 0, d);
            let n = v.len();
            let tail_chars = copy_range(v, d + 2, n);
            let head = parse_groups(head_chars.as_slice(), false);
            let tail = parse_groups(tail_chars.as_slice(), true);
            match (head, tail) {
                (Some(h), Some(t)) => {
                    if h.len() <= 7 && t.len() <= 7 - h.len() {
                        let zeros = 8 - h.len() - t.len();
                        let mut g = h;
                        let ghost hv = g@;
                        let mut z: usize = 0;
                        while z < zeros
                            invariant
                                z <= zeros,
                                g@ == hv + Seq::new(z as nat, |k: int| 0u16),
                            decreases zeros - z,
                        {
                            g.push(0u16);
                            z = z + 1;
                            assert(g@ =~= hv + Seq::new(z as nat, |k: int| 0u16));
                        }
                        let mut t2 = t;
                        let ghost gv = g@;
                        let ghost tv = t2@;
                        g.append(&mut t2);
                        assert(g@ == gv + tv);
                        Some(g)
                    } else {
                        None
                    }
                },
                _ => None,
            }
        },
    }
}

/// Whether `host` is a loopback IP address (`127.x.x.x` or `::1`).
pub fn ip_is_loopback(host: &str) -> (r: bool)
    ensures
        r == is_loopback_ip(host@),
        ipv4_octets(host@) matches Some(o) ==> (r <==> o[0] == 127),
{
    let v = crate::text::to_chars(host);
    match parse_ipv4(v.as_slice()) {
        Some(o) => o[0] == 127,
        None => match parse_ipv6(v.as_slice()) {
            Some(g) => {
                let loopback = g.len() == 8 && g[0] == 0 && g[1] == 0 && g[2] == 0 && g[3] == 0 && g[4]
                    == 0 && g[5] == 0 && g[6] == 0 && g[7] == 1;
                assert(loopback == (g@ == seq![0u16, 0u16, 0u16, 0u16, 0u16, 0u16, 0u16, 1u16])) by {
                    if g@ == seq![0u16, 0u16, 0u16, 0u16, 0u16, 0u16, 0u16, 1u16] {
                        assert(g@[7] == 1);
                    }
                    if loopback {
                        assert(g@ =~= seq![0u16, 0u16, 0u16, 0u16, 0u16, 0u16, 0u16, 1u16]);
                    }
                }
                loopback
            },
            None => false,
        },
    }
}

/// The groups of an IPv6 address are eight.
pub proof fn lemma_ipv6_groups_len(s: Seq<char>)
    ensures
        ipv6_groups(s) matches Some(g) ==> g.len() == 8,
{
}

} // verus!
