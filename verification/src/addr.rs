//! Internet addresses as plain values, and the `host:port` grammar.
//!
//! An address is held as the bytes or segments it is made of, so that the
//! logic that chooses address families and builds descriptions can be
//! verified. The grammar is the one the standard library reads: for IPv4,
//! `a.b.c.d:port` with each octet canonical decimal (no leading zero, at most
//! 255); for IPv6, `[groups]:port` with hexadecimal groups, at most one `::`
//! standing for the missing zero groups, an optional embedded dotted-quad
//! tail, and an optional `%scope`; ports are digit runs no larger than 65535.

use vstd::prelude::*;
use crate::num::{is_dec_digit, dec_val, dec_str, lemma_dec_str_canon, parse_digit_run_capped};

verus! {

/// A host address: four IPv4 octets, or eight IPv6 segments with a scope id.
#[derive(Clone, Copy, Debug, PartialEq, Eq)]
pub enum HostIp {
    V4 { a: u8, b: u8, c: u8, d: u8 },
    V6 { segs: [u16; 8], scope: u32 },
}

/// A resolved socket address: a host and a port.
#[derive(Clone, Copy, Debug, PartialEq, Eq)]
pub struct NetAddr {
    pub host: HostIp,
    pub port: u16,
}

/// The mathematical value of a host address.
pub enum HostV {
    V4 { a: u8, b: u8, c: u8, d: u8 },
    V6 { segs: Seq<u16>, scope: u32 },
}

/// The mathematical value of a socket address.
pub struct NetAddrV {
    pub host: HostV,
    pub port: u16,
}

impl View for HostIp {
    type V = HostV;

    open spec fn view(&self) -> HostV {
        match *self {
            HostIp::V4 { a, b, c, d } => HostV::V4 { a, b, c, d },
            HostIp::V6 { segs, scope } => HostV::V6 { segs: segs@, scope },
        }
    }
}

impl View for NetAddr {
    type V = NetAddrV;

    open spec fn view(&self) -> NetAddrV {
        NetAddrV { host: self.host@, port: self.port }
    }
}

/// The loopback address `127.0.0.1` with the given port.
pub open spec fn spec_loopback(port: u16) -> NetAddrV {
    NetAddrV { host: HostV::V4 { a: 127, b: 0, c: 0, d: 1 }, port }
}

/// The loopback address `127.0.0.1` with the given port.
pub fn loopback(port: u16) -> (r: NetAddr)
    ensures
        r@ == spec_loopback(port),
{
    NetAddr { host: HostIp::V4 { a: 127, b: 0, c: 0, d: 1 }, port }
}

/// The index just past the run of decimal digits that starts at `i`.
pub open spec fn scan_digits(s: Seq<char>, i: int) -> int
    decreases s.len() - i when 0 <= i <= s.len()
{
    if i >= s.len() {
        i
    } else if is_dec_digit(s[i]) {
        scan_digits(s, i + 1)
    } else {
        i
    }
}

/// What `scan_digits` finds: the maximal digit run from `i`.
pub proof fn lemma_scan_digits(s: Seq<char>, i: int)
    requires
        0 <= i <= s.len(),
    ensures
        i <= scan_digits(s, i) <= s.len(),
        forall|k: int| i <= k < scan_digits(s, i) ==> is_dec_digit(#[trigger] s[k]),
        scan_digits(s, i) < s.len() ==> !is_dec_digit(s[scan_digits(s, i)]),
    decreases s.len() - i,
{
    if i < s.len() && is_dec_digit(s[i]) {
        lemma_scan_digits(s, i + 1);
    }
}

/// One IPv4 octet read from position `i`: at most three digits, no leading
/// zero, value at most 255. Yields the value and the index just past it.
pub open spec fn spec_octet_at(s: Seq<char>, i: int) -> Option<(u8, int)>
    recommends
        0 <= i <= s.len(),
{
    let j = scan_digits(s, i);
    if j == i || j - i > 3 {
        None
    } else if j - i > 1 && s[i] == '0' {
        None
    } else if dec_val(s.subrange(i, j)) > 255 {
        None
    } else {
        Some((dec_val(s.subrange(i, j)) as u8, j))
    }
}

/// A full dotted-quad read from position `i`: four octets separated by dots.
pub open spec fn spec_ipv4_at(s: Seq<char>, i: int) -> Option<((u8, u8, u8, u8), int)>
    recommends
        0 <= i <= s.len(),
{
    match spec_octet_at(s, i) {
        None => None,
        Some((a, j1)) => if !(j1 < s.len() && s[j1] == '.') { None } else {
            match spec_octet_at(s, j1 + 1) {
                None => None,
                Some((b, j2)) => if !(j2 < s.len() && s[j2] == '.') { None } else {
                    match spec_octet_at(s, j2 + 1) {
                        None => None,
                        Some((c, j3)) => if !(j3 < s.len() && s[j3] == '.') { None } else {
                            match spec_octet_at(s, j3 + 1) {
                                None => None,
                                Some((d, j4)) => Some(((a, b, c, d), j4)),
                            }
                        },
                    }
                },
            }
        },
    }
}

/// Is `c` an ASCII hexadecimal digit?
pub open spec fn is_hex_digit(c: char) -> bool {
    is_dec_digit(c) || (97 <= c as u32 <= 102) || (65 <= c as u32 <= 70)
}

/// The numeric value of a hexadecimal digit, either case.
pub open spec fn hex_digit_val(c: char) -> nat {
    if is_dec_digit(c) {
        (c as u32 - 48) as nat
    } else if 97 <= c as u32 <= 102 {
        (c as u32 - 87) as nat
    } else {
        (c as u32 - 55) as nat
    }
}

/// The index just past the run of hexadecimal digits that starts at `i`.
pub open spec fn scan_hex(s: Seq<char>, i: int) -> int
    decreases s.len() - i when 0 <= i <= s.len()
{
    if i >= s.len() {
        i
    } else if is_hex_digit(s[i]) {
        scan_hex(s, i + 1)
    } else {
        i
    }
}

/// What `scan_hex` finds: the maximal hexadecimal run from `i`.
pub proof fn lemma_scan_hex(s: Seq<char>, i: int)
    requires
        0 <= i <= s.len(),
    ensures
        i <= scan_hex(s, i) <= s.len(),
        forall|k: int| i <= k < scan_hex(s, i) ==> is_hex_digit(#[trigger] s[k]),
        scan_hex(s, i) < s.len() ==> !is_hex_digit(s[scan_hex(s, i)]),
    decreases s.len() - i,
{
    if i < s.len() && is_hex_digit(s[i]) {
        lemma_scan_hex(s, i + 1);
    }
}

/// The value of a hexadecimal digit sequence read left to right.
pub open spec fn hex_val(s: Seq<char>) -> nat
    decreases s.len(),
{
    if s.len() == 0 {
        0
    } else {
        hex_val(s.drop_last()) * 16 + hex_digit_val(s.last())
    }
}

/// Appending one digit multiplies the value by sixteen and adds the digit.
pub proof fn lemma_hex_val_push(s: Seq<char>, c: char)
    ensures
        hex_val(s.push(c)) == hex_val(s) * 16 + hex_digit_val(c),
{
    assert(s.push(c).drop_last() =~= s);
    assert(s.push(c).last() == c);
}

/// One IPv6 group read from position `i`: one to four hexadecimal digits,
/// leading zeros allowed. Yields the value and the index just past it.
pub open spec fn spec_group_at(s: Seq<char>, i: int) -> Option<(u16, int)>
    recommends
        0 <= i <= s.len(),
{
    let j = scan_hex(s, i);
    if j == i || j - i > 4 {
        None
    } else {
        Some((hex_val(s.subrange(i, j)) as u16, j))
    }
}

/// Reads further colon-separated IPv6 groups into `got`, up to `limit` in
/// all: every group but the first is preceded by a `:`; where at least two
/// slots are left, a trailing embedded dotted-quad may take two slots and end
/// the list. Yields the groups, the index just past them, and whether the
/// list ended in an embedded dotted-quad.
pub open spec fn spec_read_groups(s: Seq<char>, i: int, got: Seq<u16>, limit: nat) -> (
    Seq<u16>,
    int,
    bool,
)
    decreases limit - got.len() when got.len() <= limit
{
    if got.len() >= limit {
        (got, i, false)
    } else if got.len() > 0 && !(0 <= i < s.len() && s[i] == ':') {
        (got, i, false)
    } else {
        let bi = if got.len() == 0 { i } else { i + 1 };
        if limit - got.len() >= 2 && spec_ipv4_at(s, bi) is Some {
            let t = spec_ipv4_at(s, bi)->Some_0;
            (
                got + seq![
                    ((t.0.0 as u16) * 256 + (t.0.1 as u16)) as u16,
                    ((t.0.2 as u16) * 256 + (t.0.3 as u16)) as u16,
                ],
                t.1,
                true,
            )
        } else {
            match spec_group_at(s, bi) {
                None => (got, i, false),
                Some((g, j)) => spec_read_groups(s, j, got.push(g), limit),
            }
        }
    }
}

/// A run of zero groups.
pub open spec fn zero_groups(n: nat) -> Seq<u16> {
    Seq::new(n, |k: int| 0u16)
}

/// An IPv6 address read from position `i`: either eight groups outright, or a
/// head and a tail joined by `::`, which stands for the missing zero groups
/// (at least one). An embedded dotted-quad may only end the address. Yields
/// the eight segments and the index just past the address.
pub open spec fn spec_ipv6_at(s: Seq<char>, i: int) -> Option<(Seq<u16>, int)>
    recommends
        0 <= i <= s.len(),
{
    let hr = spec_read_groups(s, i, Seq::empty(), 8);
    if hr.0.len() == 8 {
        Some((hr.0, hr.1))
    } else if hr.2 {
        None
    } else if hr.1 + 1 < s.len() && s[hr.1] == ':' && s[hr.1 + 1] == ':' {
        let tr = spec_read_groups(s, hr.1 + 2, Seq::empty(), (7 - hr.0.len()) as nat);
        Some((hr.0 + zero_groups((8 - hr.0.len() - tr.0.len()) as nat) + tr.0, tr.1))
    } else {
        None
    }
}

/// The end of a bracketed IPv6 socket address after the segments: the
/// optional `%scope` (decimal, leading zeros allowed), then `]`, `:`, and the
/// port digits running to the end of the text.
pub open spec fn spec_v6_close(s: Seq<char>, k: int, segs: Seq<u16>, scope: u32) -> Option<
    (Seq<u16>, u16, u32),
> {
    if 0 <= k < s.len() && s[k] == ']' && k + 1 < s.len() && s[k + 1] == ':' {
        let e = scan_digits(s, k + 2);
        if e == s.len() && e > k + 2 && dec_val(s.subrange(k + 2, e)) <= 65535 {
            Some((segs, dec_val(s.subrange(k + 2, e)) as u16, scope))
        } else {
            None
        }
    } else {
        None
    }
}

/// What the bracketed IPv6 socket-address grammar (`[host%scope]:port`) makes
/// of `s`: the eight segments, the port, and the scope id (zero when absent).
pub open spec fn spec_v6_sockaddr(s: Seq<char>) -> Option<(Seq<u16>, u16, u32)> {
    if !(s.len() > 0 && s[0] == '[') {
        None
    } else {
        match spec_ipv6_at(s, 1) {
            None => None,
            Some((segs, j)) => if 0 <= j < s.len() && s[j] == '%' {
                let e = scan_digits(s, j + 1);
                if e > j + 1 && dec_val(s.subrange(j + 1, e)) <= 0xffff_ffff {
                    spec_v6_close(s, e, segs, dec_val(s.subrange(j + 1, e)) as u32)
                } else {
                    None
                }
            } else {
                spec_v6_close(s, j, segs, 0)
            },
        }
    }
}

/// What the whole `host:port` grammar makes of `s`: the IPv4 form when `s`
/// does not open a bracket, the IPv6 form when it does.
pub open spec fn spec_parse_sockaddr(s: Seq<char>) -> Option<NetAddrV> {
    if s.len() > 0 && s[0] == '[' {
        match spec_v6_sockaddr(s) {
            None => None,
            Some((segs, port, scope)) => Some(
                NetAddrV { host: HostV::V6 { segs, scope }, port },
            ),
        }
    } else {
        match spec_ipv4_at(s, 0) {
            None => None,
            Some(((a, b, c, d), j)) => if !(j < s.len() && s[j] == ':') {
                None
            } else {
                let k = scan_digits(s, j + 1);
                if k == s.len() && k > j + 1 && dec_val(s.subrange(j + 1, k)) <= 65535 {
                    Some(
                        NetAddrV {
                            host: HostV::V4 { a, b, c, d },
                            port: dec_val(s.subrange(j + 1, k)) as u16,
                        },
                    )
                } else {
                    None
                }
            },
        }
    }
}

/// `scan_digits` stops exactly at `j` when everything before `j` (from `i`)
/// is a digit and `j` is the end of the text or a non-digit.
pub proof fn lemma_scan_digits_exact(s: Seq<char>, i: int, j: int)
    requires
        0 <= i <= j <= s.len(),
        forall|k: int| i <= k < j ==> is_dec_digit(#[trigger] s[k]),
        j < s.len() ==> !is_dec_digit(s[j]),
    ensures
        scan_digits(s, i) == j,
    decreases j - i,
{
    if i < j {
        lemma_scan_digits_exact(s, i + 1, j);
    }
}

/// The canonical text of an IPv4 socket address: the four octets in decimal,
/// dots between them, a colon, and the port in decimal.
pub open spec fn v4_text(a: u8, b: u8, c: u8, d: u8, port: u16) -> Seq<char> {
    dec_str(a as nat) + seq!['.'] + dec_str(b as nat) + seq!['.'] + dec_str(c as nat)
        + seq!['.'] + dec_str(d as nat) + seq![':'] + dec_str(port as nat)
}

/// Where a slice of `s` is the canonical decimal of an octet and what follows
/// it is no digit, the octet parser reads exactly that octet.
pub proof fn lemma_octet_at_text(s: Seq<char>, i: int, x: u8)
    requires
        0 <= i,
        i + dec_str(x as nat).len() <= s.len(),
        s.subrange(i, i + dec_str(x as nat).len()) == dec_str(x as nat),
        i + dec_str(x as nat).len() < s.len()
            ==> !is_dec_digit(s[i + dec_str(x as nat).len()]),
    ensures
        spec_octet_at(s, i) == Some((x, i + dec_str(x as nat).len())),
{
    let w = dec_str(x as nat);
    let j = i + w.len();
    lemma_dec_str_canon(x as nat);
    crate::num::lemma_dec_str_len(x as nat);
    assert forall|k: int| i <= k < j implies is_dec_digit(#[trigger] s[k]) by {
        assert(s[k] == w[k - i]);
    }
    lemma_scan_digits_exact(s, i, j);
    assert(s[i] == w[0]);
    assert(dec_val(s.subrange(i, j)) == x as nat);
}

/// The canonical text of an IPv4 socket address parses back to exactly that
/// address.
pub proof fn lemma_v4_text_parses(a: u8, b: u8, c: u8, d: u8, port: u16)
    ensures
        spec_parse_sockaddr(v4_text(a, b, c, d, port)) == Some(
            NetAddrV { host: HostV::V4 { a, b, c, d }, port },
        ),
{
    let s = v4_text(a, b, c, d, port);
    let la = dec_str(a as nat).len() as int;
    let lb = dec_str(b as nat).len() as int;
    let lc = dec_str(c as nat).len() as int;
    let ld = dec_str(d as nat).len() as int;
    let lp = dec_str(port as nat).len() as int;
    let i1 = la + 1;
    let i2 = i1 + lb + 1;
    let i3 = i2 + lc + 1;
    let ip = i3 + ld + 1;
    lemma_dec_str_canon(a as nat);
    lemma_dec_str_canon(b as nat);
    lemma_dec_str_canon(c as nat);
    lemma_dec_str_canon(d as nat);
    lemma_dec_str_canon(port as nat);
    assert(s.len() == ip + lp);
    assert(s.subrange(0, la) =~= dec_str(a as nat));
    assert(s[la] == '.');
    lemma_octet_at_text(s, 0, a);
    assert(s.subrange(i1, i1 + lb) =~= dec_str(b as nat));
    assert(s[i1 + lb] == '.');
    lemma_octet_at_text(s, i1, b);
    assert(s.subrange(i2, i2 + lc) =~= dec_str(c as nat));
    assert(s[i2 + lc] == '.');
    lemma_octet_at_text(s, i2, c);
    assert(s.subrange(i3, i3 + ld) =~= dec_str(d as nat));
    assert(s[i3 + ld] == ':');
    lemma_octet_at_text(s, i3, d);
    assert(spec_ipv4_at(s, 0) == Some(((a, b, c, d), ip - 1)));
    assert(s.subrange(ip, s.len() as int) =~= dec_str(port as nat));
    assert forall|k: int| ip <= k < s.len() implies is_dec_digit(#[trigger] s[k]) by {
        assert(s[k] == dec_str(port as nat)[k - ip]);
    }
    lemma_scan_digits_exact(s, ip, s.len() as int);
    assert(s[0] == dec_str(a as nat)[0]);
    assert(s[0] != '[');
    assert(dec_val(s.subrange(ip, s.len() as int)) == port as nat);
}

/// Finds the end of the digit run that starts at `i`.
fn scan_digits_exec(s: &str, i: usize) -> (r: usize)
    requires
        i <= s@.len(),
    ensures
        r == scan_digits(s@, i as int),
    decreases s@.len() - i,
{
    let n = s.unicode_len();
    if i >= n {
        return i;
    }
    let c = s.get_char(i);
    let cv = c as u32;
    if 48 <= cv && cv <= 57 {
        scan_digits_exec(s, i + 1)
    } else {
        i
    }
}

/// Reads one IPv4 octet at `i`.
fn parse_octet_at(s: &str, i: usize) -> (r: Option<(u8, usize)>)
    requires
        i <= s@.len(),
    ensures
        match r {
            Some(t) => spec_octet_at(s@, i as int) == Some((t.0, t.1 as int)) && t.1 <= s@.len(),
            None => spec_octet_at(s@, i as int) is None,
        },
{
    proof {
        lemma_scan_digits(s@, i as int);
    }
    let j = scan_digits_exec(s, i);
    if j == i || j - i > 3 {
        return None;
    }
    if j - i > 1 && s.get_char(i) == '0' {
        return None;
    }
    proof {
        assert(is_digit_run_of(s@, i as int, j as int));
    }
    match parse_digit_run_capped(s, i, j, 255) {
        Some(v) => Some((v as u8, j)),
        None => None,
    }
}

/// The slice `s[i..j]` is a nonempty, all-digit run.
pub open spec fn is_digit_run_of(s: Seq<char>, i: int, j: int) -> bool {
    crate::num::is_digit_run(s.subrange(i, j))
}

/// Reads a dotted quad at `i`.
fn parse_ipv4_at(s: &str, i: usize) -> (r: Option<((u8, u8, u8, u8), usize)>)
    requires
        i <= s@.len(),
    ensures
        match r {
            Some(t) => spec_ipv4_at(s@, i as int) == Some((t.0, t.1 as int)) && t.1 <= s@.len(),
            None => spec_ipv4_at(s@, i as int) is None,
        },
{
    let n = s.unicode_len();
    let (a, j1) = match parse_octet_at(s, i) { Some(t) => t, None => { return None; } };
    if !(j1 < n && s.get_char(j1) == '.') { return None; }
    let (b, j2) = match parse_octet_at(s, j1 + 1) { Some(t) => t, None => { return None; } };
    if !(j2 < n && s.get_char(j2) == '.') { return None; }
    let (c, j3) = match parse_octet_at(s, j2 + 1) { Some(t) => t, None => { return None; } };
    if !(j3 < n && s.get_char(j3) == '.') { return None; }
    let (d, j4) = match parse_octet_at(s, j3 + 1) { Some(t) => t, None => { return None; } };
    Some(((a, b, c, d), j4))
}

/// Finds the end of the hexadecimal run that starts at `i`.
fn scan_hex_exec(s: &str, i: usize) -> (r: usize)
    requires
        i <= s@.len(),
    ensures
        r == scan_hex(s@, i as int),
    decreases s@.len() - i,
{
    let n = s.unicode_len();
    if i >= n {
        return i;
    }
    let cv = s.get_char(i) as u32;
    if (48 <= cv && cv <= 57) || (97 <= cv && cv <= 102) || (65 <= cv && cv <= 70) {
        scan_hex_exec(s, i + 1)
    } else {
        i
    }
}

/// The value of the hexadecimal run `s[from..to]`, at most four digits.
fn hex_run_val(s: &str, from: usize, to: usize) -> (r: u32)
    requires
        from <= to <= s@.len(),
        to - from <= 4,
        forall|k: int| from <= k < to ==> is_hex_digit(#[trigger] s@[k]),
    ensures
        r == hex_val(s@.subrange(from as int, to as int)),
{
    let mut acc: u32 = 0;
    let mut i: usize = from;
    while i < to
        invariant
            from <= i <= to <= s@.len(),
            to - from <= 4,
            forall|k: int| from <= k < to ==> is_hex_digit(#[trigger] s@[k]),
            acc == hex_val(s@.subrange(from as int, i as int)),
            acc < (if i - from == 0 { 1u32 } else if i - from == 1 { 16u32 }
                else if i - from == 2 { 256u32 } else if i - from == 3 { 4096u32 }
                else { 65536u32 }),
        decreases to - i,
    {
        let c = s.get_char(i);
        let cv = c as u32;
        let d: u32 = if 48 <= cv && cv <= 57 {
            cv - 48
        } else if 97 <= cv && cv <= 102 {
            cv - 87
        } else {
            proof {
                assert(is_hex_digit(c));
            }
            cv - 55
        };
        proof {
            assert(s@.subrange(from as int, i + 1 as int)
                =~= s@.subrange(from as int, i as int).push(c));
            lemma_hex_val_push(s@.subrange(from as int, i as int), c);
            assert(d == hex_digit_val(c));
        }
        acc = acc * 16 + d;
        i = i + 1;
    }
    proof {
        assert(s@.subrange(from as int, i as int) =~= s@.subrange(from as int, to as int));
    }
    acc
}

/// Reads one IPv6 group at `i`.
fn parse_group_at(s: &str, i: usize) -> (r: Option<(u16, usize)>)
    requires
        i <= s@.len(),
    ensures
        match r {
            Some(t) => spec_group_at(s@, i as int) == Some((t.0, t.1 as int))
                && i < t.1 <= s@.len(),
            None => spec_group_at(s@, i as int) is None,
        },
{
    proof {
        lemma_scan_hex(s@, i as int);
    }
    let j = scan_hex_exec(s, i);
    if j == i || j - i > 4 {
        return None;
    }
    let v = hex_run_val(s, i, j);
    Some((v as u16, j))
}

/// Reads further colon-separated groups into `got`, as `spec_read_groups`
/// describes.
fn read_groups_exec(s: &str, i: usize, got: &mut Vec<u16>, limit: usize) -> (r: (usize, bool))
    requires
        i <= s@.len(),
        old(got)@.len() <= limit,
    ensures
        ({
            let sp = spec_read_groups(s@, i as int, old(got)@, limit as nat);
            final(got)@ == sp.0 && r.0 == sp.1 as int && r.1 == sp.2
        }),
        r.0 <= s@.len(),
        final(got)@.len() <= limit,
    decreases limit - got.len(),
{
    let n = s.unicode_len();
    if got.len() >= limit {
        return (i, false);
    }
    if got.len() > 0 && !(i < n && s.get_char(i) == ':') {
        return (i, false);
    }
    let bi = if got.len() == 0 { i } else { i + 1 };
    if limit - got.len() >= 2 {
        match parse_ipv4_at(s, bi) {
            Some((quad, j)) => {
                got.push((quad.0 as u16) * 256 + (quad.1 as u16));
                got.push((quad.2 as u16) * 256 + (quad.3 as u16));
                return (j, true);
            },
            None => {},
        }
    }
    match parse_group_at(s, bi) {
        Some((g, j)) => {
            got.push(g);
            read_groups_exec(s, j, got, limit)
        },
        None => (i, false),
    }
}

/// Reads a full IPv6 address at `i`: the eight segments and the index just
/// past them.
fn parse_ipv6_at(s: &str, i: usize) -> (r: Option<(Vec<u16>, usize)>)
    requires
        i <= s@.len(),
    ensures
        match r {
            Some(t) => t.0@.len() == 8 && spec_ipv6_at(s@, i as int) == Some((t.0@, t.1 as int))
                && t.1 <= s@.len(),
            None => spec_ipv6_at(s@, i as int) is None,
        },
{
    let n = s.unicode_len();
    let mut head: Vec<u16> = Vec::new();
    let (j, head_v4) = read_groups_exec(s, i, &mut head, 8);
    if head.len() == 8 {
        return Some((head, j));
    }
    if head_v4 {
        return None;
    }
    if !(j < n && s.get_char(j) == ':' && j + 1 < n && s.get_char(j + 1) == ':') {
        return None;
    }
    let mut tail: Vec<u16> = Vec::new();
    let (m, _) = read_groups_exec(s, j + 2, &mut tail, 7 - head.len());
    let zeros = 8 - head.len() - tail.len();
    let mut segs: Vec<u16> = Vec::new();
    let mut k: usize = 0;
    while k < head.len()
        invariant
            k <= head@.len(),
            segs@ == head@.subrange(0, k as int),
        decreases head@.len() - k,
    {
        segs.push(head[k]);
        proof {
            assert(segs@ =~= head@.subrange(0, k + 1 as int));
        }
        k = k + 1;
    }
    proof {
        assert(segs@ =~= head@);
    }
    let mut z: usize = 0;
    while z < zeros
        invariant
            z <= zeros,
            segs@ == head@ + zero_groups(z as nat),
        decreases zeros - z,
    {
        segs.push(0);
        proof {
            assert(segs@ =~= head@ + zero_groups((z + 1) as nat));
        }
        z = z + 1;
    }
    let mut t: usize = 0;
    while t < tail.len()
        invariant
            t <= tail@.len(),
            segs@ == head@ + zero_groups(zeros as nat) + tail@.subrange(0, t as int),
        decreases tail@.len() - t,
    {
        segs.push(tail[t]);
        proof {
            assert(segs@ =~= head@ + zero_groups(zeros as nat) + tail@.subrange(0, t + 1 as int));
        }
        t = t + 1;
    }
    proof {
        assert(segs@ =~= head@ + zero_groups(zeros as nat) + tail@);
    }
    Some((segs, m))
}

/// Parses the whole bracketed IPv6 socket-address form.
fn parse_v6_sockaddr(s: &str) -> (r: Option<(Vec<u16>, u16, u32)>)
    ensures
        match r {
            Some(t) => t.0@.len() == 8 && spec_v6_sockaddr(s@) == Some((t.0@, t.1, t.2)),
            None => spec_v6_sockaddr(s@) is None,
        },
{
    let n = s.unicode_len();
    if !(n > 0 && s.get_char(0) == '[') {
        return None;
    }
    let (segs, j) = match parse_ipv6_at(s, 1) {
        Some(t) => t,
        None => { return None; },
    };
    let (scope, k): (u32, usize) = if j < n && s.get_char(j) == '%' {
        proof {
            lemma_scan_digits(s@, j + 1);
        }
        let e = scan_digits_exec(s, j + 1);
        if !(e > j + 1) {
            return None;
        }
        proof {
            assert(is_digit_run_of(s@, j + 1, e as int));
        }
        match parse_digit_run_capped(s, j + 1, e, 0xffff_ffff) {
            Some(v) => (v as u32, e),
            None => { return None; },
        }
    } else {
        (0, j)
    };
    if !(k < n && s.get_char(k) == ']') {
        return None;
    }
    if !(k + 1 < n && s.get_char(k + 1) == ':') {
        return None;
    }
    proof {
        lemma_scan_digits(s@, k + 2);
    }
    let e2 = scan_digits_exec(s, k + 2);
    if !(e2 == n && e2 > k + 2) {
        return None;
    }
    proof {
        assert(is_digit_run_of(s@, k + 2, e2 as int));
    }
    match parse_digit_run_capped(s, k + 2, e2, 65535) {
        Some(v) => Some((segs, v as u16, scope)),
        None => None,
    }
}

/// Parses the full `host:port` text into an address.
pub fn parse_sockaddr(s: &str) -> (r: Option<NetAddr>)
    ensures
        match r {
            Some(a) => spec_parse_sockaddr(s@) == Some(a@),
            None => spec_parse_sockaddr(s@) is None,
        },
{
    let n = s.unicode_len();
    if n > 0 && s.get_char(0) == '[' {
        match parse_v6_sockaddr(s) {
            None => None,
            Some((segs, port, scope)) => {
                let arr: [u16; 8] = [
                    segs[0], segs[1], segs[2], segs[3], segs[4], segs[5], segs[6], segs[7],
                ];
                proof {
                    assert(arr@ =~= segs@);
                }
                Some(NetAddr { host: HostIp::V6 { segs: arr, scope }, port })
            },
        }
    } else {
        let (quad, j) = match parse_ipv4_at(s, 0) { Some(t) => t, None => { return None; } };
        if !(j < n && s.get_char(j) == ':') { return None; }
        proof {
            lemma_scan_digits(s@, j + 1);
        }
        let k = scan_digits_exec(s, j + 1);
        if !(k == n && k > j + 1) { return None; }
        proof {
            assert(is_digit_run_of(s@, j + 1, k as int));
        }
        match parse_digit_run_capped(s, j + 1, k, 65535) {
            Some(v) => Some(NetAddr {
                host: HostIp::V4 { a: quad.0, b: quad.1, c: quad.2, d: quad.3 },
                port: v as u16,
            }),
            None => None,
        }
    }
}

} // verus!
