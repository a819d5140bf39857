//! The library's stated laws, proved once and for all inputs.

use vstd::prelude::*;
use crate::addr::spec_parse_sockaddr;
use crate::fd::{FdV, SpecErrV, spec_parse_fd, spec_split_type, spec_listener_from,
    spec_should_listen, spec_plan, spec_describe, scan_letters, is_ascii_letter};
use crate::num::{spec_parse_u16, is_dec_digit};
use crate::addr::spec_loopback;
use crate::osapi::uuid_parse;
use crate::spawn::{spec_check_handshake, spec_payload_pieces, spec_inherit_env, HandshakeError};

verus! {

/// A specification string that reads as a bare port always parses to a TCP
/// listener on loopback at that port, whatever else the string might look
/// like.
pub proof fn lemma_parse_bare_port(s: Seq<char>, p: u16)
    requires
        spec_parse_u16(s) == Some(p),
    ensures
        spec_parse_fd(s) == Ok::<FdV, SpecErrV>(FdV::Tcp { addr: spec_loopback(p) }),
{
    assert(s.len() > 0);
    assert(!is_ascii_letter(s[0])) by {
        let body = crate::num::spec_strip_plus(s);
        if s[0] != '+' {
            assert(body[0] == s[0]);
            assert(is_dec_digit(s[0]));
        }
    }
    assert(scan_letters(s, 0) == 0);
    assert(spec_split_type(s) is None);
}

/// The canonical decimal text of any port reads back as that port, so every
/// port written canonically parses to a TCP listener on loopback at it.
pub proof fn lemma_port_text_parses(p: u16)
    ensures
        spec_parse_u16(crate::num::dec_str(p as nat)) == Some(p),
        spec_parse_fd(crate::num::dec_str(p as nat)) == Ok::<FdV, SpecErrV>(
            FdV::Tcp { addr: spec_loopback(p) },
        ),
{
    let s = crate::num::dec_str(p as nat);
    crate::num::lemma_dec_str_canon(p as nat);
    assert(is_dec_digit(s[0]));
    assert(s[0] != '+');
    assert(crate::num::spec_strip_plus(s) == s);
    lemma_parse_bare_port(s, p);
}

/// The canonical text of any IPv4 socket address parses to a TCP listener on
/// exactly that address, whatever the octets and the port.
pub proof fn lemma_v4_addr_text_parses(a: u8, b: u8, c: u8, d: u8, port: u16)
    ensures
        spec_parse_fd(crate::addr::v4_text(a, b, c, d, port)) == Ok::<FdV, SpecErrV>(
            FdV::Tcp {
                addr: crate::addr::NetAddrV {
                    host: crate::addr::HostV::V4 { a, b, c, d },
                    port,
                },
            },
        ),
{
    let s = crate::addr::v4_text(a, b, c, d, port);
    crate::addr::lemma_v4_text_parses(a, b, c, d, port);
    crate::num::lemma_dec_str_canon(a as nat);
    let la = crate::num::dec_str(a as nat).len() as int;
    assert(s[0] == crate::num::dec_str(a as nat)[0]);
    assert(is_dec_digit(s[0]));
    assert(!is_ascii_letter(s[0]));
    assert(scan_letters(s, 0) == 0);
    assert(spec_split_type(s) is None);
    assert(s[la] == '.');
    assert(spec_parse_u16(s) is None) by {
        let body = crate::num::spec_strip_plus(s);
        assert(body == s);
        assert(!is_dec_digit(s[la]));
    }
    lemma_parse_plain_addr(s);
}

/// The unspecified IPv6 host, written `[::]`, followed by any canonical
/// port, parses to a TCP listener on the all-zero IPv6 address at that port.
pub proof fn lemma_v6_unspecified_text_parses(port: u16)
    ensures
        spec_parse_fd("[::]:"@ + crate::num::dec_str(port as nat)) == Ok::<FdV, SpecErrV>(
            FdV::Tcp {
                addr: crate::addr::NetAddrV {
                    host: crate::addr::HostV::V6 { segs: crate::addr::zero_groups(8), scope: 0 },
                    port,
                },
            },
        ),
{
    reveal_strlit("[::]:");
    let w = crate::num::dec_str(port as nat);
    let s = "[::]:"@ + w;
    crate::num::lemma_dec_str_canon(port as nat);
    assert(s.len() == 5 + w.len());
    assert(s[0] == '[' && s[1] == ':' && s[2] == ':' && s[3] == ']' && s[4] == ':');
    assert(!is_ascii_letter(s[0]));
    assert(scan_letters(s, 0) == 0);
    assert(spec_split_type(s) is None);
    assert(spec_parse_u16(s) is None) by {
        assert(crate::num::spec_strip_plus(s) == s);
        assert(!is_dec_digit(s[0]));
    }
    crate::addr::lemma_scan_digits_exact(s, 1, 1);
    crate::addr::lemma_scan_digits_exact(s, 3, 3);
    assert(crate::addr::spec_octet_at(s, 1) is None);
    assert(crate::addr::spec_octet_at(s, 3) is None);
    assert(crate::addr::spec_ipv4_at(s, 1) is None);
    assert(crate::addr::spec_ipv4_at(s, 3) is None);
    assert(crate::addr::scan_hex(s, 1) == 1) by {
        crate::addr::lemma_scan_hex(s, 1);
        if crate::addr::scan_hex(s, 1) > 1 {
            assert(crate::addr::is_hex_digit(s[1]));
        }
    }
    assert(crate::addr::scan_hex(s, 3) == 3) by {
        crate::addr::lemma_scan_hex(s, 3);
        if crate::addr::scan_hex(s, 3) > 3 {
            assert(crate::addr::is_hex_digit(s[3]));
        }
    }
    assert(crate::addr::spec_group_at(s, 1) is None);
    assert(crate::addr::spec_group_at(s, 3) is None);
    let hr = crate::addr::spec_read_groups(s, 1, Seq::<u16>::empty(), 8);
    assert(hr == (Seq::<u16>::empty(), 1int, false));
    let tr = crate::addr::spec_read_groups(s, 3, Seq::<u16>::empty(), 7);
    assert(tr == (Seq::<u16>::empty(), 3int, false));
    let segs = Seq::<u16>::empty() + crate::addr::zero_groups(8) + Seq::<u16>::empty();
    assert(crate::addr::spec_ipv6_at(s, 1) == Some((segs, 3int)));
    assert(segs =~= crate::addr::zero_groups(8));
    assert forall|k: int| 5 <= k < s.len() implies is_dec_digit(#[trigger] s[k]) by {
        assert(s[k] == w[k - 5]);
    }
    crate::addr::lemma_scan_digits_exact(s, 5, s.len() as int);
    assert(s.subrange(5, s.len() as int) =~= w);
    assert(crate::addr::spec_v6_close(s, 3, segs, 0) == Some((segs, port, 0u32)));
    lemma_parse_plain_addr(s);
}

/// A specification string that reads as a full `host:port` address, but not
/// as a bare port, parses to a TCP listener on that address.
pub proof fn lemma_parse_plain_addr(s: Seq<char>)
    requires
        spec_parse_u16(s) is None,
        spec_parse_sockaddr(s) is Some,
        spec_split_type(s) is None,
    ensures
        spec_parse_fd(s) == Ok::<FdV, SpecErrV>(
            FdV::Tcp { addr: spec_parse_sockaddr(s)->Some_0 },
        ),
{
}

/// The five known type names are pairwise distinct, so at most one branch of
/// the resolution chain can take a given prefix.
proof fn lemma_known_types_distinct(ty: Seq<char>)
    ensures
        ty == "http"@ ==> ty != "tcp"@,
        ty == "https"@ ==> ty != "tcp"@ && ty != "http"@,
        ty == "unix"@ ==> ty != "tcp"@ && ty != "http"@ && ty != "https"@,
        ty == "udp"@ ==> ty != "tcp"@ && ty != "http"@ && ty != "https"@ && ty != "unix"@,
{
    reveal_strlit("tcp");
    reveal_strlit("http");
    reveal_strlit("https");
    reveal_strlit("unix");
    reveal_strlit("udp");
    assert(("tcp"@).len() == 3 && ("http"@).len() == 4 && ("https"@).len() == 5
        && ("unix"@).len() == 4 && ("udp"@).len() == 3);
    if ty == "http"@ && ty == "unix"@ {
        assert(("http"@)[0] == 'h' && ("unix"@)[0] == 'u');
    }
    if ty == "udp"@ && ty == "tcp"@ {
        assert(("udp"@)[0] == 'u' && ("tcp"@)[0] == 't');
    }
}

/// A `tcp::` specification resolves its value as a bare port on loopback,
/// else as a full `host:port` address, and anything else is a hard parse
/// error: an invalid address after an explicit prefix never falls back to
/// another reading.
pub proof fn lemma_parse_tcp_prefixed(s: Seq<char>)
    requires
        spec_split_type(s) matches Some(t) && t.0 == "tcp"@,
    ensures
        ({
            let v = spec_split_type(s)->Some_0.1;
            &&& (spec_parse_u16(v) matches Some(p) ==> spec_parse_fd(s) == Ok::<FdV, SpecErrV>(
                FdV::Tcp { addr: spec_loopback(p) },
            ))
            &&& (spec_parse_u16(v) is None && (spec_parse_sockaddr(v) matches Some(a))
                ==> spec_parse_fd(s) == Ok::<FdV, SpecErrV>(
                    FdV::Tcp { addr: spec_parse_sockaddr(v)->Some_0 },
                ))
            &&& ((spec_parse_fd(s) is Err) <==> spec_parse_u16(v) is None
                && spec_parse_sockaddr(v) is None)
            &&& (spec_parse_fd(s) is Err ==> spec_parse_fd(s) == Err::<FdV, SpecErrV>(
                SpecErrV::InvalidAddr,
            ))
        }),
{
}

/// An `http::` or `https::` specification resolves its value exactly as a
/// `tcp::` one does; the only difference is the descriptor variant and the
/// secure flag, which records which of the two prefixes was written.
pub proof fn lemma_parse_http_prefixed(s: Seq<char>)
    requires
        spec_split_type(s) matches Some(t) && (t.0 == "http"@ || t.0 == "https"@),
    ensures
        ({
            let v = spec_split_type(s)->Some_0.1;
            let secure = spec_split_type(s)->Some_0.0 == "https"@;
            &&& (spec_parse_u16(v) matches Some(p) ==> spec_parse_fd(s) == Ok::<FdV, SpecErrV>(
                FdV::Http { addr: spec_loopback(p), secure },
            ))
            &&& (spec_parse_u16(v) is None && (spec_parse_sockaddr(v) matches Some(a))
                ==> spec_parse_fd(s) == Ok::<FdV, SpecErrV>(
                    FdV::Http { addr: spec_parse_sockaddr(v)->Some_0, secure },
                ))
            &&& ((spec_parse_fd(s) is Err) <==> spec_parse_u16(v) is None
                && spec_parse_sockaddr(v) is None)
            &&& (spec_parse_fd(s) is Err ==> spec_parse_fd(s) == Err::<FdV, SpecErrV>(
                SpecErrV::InvalidAddr,
            ))
        }),
{
    lemma_known_types_distinct(spec_split_type(s)->Some_0.0);
}

/// A `udp::` specification resolves its value by the same bare-port and
/// full-address rules, yielding a datagram descriptor; anything else is a
/// hard parse error.
pub proof fn lemma_parse_udp_prefixed(s: Seq<char>)
    requires
        spec_split_type(s) matches Some(t) && t.0 == "udp"@,
    ensures
        ({
            let v = spec_split_type(s)->Some_0.1;
            &&& (spec_parse_u16(v) matches Some(p) ==> spec_parse_fd(s) == Ok::<FdV, SpecErrV>(
                FdV::Udp { addr: spec_loopback(p) },
            ))
            &&& (spec_parse_u16(v) is None && (spec_parse_sockaddr(v) matches Some(a))
                ==> spec_parse_fd(s) == Ok::<FdV, SpecErrV>(
                    FdV::Udp { addr: spec_parse_sockaddr(v)->Some_0 },
                ))
            &&& ((spec_parse_fd(s) is Err) <==> spec_parse_u16(v) is None
                && spec_parse_sockaddr(v) is None)
            &&& (spec_parse_fd(s) is Err ==> spec_parse_fd(s) == Err::<FdV, SpecErrV>(
                SpecErrV::InvalidAddr,
            ))
        }),
{
    lemma_known_types_distinct(spec_split_type(s)->Some_0.0);
}

/// A `unix::` specification always parses to a unix listener whose path is
/// the value, verbatim.
pub proof fn lemma_parse_unix_prefixed(s: Seq<char>)
    requires
        spec_split_type(s) matches Some(t) && t.0 == "unix"@,
    ensures
        spec_parse_fd(s) == Ok::<FdV, SpecErrV>(
            FdV::Unix { path: spec_split_type(s)->Some_0.1 },
        ),
{
    lemma_known_types_distinct(spec_split_type(s)->Some_0.0);
}

/// A typed specification whose type is none of the known socket types
/// parses to the error that names the unknown type.
pub proof fn lemma_parse_unknown_type(s: Seq<char>)
    requires
        spec_split_type(s) is Some,
        spec_split_type(s)->Some_0.0 != "tcp"@,
        spec_split_type(s)->Some_0.0 != "http"@,
        spec_split_type(s)->Some_0.0 != "https"@,
        spec_split_type(s)->Some_0.0 != "unix"@,
        spec_split_type(s)->Some_0.0 != "udp"@,
    ensures
        spec_parse_fd(s) == Err::<FdV, SpecErrV>(
            SpecErrV::UnknownType(spec_split_type(s)->Some_0.0),
        ),
{
}

/// An untyped specification that is neither a port, nor an address, nor a
/// path with a separator, fails to parse.
pub proof fn lemma_parse_unsupported(s: Seq<char>)
    requires
        spec_split_type(s) is None,
        spec_parse_u16(s) is None,
        spec_parse_sockaddr(s) is None,
        forall|i: int| 0 <= i < s.len() ==> s[i] != '/',
    ensures
        spec_parse_fd(s) == Err::<FdV, SpecErrV>(SpecErrV::Unsupported),
{
    assert(spec_listener_from(s) == Err::<FdV, SpecErrV>(SpecErrV::Unsupported));
}

/// A UDP descriptor is bound but never enters the listening state: it does
/// not ask to listen, and no creation plan for it includes a listen step,
/// whatever the reuse flag.
pub proof fn lemma_udp_never_listens(fd: FdV, reuse: bool)
    requires
        fd is Udp,
    ensures
        !spec_should_listen(fd),
        !spec_plan(fd, reuse).listen,
{
}

/// Every other descriptor does listen after binding.
pub proof fn lemma_others_listen(fd: FdV, reuse: bool)
    requires
        !(fd is Udp),
    ensures
        spec_should_listen(fd),
        spec_plan(fd, reuse).listen,
{
}

/// A creation plan never sets port reuse on a unix-domain socket, and sets
/// both reuse options on an internet socket exactly when reuse is asked for.
pub proof fn lemma_plan_reuse(fd: FdV, reuse: bool)
    ensures
        fd is Unix ==> !spec_plan(fd, reuse).set_reuse_port,
        spec_plan(fd, reuse).set_reuse_addr == reuse,
        !(fd is Unix) ==> spec_plan(fd, reuse).set_reuse_port == reuse,
{
}

/// The description of a TCP listener is always the address text followed by
/// ` (tcp listener)`; a secure HTTP listener is always described as
/// `https://<addr>/`.
pub proof fn lemma_describe_shapes(fd: FdV, addr: Seq<char>)
    ensures
        fd is Tcp ==> spec_describe(fd, addr) == addr + " (tcp listener)"@,
        (fd matches FdV::Http { secure: true, .. }) ==> spec_describe(fd, addr) == "https://"@
            + addr + "/"@,
        fd is Udp ==> spec_describe(fd, addr) == addr + " (udp)"@,
        fd is Unix ==> spec_describe(fd, addr) == addr + " (unix listener)"@,
{
}

/// A handshake whose secret piece does not read back as the shared secret is
/// refused as an authentication failure, whatever the rest of the payload
/// holds; nothing about the refusal depends on any state, so a later, correct
/// attempt is judged on its own.
pub proof fn lemma_handshake_rejects_wrong_secret(payload: Seq<char>, secret: u128)
    requires
        uuid_parse(spec_payload_pieces(payload).0) != Some(secret),
    ensures
        spec_check_handshake(payload, secret) == Err::<u32, HandshakeError>(
            HandshakeError::InvalidSecret,
        ),
{
}

/// The inheritance environment names the parent pid exactly when it is not
/// suppressed, and always announces the handle count and the first handle.
pub proof fn lemma_inherit_env_pid(count: nat, first: int, pid: u32, no_pid: bool)
    requires
        count > 0,
    ensures
        spec_inherit_env(count, first, pid, no_pid).len() == if no_pid { 2int } else { 3int },
        spec_inherit_env(count, first, pid, no_pid)[0]
            == ("LISTEN_FDS"@, crate::num::dec_str(count)),
        spec_inherit_env(count, first, pid, no_pid)[1]
            == ("LISTEN_FDS_FIRST_FD"@, crate::num::dec_str(first as nat)),
        !no_pid ==> spec_inherit_env(count, first, pid, no_pid)[2]
            == ("LISTEN_PID"@, crate::num::dec_str(pid as nat)),
        forall|i: int| 0 <= i < spec_inherit_env(count, first, pid, no_pid).len()
            ==> ((#[trigger] spec_inherit_env(count, first, pid, no_pid)[i]).0 == "LISTEN_PID"@
                ==> !no_pid),
{
    reveal_strlit("LISTEN_FDS");
    reveal_strlit("LISTEN_FDS_FIRST_FD");
    reveal_strlit("LISTEN_PID");
    let env = spec_inherit_env(count, first, pid, no_pid);
    assert forall|i: int| 0 <= i < env.len() implies ((#[trigger] env[i]).0 == "LISTEN_PID"@
        ==> !no_pid) by {
        if no_pid {
            assert(env[i].0 == "LISTEN_FDS"@ || env[i].0 == "LISTEN_FDS_FIRST_FD"@);
            if env[i].0 == "LISTEN_PID"@ {
                if env[i].0 == "LISTEN_FDS"@ {
                    assert(("LISTEN_FDS"@)[7] == 'F' && ("LISTEN_PID"@)[7] == 'P');
                } else {
                    assert(env[i].0.len() == 19 && env[i].0.len() == 10);
                }
            }
        }
    }
}

} // verus!
