use systemfd::addr::{HostIp, NetAddr};
use systemfd::fd::{Fd, SpecError, SockFamily, SockKind};

fn tcp_addr(fd: &Fd) -> NetAddr {
    match fd {
        Fd::TcpListener(a) => *a,
        other => panic!("expected a tcp listener, got {:?}", other),
    }
}

#[test]
fn bare_port_parses_to_loopback() {
    let fd = Fd::from_str("8080").unwrap();
    let a = tcp_addr(&fd);
    assert_eq!(a.host, HostIp::V4 { a: 127, b: 0, c: 0, d: 1 });
    assert_eq!(a.port, 8080);
}

#[test]
fn bare_zero_and_typed_zero_agree() {
    let a = tcp_addr(&Fd::from_str("0").unwrap());
    let b = tcp_addr(&Fd::from_str("tcp::0").unwrap());
    assert_eq!(a, b);
    assert_eq!(a.port, 0);
    assert_eq!(a.host, HostIp::V4 { a: 127, b: 0, c: 0, d: 1 });
}

#[test]
fn plus_and_leading_zeros_in_bare_port() {
    assert_eq!(tcp_addr(&Fd::from_str("+80").unwrap()).port, 80);
    assert_eq!(tcp_addr(&Fd::from_str("08080").unwrap()).port, 8080);
}

#[test]
fn full_v4_address() {
    let a = tcp_addr(&Fd::from_str("1.2.3.4:567").unwrap());
    assert_eq!(a.host, HostIp::V4 { a: 1, b: 2, c: 3, d: 4 });
    assert_eq!(a.port, 567);
}

#[test]
fn full_v6_address() {
    // With and without the tcp prefix.
    let b = tcp_addr(&Fd::from_str("tcp::[::1]:8080").unwrap());
    assert_eq!(b.port, 8080);
    let a = tcp_addr(&Fd::from_str("[::1]:8080").unwrap());
    assert_eq!(a.host, b.host);
    assert_eq!(a.host, HostIp::V6 { segs: [0, 0, 0, 0, 0, 0, 0, 1], scope: 0 });
    assert_eq!(a.port, 8080);
}

#[test]
fn v6_address_with_scope() {
    let a = tcp_addr(&Fd::from_str("[fe80::1%5]:80").unwrap());
    assert_eq!(a.host, HostIp::V6 { segs: [0xfe80, 0, 0, 0, 0, 0, 0, 1], scope: 5 });
    assert_eq!(a.port, 80);
}

#[test]
fn v6_embedded_v4_tail() {
    let b = tcp_addr(&Fd::from_str("[::ffff:192.168.0.1]:53").unwrap());
    assert_eq!(b.host, HostIp::V6 { segs: [0, 0, 0, 0, 0, 0xffff, 0xc0a8, 0x0001], scope: 0 });
    assert_eq!(b.port, 53);
}

#[test]
fn v6_grammar_accepts_standard_forms() {
    let a = tcp_addr(&Fd::from_str("[1:2:3:4:5:6:7:8]:80").unwrap());
    assert_eq!(a.host, HostIp::V6 { segs: [1, 2, 3, 4, 5, 6, 7, 8], scope: 0 });
    let a = tcp_addr(&Fd::from_str("[1:2:3:4:5:6:7::]:80").unwrap());
    assert_eq!(a.host, HostIp::V6 { segs: [1, 2, 3, 4, 5, 6, 7, 0], scope: 0 });
    let a = tcp_addr(&Fd::from_str("[::]:0").unwrap());
    assert_eq!(a.host, HostIp::V6 { segs: [0; 8], scope: 0 });
    assert_eq!(a.port, 0);
    let a = tcp_addr(&Fd::from_str("[::7:8]:80").unwrap());
    assert_eq!(a.host, HostIp::V6 { segs: [0, 0, 0, 0, 0, 0, 7, 8], scope: 0 });
    let a = tcp_addr(&Fd::from_str("[1:2:3:4:5:6:192.168.0.1]:80").unwrap());
    assert_eq!(a.host, HostIp::V6 { segs: [1, 2, 3, 4, 5, 6, 0xc0a8, 0x0001], scope: 0 });
    let a = tcp_addr(&Fd::from_str("[ABCD::eF09]:1").unwrap());
    assert_eq!(a.host, HostIp::V6 { segs: [0xabcd, 0, 0, 0, 0, 0, 0, 0xef09], scope: 0 });
    let a = tcp_addr(&Fd::from_str("[::1%00]:80").unwrap());
    assert_eq!(a.host, HostIp::V6 { segs: [0, 0, 0, 0, 0, 0, 0, 1], scope: 0 });
}

#[test]
fn v6_grammar_rejects_malformed_forms() {
    // Each of these falls through to the untyped rules and fails there.
    for bad in [
        "[:::1]:80",
        "[1::2::3]:80",
        "[12345::]:80",
        "[1:2:3:4:5:6:7:8:9]:80",
        "[1.2.3.4::]:80",
        "[1:2:1.2.3.4::]:80",
        "[1:2:3:4:5:1.2.3.4:6]:80",
        "[::1]:99999",
        "[::1%]:80",
        "[::1%x]:80",
        "[::1]:",
        "[::1]",
    ] {
        assert!(
            matches!(Fd::from_str(bad), Err(SpecError::Unsupported)),
            "{:?} should not parse",
            bad
        );
    }
}

#[test]
fn sockaddr_port_digits_follow_the_standard_grammar() {
    // Leading zeros are fine in a socket-address port, a sign is not.
    assert_eq!(tcp_addr(&Fd::from_str("1.2.3.4:080").unwrap()).port, 80);
    assert!(matches!(Fd::from_str("1.2.3.4:+80"), Err(SpecError::Unsupported)));
}

#[test]
fn http_listeners_carry_the_secure_flag() {
    match Fd::from_str("http::3000").unwrap() {
        Fd::HttpListener(a, secure) => {
            assert_eq!(a.host, HostIp::V4 { a: 127, b: 0, c: 0, d: 1 });
            assert_eq!(a.port, 3000);
            assert!(!secure);
        }
        other => panic!("expected an http listener, got {:?}", other),
    }
    match Fd::from_str("https::1.2.3.4:443").unwrap() {
        Fd::HttpListener(a, secure) => {
            assert_eq!(a.host, HostIp::V4 { a: 1, b: 2, c: 3, d: 4 });
            assert_eq!(a.port, 443);
            assert!(secure);
        }
        other => panic!("expected an https listener, got {:?}", other),
    }
}

#[test]
fn unix_prefixed_takes_the_path_verbatim() {
    match Fd::from_str("unix::/tmp/foo.sock").unwrap() {
        Fd::UnixListener(p) => assert_eq!(p, "/tmp/foo.sock"),
        other => panic!("expected a unix listener, got {:?}", other),
    }
}

#[test]
fn untyped_path_becomes_unix_listener() {
    match Fd::from_str("/tmp/some.sock").unwrap() {
        Fd::UnixListener(p) => assert_eq!(p, "/tmp/some.sock"),
        other => panic!("expected a unix listener, got {:?}", other),
    }
}

#[test]
fn udp_spec_parses_to_datagram_descriptor() {
    match Fd::from_str("udp::514").unwrap() {
        Fd::UdpSocket(a) => {
            assert_eq!(a.host, HostIp::V4 { a: 127, b: 0, c: 0, d: 1 });
            assert_eq!(a.port, 514);
        }
        other => panic!("expected a udp socket, got {:?}", other),
    }
}

#[test]
fn unknown_type_is_reported_with_its_name() {
    match Fd::from_str("foo::bar") {
        Err(SpecError::UnknownType(t)) => assert_eq!(t, "foo"),
        other => panic!("expected an unknown-type error, got {:?}", other),
    }
    // The type match is case-sensitive.
    match Fd::from_str("TCP::80") {
        Err(SpecError::UnknownType(t)) => assert_eq!(t, "TCP"),
        other => panic!("expected an unknown-type error, got {:?}", other),
    }
}

#[test]
fn unsupported_untyped_values_fail() {
    assert!(matches!(Fd::from_str("hello"), Err(SpecError::Unsupported)));
    assert!(matches!(Fd::from_str("65536"), Err(SpecError::Unsupported)));
    assert!(matches!(Fd::from_str("01.2.3.4:80"), Err(SpecError::Unsupported)));
    assert!(matches!(Fd::from_str(""), Err(SpecError::Unsupported)));
    // A newline keeps the prefix form from matching, and the untyped
    // fallback rejects the whole string.
    assert!(matches!(Fd::from_str("tcp::80\n"), Err(SpecError::Unsupported)));
    // An empty value keeps the prefix form from matching too.
    assert!(matches!(Fd::from_str("tcp::"), Err(SpecError::Unsupported)));
}

#[test]
fn typed_values_that_are_no_address_fail() {
    assert!(matches!(Fd::from_str("tcp::hello"), Err(SpecError::InvalidAddr)));
    assert!(matches!(Fd::from_str("tcp::65536"), Err(SpecError::InvalidAddr)));
    assert!(matches!(Fd::from_str("udp::1.2.3.4:99999"), Err(SpecError::InvalidAddr)));
    assert!(matches!(Fd::from_str("http::1.2.3.256:80"), Err(SpecError::InvalidAddr)));
}

#[test]
fn should_listen_is_false_only_for_udp() {
    assert!(Fd::from_str("tcp::80").unwrap().should_listen());
    assert!(Fd::from_str("http::80").unwrap().should_listen());
    assert!(Fd::from_str("unix::/tmp/x.sock").unwrap().should_listen());
    assert!(!Fd::from_str("udp::80").unwrap().should_listen());
}

#[test]
fn sock_info_families_and_kinds() {
    assert_eq!(
        Fd::from_str("tcp::80").unwrap().sock_info(),
        (SockFamily::Inet, SockKind::Stream)
    );
    assert_eq!(
        Fd::from_str("tcp::[::1]:80").unwrap().sock_info(),
        (SockFamily::Inet6, SockKind::Stream)
    );
    assert_eq!(
        Fd::from_str("udp::[::1]:80").unwrap().sock_info(),
        (SockFamily::Inet6, SockKind::Datagram)
    );
    assert_eq!(
        Fd::from_str("unix::/tmp/x.sock").unwrap().sock_info(),
        (SockFamily::Unix, SockKind::Stream)
    );
}

#[test]
fn creation_plan_skips_port_reuse_on_unix() {
    let unix = Fd::from_str("unix::/tmp/x.sock").unwrap();
    let plan = unix.creation_plan(true);
    assert!(plan.set_reuse_addr);
    assert!(!plan.set_reuse_port);
    assert!(plan.unlink_stale);
    assert!(plan.listen);

    let tcp = Fd::from_str("tcp::80").unwrap();
    let plan = tcp.creation_plan(true);
    assert!(plan.set_reuse_addr);
    assert!(plan.set_reuse_port);
    assert!(!plan.unlink_stale);
    assert!(plan.listen);

    let plan = tcp.creation_plan(false);
    assert!(!plan.set_reuse_addr);
    assert!(!plan.set_reuse_port);

    let udp = Fd::from_str("udp::80").unwrap();
    assert!(!udp.creation_plan(true).listen);
}

#[test]
fn describe_shapes() {
    let tcp = Fd::from_str("tcp::80").unwrap();
    assert_eq!(tcp.describe_with_addr("127.0.0.1:80"), "127.0.0.1:80 (tcp listener)");
    let http = Fd::from_str("http::80").unwrap();
    assert_eq!(http.describe_with_addr("127.0.0.1:80"), "http://127.0.0.1:80/");
    let https = Fd::from_str("https::80").unwrap();
    assert_eq!(https.describe_with_addr("127.0.0.1:80"), "https://127.0.0.1:80/");
    let unix = Fd::from_str("unix::/tmp/x.sock").unwrap();
    assert_eq!(unix.describe_with_addr("/tmp/x.sock"), "/tmp/x.sock (unix listener)");
    let udp = Fd::from_str("udp::514").unwrap();
    assert_eq!(udp.describe_with_addr("127.0.0.1:514"), "127.0.0.1:514 (udp)");
}

#[test]
fn decimal_helpers_match_std() {
    assert_eq!(systemfd::num::parse_u16_str("+123"), Some(123));
    assert_eq!(systemfd::num::parse_u16_str("0"), Some(0));
    assert_eq!(systemfd::num::parse_u16_str("65535"), Some(65535));
    assert_eq!(systemfd::num::parse_u16_str("65536"), None);
    assert_eq!(systemfd::num::parse_u16_str(""), None);
    assert_eq!(systemfd::num::parse_u16_str("+"), None);
    assert_eq!(systemfd::num::parse_u16_str("-1"), None);
    assert_eq!(systemfd::num::parse_u16_str("12a"), None);
    assert_eq!(systemfd::num::to_dec_string(0), "0");
    assert_eq!(systemfd::num::to_dec_string(65535), "65535");
    assert_eq!(systemfd::num::to_dec_string(1000000007), "1000000007");
}

#[test]
fn quiet_exit_carries_its_code() {
    let q = systemfd::QuietExit(3);
    assert_eq!(q.code(), 3);
}

#[test]
fn parse_specs_parses_all_or_reports_the_first_error() {
    let good = vec!["8080".to_string(), "unix::/tmp/a.sock".to_string(), "udp::0".to_string()];
    let fds = systemfd::fd::parse_specs(&good).unwrap();
    assert_eq!(fds.len(), 3);
    assert!(matches!(fds[0], Fd::TcpListener(..)));
    assert!(matches!(fds[1], Fd::UnixListener(..)));
    assert!(matches!(fds[2], Fd::UdpSocket(..)));

    let bad = vec!["8080".to_string(), "bogus".to_string(), "also::bad".to_string()];
    match systemfd::fd::parse_specs(&bad) {
        Err((i, SpecError::Unsupported)) => assert_eq!(i, 1),
        other => panic!("expected the first error at index 1, got {:?}", other),
    }
}
