use systemfd::fd::{create_all, create_raw_fd, describe_addr, parse_specs, Fd};

use nix::sys::socket::getsockopt;
use nix::sys::socket::sockopt::AcceptConn;
use nix::unistd::close;

/// Reads the port out of a `127.0.0.1:PORT...` address text.
fn port_of(text: &str) -> u16 {
    let rest = text.strip_prefix("127.0.0.1:").expect("loopback address text");
    let digits: String = rest.chars().take_while(|c| c.is_ascii_digit()).collect();
    digits.parse().expect("port digits")
}

#[test]
fn tcp_port_zero_gets_a_real_listening_port() {
    let fd = Fd::from_str("tcp::0").unwrap();
    let handle = fd.create_raw_fd(1, true).unwrap();
    let text = fd.describe_raw_fd(handle).unwrap();
    assert!(text.ends_with(" (tcp listener)"), "unexpected description {:?}", text);
    let port = port_of(&text);
    assert_ne!(port, 0);

    // The socket really is in the listening state.
    assert!(getsockopt(handle, AcceptConn).unwrap());
    let _ = close(handle);
}

#[test]
fn second_bind_fails_while_bound_and_succeeds_after_close() {
    let first = Fd::from_str("tcp::0").unwrap();
    let h1 = first.create_raw_fd(1, false).unwrap();
    let port = port_of(&describe_addr(h1).unwrap());

    let spec = format!("tcp::{}", port);
    let second = Fd::from_str(&spec).unwrap();

    // Without reuse, and with the port still bound, creation fails.
    let err = second.create_raw_fd(1, false).unwrap_err();
    assert_eq!(err.code, 98, "expected EADDRINUSE, got {:?}", err.msg);

    // After the first handle is closed, the same fixed port binds again.
    let _ = close(h1);
    let h2 = second.create_raw_fd(1, true).unwrap();
    let h3_err = Fd::from_str(&spec).unwrap().create_raw_fd(1, true);
    // Port reuse lets a second descriptor share the fixed port while the
    // other is still open.
    let h3 = h3_err.unwrap();
    let _ = close(h2);
    let _ = close(h3);
}

#[test]
fn udp_socket_is_bound_but_never_listens() {
    let fd = Fd::from_str("udp::0").unwrap();
    assert!(!fd.should_listen());
    let handle = fd.create_raw_fd(1, true).unwrap();
    let text = fd.describe_raw_fd(handle).unwrap();
    assert!(text.ends_with(" (udp)"), "unexpected description {:?}", text);
    assert_ne!(port_of(&text), 0);
    // Bound, but not listening.
    assert!(!getsockopt(handle, AcceptConn).unwrap());
    let _ = close(handle);
}

#[test]
fn unix_listener_replaces_a_stale_socket_file() {
    let path = "/tmp/systemfd_test_stale.sock";
    let fd = Fd::from_str(&format!("unix::{}", path)).unwrap();
    let h1 = fd.create_raw_fd(1, true).unwrap();
    let text = fd.describe_raw_fd(h1).unwrap();
    assert_eq!(text, format!("{} (unix listener)", path));
    let _ = close(h1);

    // The socket file is still on disk; a fresh creation unlinks it first
    // and binds again.
    let h2 = fd.create_raw_fd(1, true).unwrap();
    let _ = close(h2);
}

#[test]
fn end_to_end_scenario() {
    let specs = vec!["8080".to_string(), "unix::/tmp/test.sock".to_string()];
    let fds = parse_specs(&specs).unwrap();
    assert_eq!(fds.len(), 2);
    let pairs = create_all(fds, 5, true).unwrap();
    assert_eq!(pairs.len(), 2);
    let tcp_text = pairs[0].0.describe_raw_fd(pairs[0].1).unwrap();
    assert_eq!(tcp_text, "127.0.0.1:8080 (tcp listener)");
    let unix_text = pairs[1].0.describe_raw_fd(pairs[1].1).unwrap();
    assert_eq!(unix_text, "/tmp/test.sock (unix listener)");

    let first = pairs[0].1;
    let env = systemfd::spawn::prepare_inherit_env(&pairs, 4321, false).unwrap();
    assert_eq!(env.len(), 3);
    assert_eq!(env[0].0, "LISTEN_FDS");
    assert_eq!(env[0].1, "2");
    assert_eq!(env[1].0, "LISTEN_FDS_FIRST_FD");
    assert_eq!(env[1].1, format!("{}", first));
    assert_eq!(env[2].0, "LISTEN_PID");
    assert_eq!(env[2].1, "4321");

    for (_, handle) in pairs {
        let _ = close(handle);
    }
}

#[test]
fn unix_path_too_long_is_an_os_error() {
    let long = format!("/tmp/{}.sock", "x".repeat(200));
    let fd = Fd::from_str(&format!("unix::{}", long)).unwrap();
    // The path does not fit a sockaddr_un, so creation reports an OS error
    // without ever opening a socket.
    assert!(fd.create_raw_fd(1, true).is_err());
}

#[test]
fn create_all_keeps_order_and_closes_nothing_on_success() {
    let specs = vec!["tcp::0".to_string(), "udp::0".to_string()];
    let fds = parse_specs(&specs).unwrap();
    let pairs = create_all(fds, 1, true).unwrap();
    assert_eq!(pairs.len(), 2);
    assert!(matches!(pairs[0].0, Fd::TcpListener(..)));
    assert!(matches!(pairs[1].0, Fd::UdpSocket(..)));
    assert!(pairs[0].1 >= 0 && pairs[1].1 >= 0);
    // Both handles are live: each still answers a socket query.
    assert!(getsockopt(pairs[0].1, AcceptConn).unwrap());
    assert!(!getsockopt(pairs[1].1, AcceptConn).unwrap());
    for (_, h) in pairs {
        let _ = close(h);
    }
}

#[test]
fn create_all_aborts_the_batch_on_the_first_failure() {
    let long = format!("unix::/tmp/{}.sock", "y".repeat(200));
    let specs = vec!["tcp::0".to_string(), long, "udp::0".to_string()];
    let fds = parse_specs(&specs).unwrap();
    // The second descriptor cannot be created, so the whole batch fails.
    assert!(create_all(fds, 1, true).is_err());
}

#[test]
fn create_raw_fd_free_function_matches_the_method() {
    let fd = Fd::from_str("tcp::0").unwrap();
    let h = create_raw_fd(&fd, 1, true).unwrap();
    assert!(h >= 0);
    let _ = close(h);
}
