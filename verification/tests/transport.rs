use systemfd::fd::Fd;
use systemfd::spawn::{check_handshake, generate_secret, handshake_payload, handshake_reply_plan,
    prepare_duplication_env, prepare_inherit_env, HandshakeError};

use nix::unistd::close;

fn two_sockets() -> Vec<(Fd, i32)> {
    let mut pairs = Vec::new();
    for _ in 0..2 {
        let fd = Fd::from_str("tcp::0").unwrap();
        let handle = fd.create_raw_fd(1, true).unwrap();
        pairs.push((fd, handle));
    }
    pairs
}

#[test]
fn inherit_env_announces_count_first_fd_and_pid() {
    let pairs = two_sockets();
    let first = pairs[0].1;
    let env = prepare_inherit_env(&pairs, 777, false).unwrap();
    assert_eq!(env.len(), 3);
    assert_eq!(env[0], ("LISTEN_FDS".to_string(), "2".to_string()));
    assert_eq!(env[1], ("LISTEN_FDS_FIRST_FD".to_string(), format!("{}", first)));
    assert_eq!(env[2], ("LISTEN_PID".to_string(), "777".to_string()));
    for (_, h) in pairs {
        let _ = close(h);
    }
}

#[test]
fn inherit_env_omits_pid_when_suppressed() {
    let pairs = two_sockets();
    let env = prepare_inherit_env(&pairs, 777, true).unwrap();
    assert_eq!(env.len(), 2);
    assert!(env.iter().all(|(k, _)| k != "LISTEN_PID"));
    for (_, h) in pairs {
        let _ = close(h);
    }
}

#[test]
fn inherit_env_is_empty_without_sockets() {
    let env = prepare_inherit_env(&Vec::new(), 777, false).unwrap();
    assert!(env.is_empty());
}

#[test]
fn duplication_env_names_server_and_secret() {
    let secret = generate_secret();
    let env = prepare_duplication_env("127.0.0.1:9999", secret);
    assert_eq!(env.len(), 2);
    assert_eq!(env[0], ("SYSTEMFD_SOCKET_SERVER".to_string(), "127.0.0.1:9999".to_string()));
    assert_eq!(env[1].0, "SYSTEMFD_SOCKET_SECRET");
    // The secret's text is the canonical hyphenated form the uuid crate
    // writes for the same 128-bit value.
    assert_eq!(env[1].1, uuid::Uuid::from_u128(secret).to_string());
    assert_eq!(env[1].1.len(), 36);
}

#[test]
fn handshake_grants_correct_secret_in_order() {
    let secret = generate_secret();
    let payload = handshake_payload(secret, 4242);
    assert_eq!(check_handshake(&payload, secret), Ok(4242));

    let handles = vec![5, 9, 7];
    let (pid, order) = handshake_reply_plan(&payload, secret, &handles).unwrap();
    assert_eq!(pid, 4242);
    assert_eq!(order, handles);
}

#[test]
fn handshake_refuses_wrong_secret_then_grants_the_next() {
    let secret = generate_secret();
    let other = secret.wrapping_add(1);
    let bad = handshake_payload(other, 4242);
    let handles = vec![3, 4];
    assert_eq!(
        handshake_reply_plan(&bad, secret, &handles),
        Err(HandshakeError::InvalidSecret)
    );
    // The refusal leaves nothing behind: a correct attempt right after is
    // granted.
    let good = handshake_payload(secret, 4242);
    assert_eq!(
        handshake_reply_plan(&good, secret, &handles),
        Ok((4242, handles.clone()))
    );
}

#[test]
fn handshake_refuses_garbage_and_missing_pid() {
    let secret = generate_secret();
    assert_eq!(check_handshake("nonsense", secret), Err(HandshakeError::InvalidSecret));
    assert_eq!(check_handshake("", secret), Err(HandshakeError::InvalidSecret));

    let text = uuid::Uuid::from_u128(secret).to_string();
    assert_eq!(check_handshake(&text, secret), Err(HandshakeError::InvalidPid));
    assert_eq!(check_handshake(&format!("{}|", text), secret), Err(HandshakeError::InvalidPid));
    assert_eq!(check_handshake(&format!("{}|abc", text), secret), Err(HandshakeError::InvalidPid));
}

#[test]
fn handshake_reads_pid_like_std() {
    let secret = generate_secret();
    let text = uuid::Uuid::from_u128(secret).to_string();
    // A leading plus is accepted, as the standard library's number parser
    // accepts it; anything past a second pipe is ignored.
    assert_eq!(check_handshake(&format!("{}|+42", text), secret), Ok(42));
    assert_eq!(check_handshake(&format!("{}|42|extra", text), secret), Ok(42));
}

#[test]
fn handshake_accepts_alternate_uuid_spelling() {
    let secret = generate_secret();
    // The uuid parser also reads the unhyphenated spelling of the same
    // secret, so such a client authenticates too.
    let simple = uuid::Uuid::from_u128(secret).simple().to_string();
    assert_eq!(check_handshake(&format!("{}|7", simple), secret), Ok(7));
}
