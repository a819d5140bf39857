//! Handing created sockets to a child process.
//!
//! On platforms with descriptor inheritance the child learns of its sockets
//! through environment variables: `LISTEN_FDS` (how many), `LISTEN_FDS_FIRST_FD`
//! (the number of the first handle), and `LISTEN_PID` (the parent's process
//! id, omitted on request). On platforms without inheritance the child
//! connects back to a private control endpoint named in
//! `SYSTEMFD_SOCKET_SERVER`, authenticates with the shared secret from
//! `SYSTEMFD_SOCKET_SECRET` as `secret|pid`, and receives one transfer record
//! per socket, in specification order.

use vstd::prelude::*;
use crate::fd::Fd;
use crate::num::{dec_str, spec_parse_u32, parse_u32_str, to_dec_string, lemma_dec_str_canon,
    is_dec_digit};
use crate::osapi;
use crate::osapi::{uuid_text, uuid_parse};

verus! {

/// Why a handshake attempt was refused.
#[derive(Clone, Copy, Debug, PartialEq, Eq)]
pub enum HandshakeError {
    /// The secret piece is missing, unreadable, or not the shared secret.
    InvalidSecret,
    /// The pid piece is missing or not a number.
    InvalidPid,
}

/// The environment a child on an inheritance platform receives: nothing when
/// no socket was created; otherwise the handle count, the first handle's
/// number, and (unless suppressed) the parent's pid.
pub open spec fn spec_inherit_env(
    count: nat,
    first: int,
    pid: u32,
    no_pid: bool,
) -> Seq<(Seq<char>, Seq<char>)> {
    if count == 0 {
        Seq::empty()
    } else {
        let base = seq![
            ("LISTEN_FDS"@, dec_str(count)),
            ("LISTEN_FDS_FIRST_FD"@, dec_str(first as nat)),
        ];
        if no_pid {
            base
        } else {
            base.push(("LISTEN_PID"@, dec_str(pid as nat)))
        }
    }
}

/// Builds the environment additions for the inheritance transport, and marks
/// every handle inheritable by clearing its close-on-exec flag.
pub fn prepare_inherit_env(
    raw_fds: &Vec<(Fd, i32)>,
    pid: u32,
    no_pid: bool,
) -> (r: Result<Vec<(String, String)>, crate::OsErr>)
    requires
        forall|i: int| 0 <= i < raw_fds@.len() ==> (#[trigger] raw_fds@[i]).1 >= 0,
    ensures
        r matches Ok(env) ==> env_views(env@) == spec_inherit_env(
            raw_fds@.len() as nat,
            if raw_fds@.len() > 0 { raw_fds@[0].1 as int } else { 0 },
            pid,
            no_pid,
        ),
        raw_fds@.len() == 0 ==> r is Ok,
{
    let mut i: usize = 0;
    while i < raw_fds.len()
        invariant
            i <= raw_fds@.len(),
            forall|k: int| 0 <= k < raw_fds@.len() ==> (#[trigger] raw_fds@[k]).1 >= 0,
        decreases raw_fds@.len() - i,
    {
        if let Err(e) = osapi::clear_cloexec(raw_fds[i].1) {
            return Err(e);
        }
        i = i + 1;
    }
    let mut env: Vec<(String, String)> = Vec::new();
    if raw_fds.len() == 0 {
        proof {
            assert(env_views(env@) =~= spec_inherit_env(0, 0, pid, no_pid));
        }
        return Ok(env);
    }
    let count = to_dec_string(raw_fds.len() as u64);
    env.push((String::from_str("LISTEN_FDS"), count));
    let first = raw_fds[0].1;
    let first_text = to_dec_string(first as u64);
    env.push((String::from_str("LISTEN_FDS_FIRST_FD"), first_text));
    if !no_pid {
        env.push((String::from_str("LISTEN_PID"), to_dec_string(pid as u64)));
    }
    proof {
        assert(env_views(env@) =~= spec_inherit_env(
            raw_fds@.len() as nat,
            raw_fds@[0].1 as int,
            pid,
            no_pid,
        ));
    }
    Ok(env)
}

/// The views of a list of environment pairs.
pub open spec fn env_views(v: Seq<(String, String)>) -> Seq<(Seq<char>, Seq<char>)> {
    v.map_values(|p: (String, String)| (p.0@, p.1@))
}

/// Builds the environment additions for the duplication transport: the
/// control endpoint's address and the shared secret's text.
pub fn prepare_duplication_env(server_addr: &str, secret: u128) -> (r: Vec<(String, String)>)
    ensures
        env_views(r@) =~= seq![
            ("SYSTEMFD_SOCKET_SERVER"@, server_addr@),
            ("SYSTEMFD_SOCKET_SECRET"@, uuid_text(secret)),
        ],
{
    let mut env: Vec<(String, String)> = Vec::new();
    env.push((String::from_str("SYSTEMFD_SOCKET_SERVER"), String::from_str(server_addr)));
    env.push((String::from_str("SYSTEMFD_SOCKET_SECRET"), osapi::secret_text(secret)));
    env
}

/// Draws a fresh shared secret: 128 bits of randomness for one launch.
pub fn generate_secret() -> u128 {
    osapi::fresh_secret()
}

/// The first `|` at or after `i`, or the end of `s`.
pub open spec fn find_pipe(s: Seq<char>, i: int) -> int
    decreases s.len() - i when 0 <= i <= s.len()
{
    if i >= s.len() {
        i
    } else if s[i] == '|' {
        i
    } else {
        find_pipe(s, i + 1)
    }
}

/// What `find_pipe` finds.
pub proof fn lemma_find_pipe(s: Seq<char>, i: int)
    requires
        0 <= i <= s.len(),
    ensures
        i <= find_pipe(s, i) <= s.len(),
        forall|k: int| i <= k < find_pipe(s, i) ==> s[k] != '|',
        find_pipe(s, i) < s.len() ==> s[find_pipe(s, i)] == '|',
    decreases s.len() - i,
{
    if i < s.len() && s[i] != '|' {
        lemma_find_pipe(s, i + 1);
    }
}

/// The two pieces of a handshake payload `secret|pid`: the text before the
/// first `|` (the whole payload when there is none), and the text between the
/// first and second `|` (absent when there is no `|` at all; anything past a
/// second `|` is ignored).
pub open spec fn spec_payload_pieces(s: Seq<char>) -> (Seq<char>, Option<Seq<char>>) {
    let p1 = find_pipe(s, 0);
    if p1 == s.len() {
        (s, None)
    } else {
        let p2 = find_pipe(s, p1 + 1);
        (s.subrange(0, p1), Some(s.subrange(p1 + 1, p2)))
    }
}

/// The handshake decision: the secret piece must read as the shared secret,
/// and the pid piece must be present and numeric; then the request is granted
/// for that pid.
pub open spec fn spec_check_handshake(payload: Seq<char>, secret: u128) -> Result<
    u32,
    HandshakeError,
> {
    let (sp, pp) = spec_payload_pieces(payload);
    match uuid_parse(sp) {
        None => Err(HandshakeError::InvalidSecret),
        Some(v) => if v != secret {
            Err(HandshakeError::InvalidSecret)
        } else {
            match pp {
                None => Err(HandshakeError::InvalidPid),
                Some(ps) => match spec_parse_u32(ps) {
                    None => Err(HandshakeError::InvalidPid),
                    Some(pid) => Ok(pid),
                },
            }
        },
    }
}

/// Finds the first `|` at or after `i`.
fn find_pipe_exec(s: &str, i: usize) -> (r: usize)
    requires
        i <= s@.len(),
    ensures
        r == find_pipe(s@, i as int),
        i <= r <= s@.len(),
    decreases s@.len() - i,
{
    let n = s.unicode_len();
    if i >= n {
        return i;
    }
    if s.get_char(i) == '|' {
        i
    } else {
        find_pipe_exec(s, i + 1)
    }
}

/// Checks one handshake payload against the shared secret.
pub fn check_handshake(payload: &str, secret: u128) -> (r: Result<u32, HandshakeError>)
    ensures
        r == spec_check_handshake(payload@, secret),
{
    let n = payload.unicode_len();
    let p1 = find_pipe_exec(payload, 0);
    let (secret_piece, pid_piece) = if p1 == n {
        (payload.substring_char(0, n), None)
    } else {
        let p2 = find_pipe_exec(payload, p1 + 1);
        (payload.substring_char(0, p1), Some(payload.substring_char(p1 + 1, p2)))
    };
    proof {
        assert(payload@.subrange(0, n as int) =~= payload@);
    }
    match osapi::parse_secret(secret_piece) {
        None => Err(HandshakeError::InvalidSecret),
        Some(v) => if v != secret {
            Err(HandshakeError::InvalidSecret)
        } else {
            match pid_piece {
                None => Err(HandshakeError::InvalidPid),
                Some(ps) => match parse_u32_str(ps) {
                    None => Err(HandshakeError::InvalidPid),
                    Some(pid) => Ok(pid),
                },
            }
        },
    }
}

/// Decides one handshake attempt as the acceptor must: on the right secret
/// and a readable pid, the duplication targets are exactly the owned handles,
/// in specification order; otherwise the attempt is refused and nothing is
/// handed out.
pub fn handshake_reply_plan(payload: &str, secret: u128, handles: &Vec<i32>) -> (r: Result<
    (u32, Vec<i32>),
    HandshakeError,
>)
    ensures
        match r {
            Ok(t) => spec_check_handshake(payload@, secret) == Ok::<u32, HandshakeError>(t.0)
                && t.1@ == handles@,
            Err(e) => spec_check_handshake(payload@, secret) == Err::<u32, HandshakeError>(e),
        },
{
    match check_handshake(payload, secret) {
        Err(e) => Err(e),
        Ok(pid) => {
            let mut order: Vec<i32> = Vec::new();
            let mut i: usize = 0;
            while i < handles.len()
                invariant
                    i <= handles@.len(),
                    order@ == handles@.subrange(0, i as int),
                decreases handles@.len() - i,
            {
                order.push(handles[i]);
                proof {
                    assert(order@ =~= handles@.subrange(0, i + 1 as int));
                }
                i = i + 1;
            }
            proof {
                assert(order@ =~= handles@);
            }
            Ok((pid, order))
        },
    }
}

/// Builds the payload a child presents to authenticate: the secret's
/// canonical text, a `|`, and its pid in decimal. Such a payload always
/// passes `check_handshake` against the same secret.
pub fn handshake_payload(secret: u128, pid: u32) -> (r: String)
    ensures
        r@ == uuid_text(secret) + seq!['|'] + dec_str(pid as nat),
        spec_check_handshake(r@, secret) == Ok::<u32, HandshakeError>(pid),
{
    let mut r = osapi::secret_text(secret);
    let ghost st = r@;
    r.append("|");
    let pid_text = to_dec_string(pid as u64);
    r.append(pid_text.as_str());
    proof {
        reveal_strlit("|");
        assert(r@ =~= st + seq!['|'] + dec_str(pid as nat));
        lemma_dec_str_canon(pid as nat);
        let pp = dec_str(pid as nat);
        assert forall|i: int| 0 <= i < pp.len() implies pp[i] != '|' by {
            assert(is_dec_digit(pp[i]));
        }
        lemma_payload_pieces(st, pp);
        assert(crate::num::spec_strip_plus(pp) == pp) by {
            assert(is_dec_digit(pp[0]));
        }
        assert(spec_parse_u32(pp) == Some(pid));
    }
    r
}

/// Splitting `a|b` at the pipes yields `a` and `b`, when `a` and `b` hold no
/// pipe themselves.
proof fn lemma_payload_pieces(a: Seq<char>, b: Seq<char>)
    requires
        forall|i: int| 0 <= i < a.len() ==> a[i] != '|',
        forall|i: int| 0 <= i < b.len() ==> b[i] != '|',
    ensures
        spec_payload_pieces(a + seq!['|'] + b) == (a, Some(b)),
{
    let s = a + seq!['|'] + b;
    assert(s.len() == a.len() + 1 + b.len());
    assert(s[a.len() as int] == '|');
    lemma_find_pipe(s, 0);
    let p1 = find_pipe(s, 0);
    assert(p1 <= a.len()) by {
        if p1 > a.len() {
            assert(s[a.len() as int] == '|');
        }
    }
    assert(p1 >= a.len()) by {
        if p1 < a.len() {
            assert(s[p1] == a[p1]);
        }
    }
    lemma_find_pipe(s, p1 + 1);
    let p2 = find_pipe(s, p1 + 1);
    assert(p2 == s.len()) by {
        if p2 < s.len() {
            assert(s[p2] == b[p2 - a.len() - 1]);
        }
    }
    assert(s.subrange(0, p1) =~= a);
    assert(s.subrange(p1 + 1, p2) =~= b);
}

} // verus!
