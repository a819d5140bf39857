//! Trusted boundary to the operating system and to the `uuid` crate.
//!
//! Every function here is `external_body`: its body makes one outside call
//! (or converts that call's arguments and result) and Verus believes the
//! stated contract. Socket handles are carried as plain `i32` file
//! descriptors, exactly as the kernel hands them out.

use vstd::prelude::*;
use crate::OsErr;

verus! {

/// Native socket-address storage, as `nix` models `struct sockaddr_storage`.
/// Opaque to verification; built from plain values by the constructors below.
#[verifier::external_type_specification]
#[verifier::external_body]
pub struct ExSockaddrStorage(nix::sys::socket::SockaddrStorage);

/// Native unix-domain socket address, as `nix` models `struct sockaddr_un`.
#[verifier::external_type_specification]
#[verifier::external_body]
pub struct ExUnixAddr(nix::sys::socket::UnixAddr);

/// Relies on `SockaddrStorage: From<core::net::SocketAddrV4>`: packs the four
/// IPv4 octets and the port into native sockaddr storage.
#[verifier::external_body]
pub(crate) fn make_inet_sockaddr_v4(a: u8, b: u8, c: u8, d: u8, port: u16) -> nix::sys::socket::SockaddrStorage {
    nix::sys::socket::SockaddrStorage::from(core::net::SocketAddrV4::new(
        core::net::Ipv4Addr::new(a, b, c, d),
        port,
    ))
}

/// Relies on `SockaddrStorage: From<core::net::SocketAddrV6>`: packs the eight
/// IPv6 segments, the port and the scope id into native sockaddr storage
/// (flow information is zero).
#[verifier::external_body]
pub(crate) fn make_inet_sockaddr_v6(
    s0: u16, s1: u16, s2: u16, s3: u16, s4: u16, s5: u16, s6: u16, s7: u16,
    port: u16,
    scope: u32,
) -> nix::sys::socket::SockaddrStorage {
    nix::sys::socket::SockaddrStorage::from(core::net::SocketAddrV6::new(
        core::net::Ipv6Addr::new(s0, s1, s2, s3, s4, s5, s6, s7),
        port,
        0,
        scope,
    ))
}

/// Relies on `nix::sys::socket::UnixAddr::new`: builds a pathname unix-domain
/// address; fails (for example) when the path is too long for `sun_path` or
/// holds an interior NUL byte.
#[verifier::external_body]
pub(crate) fn make_unix_sockaddr(path: &str) -> Result<nix::sys::socket::UnixAddr, OsErr> {
    nix::sys::socket::UnixAddr::new(path).map_err(|e| OsErr::new(e as i32, e.to_string()))
}

/// Relies on `nix::sys::socket::socket` with `SOCK_STREAM` and the family the
/// given internet address carries; on success the kernel returned the
/// nonnegative descriptor of a fresh, not yet bound socket.
#[verifier::external_body]
pub(crate) fn open_stream_inet(sa: &nix::sys::socket::SockaddrStorage) -> (r: Result<i32, OsErr>)
    ensures
        r is Ok ==> r->Ok_0 >= 0,
{
    let fam = nix::sys::socket::SockaddrLike::family(sa)
        .unwrap_or(nix::sys::socket::AddressFamily::Unspec);
    nix::sys::socket::socket(fam, nix::sys::socket::SockType::Stream,
        nix::sys::socket::SockFlag::empty(), None)
        .map_err(|e| OsErr::new(e as i32, e.to_string()))
}

/// Relies on `nix::sys::socket::socket` with `SOCK_DGRAM` and the family the
/// given internet address carries; on success the kernel returned the
/// nonnegative descriptor of a fresh, not yet bound socket.
#[verifier::external_body]
pub(crate) fn open_dgram_inet(sa: &nix::sys::socket::SockaddrStorage) -> (r: Result<i32, OsErr>)
    ensures
        r is Ok ==> r->Ok_0 >= 0,
{
    let fam = nix::sys::socket::SockaddrLike::family(sa)
        .unwrap_or(nix::sys::socket::AddressFamily::Unspec);
    nix::sys::socket::socket(fam, nix::sys::socket::SockType::Datagram,
        nix::sys::socket::SockFlag::empty(), None)
        .map_err(|e| OsErr::new(e as i32, e.to_string()))
}

/// Relies on `nix::sys::socket::socket` with `AF_UNIX` and `SOCK_STREAM`; on
/// success the kernel returned the nonnegative descriptor of a fresh socket.
#[verifier::external_body]
pub(crate) fn open_stream_unix() -> (r: Result<i32, OsErr>)
    ensures
        r is Ok ==> r->Ok_0 >= 0,
{
    nix::sys::socket::socket(nix::sys::socket::AddressFamily::Unix,
        nix::sys::socket::SockType::Stream, nix::sys::socket::SockFlag::empty(), None)
        .map_err(|e| OsErr::new(e as i32, e.to_string()))
}

/// Relies on `nix::sys::socket::bind`: asks the kernel to bind the descriptor
/// to the given internet address.
#[verifier::external_body]
pub(crate) fn bind_inet(fd: i32, sa: &nix::sys::socket::SockaddrStorage) -> Result<(), OsErr> {
    nix::sys::socket::bind(fd, sa).map_err(|e| OsErr::new(e as i32, e.to_string()))
}

/// Relies on `nix::sys::socket::bind`: asks the kernel to bind the descriptor
/// to the given unix-domain address.
#[verifier::external_body]
pub(crate) fn bind_unix(fd: i32, sa: &nix::sys::socket::UnixAddr) -> Result<(), OsErr> {
    nix::sys::socket::bind(fd, sa).map_err(|e| OsErr::new(e as i32, e.to_string()))
}

/// Relies on `nix::sys::socket::setsockopt` with `sockopt::ReuseAddr`: turns
/// `SO_REUSEADDR` on for the descriptor.
#[verifier::external_body]
pub(crate) fn set_reuse_addr(fd: i32) -> Result<(), OsErr> {
    nix::sys::socket::setsockopt(fd, nix::sys::socket::sockopt::ReuseAddr, &true)
        .map_err(|e| OsErr::new(e as i32, e.to_string()))
}

/// Relies on `nix::sys::socket::setsockopt` with `sockopt::ReusePort`: turns
/// `SO_REUSEPORT` on for the descriptor.
#[verifier::external_body]
pub(crate) fn set_reuse_port(fd: i32) -> Result<(), OsErr> {
    nix::sys::socket::setsockopt(fd, nix::sys::socket::sockopt::ReusePort, &true)
        .map_err(|e| OsErr::new(e as i32, e.to_string()))
}

/// Relies on `nix::sys::socket::listen`: puts the bound descriptor into the
/// listening state with the given backlog.
#[verifier::external_body]
pub(crate) fn listen_fd(fd: i32, backlog: usize) -> Result<(), OsErr> {
    nix::sys::socket::listen(fd, backlog).map_err(|e| OsErr::new(e as i32, e.to_string()))
}

/// Relies on `nix::unistd::close`: returns the descriptor to the kernel. Any
/// failure is ignored, as nothing can be done about it on a cleanup path.
#[verifier::external_body]
pub(crate) fn close_fd(fd: i32) {
    let _ = nix::unistd::close(fd);
}

/// Relies on `nix::sys::socket::getsockname` and the `Display` form of
/// `SockaddrStorage`: the text of the local address the descriptor is bound to
/// (`a.b.c.d:port`, `[v6]:port`, or a unix socket path).
#[verifier::external_body]
pub(crate) fn sockname_text(fd: i32) -> Result<String, OsErr> {
    let ss: nix::sys::socket::SockaddrStorage =
        nix::sys::socket::getsockname(fd).map_err(|e| OsErr::new(e as i32, e.to_string()))?;
    Ok(ss.to_string())
}

/// Relies on `nix::unistd::unlink`: removes the filesystem entry at `path`,
/// best effort; failure (for example, no such file) is ignored.
#[verifier::external_body]
pub(crate) fn unlink_path(path: &str) {
    let _ = nix::unistd::unlink(path);
}

/// Relies on `nix::fcntl::fcntl` with `F_SETFD` and empty flags: clears the
/// close-on-exec flag so the descriptor survives `exec` into the child.
#[verifier::external_body]
pub(crate) fn clear_cloexec(fd: i32) -> Result<(), OsErr> {
    nix::fcntl::fcntl(fd, nix::fcntl::FcntlArg::F_SETFD(nix::fcntl::FdFlag::empty()))
        .map(|_| ())
        .map_err(|e| OsErr::new(e as i32, e.to_string()))
}

/// The canonical hyphenated text of a 128-bit token, as `uuid` writes it.
/// Named because its exact shape lives in the `uuid` crate; it depends on the
/// token alone.
pub uninterp spec fn uuid_text(v: u128) -> Seq<char>;

/// What `uuid`'s parser makes of a piece of text: the 128-bit token it
/// denotes, if any. Depends on the text alone.
pub uninterp spec fn uuid_parse(s: Seq<char>) -> Option<u128>;

/// Relies on `uuid::Uuid::new_v4`: a token drawn with 128 bits of randomness.
/// Nothing is promised of the value.
#[verifier::external_body]
pub(crate) fn fresh_secret() -> u128 {
    uuid::Uuid::new_v4().as_u128()
}

/// Relies on the `Display` form of `uuid::Uuid`: the hyphenated lowercase
/// text, 36 characters of hex digits and hyphens (so never a `|`), which
/// `uuid`'s parser reads back as the same token.
#[verifier::external_body]
pub(crate) fn secret_text(v: u128) -> (r: String)
    ensures
        r@ == uuid_text(v),
        r@.len() == 36,
        forall|i: int| 0 <= i < r@.len() ==> r@[i] != '|',
        uuid_parse(r@) == Some(v),
{
    uuid::Uuid::from_u128(v).to_string()
}

/// Relies on `uuid::Uuid`'s `FromStr`: reads a token from text, in any of the
/// formats the `uuid` crate accepts.
#[verifier::external_body]
pub(crate) fn parse_secret(s: &str) -> (r: Option<u128>)
    ensures
        r == uuid_parse(s@),
{
    s.parse::<uuid::Uuid>().ok().map(|u| u.as_u128())
}

} // verus!
