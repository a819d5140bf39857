//! Socket descriptors and the specification grammar.
//!
//! A specification is `[TYPE::]VALUE` where `TYPE` is one of `tcp`, `http`,
//! `https`, `unix`, `udp` (a nonempty run of ASCII letters followed by `::`,
//! with a nonempty value holding no newline). The value resolves, in order, as
//! a bare port on loopback, a full `host:port` address, or (for the untyped
//! form) a unix path when it holds a path separator.

use vstd::prelude::*;
use crate::OsErr;
use crate::addr::{HostIp, NetAddr, NetAddrV, HostV, spec_loopback, loopback, spec_parse_sockaddr,
    parse_sockaddr};
use crate::num::{spec_parse_u16, parse_u16_str};
use crate::osapi;

verus! {

/// Why a specification string was rejected.
#[derive(Debug)]
pub enum SpecError {
    /// No type prefix, and the value is neither a port, an address, nor a path.
    Unsupported,
    /// The type prefix is none of the known socket types.
    UnknownType(String),
    /// A typed value that must be a port or an address is neither.
    InvalidAddr,
}

/// The mathematical value of a `SpecError`.
pub enum SpecErrV {
    Unsupported,
    UnknownType(Seq<char>),
    InvalidAddr,
}

impl View for SpecError {
    type V = SpecErrV;

    open spec fn view(&self) -> SpecErrV {
        match self {
            SpecError::Unsupported => SpecErrV::Unsupported,
            SpecError::UnknownType(t) => SpecErrV::UnknownType(t@),
            SpecError::InvalidAddr => SpecErrV::InvalidAddr,
        }
    }
}

/// A socket descriptor: what kind of socket to create and where to bind it.
#[derive(Debug)]
pub enum Fd {
    /// Like a TCP listener; the flag records whether it is described with the
    /// `https` scheme. It never changes how the socket is created.
    HttpListener(NetAddr, bool),
    TcpListener(NetAddr),
    UnixListener(String),
    UdpSocket(NetAddr),
}

/// The mathematical value of a descriptor.
pub enum FdV {
    Http { addr: NetAddrV, secure: bool },
    Tcp { addr: NetAddrV },
    Unix { path: Seq<char> },
    Udp { addr: NetAddrV },
}

impl View for Fd {
    type V = FdV;

    open spec fn view(&self) -> FdV {
        match self {
            Fd::HttpListener(a, secure) => FdV::Http { addr: a@, secure: *secure },
            Fd::TcpListener(a) => FdV::Tcp { addr: a@ },
            Fd::UnixListener(p) => FdV::Unix { path: p@ },
            Fd::UdpSocket(a) => FdV::Udp { addr: a@ },
        }
    }
}

/// Is `c` an ASCII letter?
pub open spec fn is_ascii_letter(c: char) -> bool {
    (65 <= c as u32 <= 90) || (97 <= c as u32 <= 122)
}

/// The index just past the run of ASCII letters that starts at `i`.
pub open spec fn scan_letters(s: Seq<char>, i: int) -> int
    decreases s.len() - i when 0 <= i <= s.len()
{
    if i >= s.len() {
        i
    } else if is_ascii_letter(s[i]) {
        scan_letters(s, i + 1)
    } else {
        i
    }
}

/// Splits `TYPE::VALUE`: a nonempty leading run of ASCII letters, the two
/// colons, and a nonempty value with no newline. Anything else is unsplit and
/// resolves as an untyped specification.
pub open spec fn spec_split_type(s: Seq<char>) -> Option<(Seq<char>, Seq<char>)> {
    let j = scan_letters(s, 0);
    if j >= 1 && j + 2 < s.len() && s[j] == ':' && s[j + 1] == ':'
        && (forall|k: int| j + 2 <= k < s.len() ==> s[k] != '\n') {
        Some((s.subrange(0, j), s.subrange(j + 2, s.len() as int)))
    } else {
        None
    }
}

/// Resolution of a `tcp::` value: a bare port means loopback, otherwise the
/// value must be a full address.
pub open spec fn spec_tcp_from(v: Seq<char>) -> Result<FdV, SpecErrV> {
    match spec_parse_u16(v) {
        Some(p) => Ok(FdV::Tcp { addr: spec_loopback(p) }),
        None => match spec_parse_sockaddr(v) {
            Some(a) => Ok(FdV::Tcp { addr: a }),
            None => Err(SpecErrV::InvalidAddr),
        },
    }
}

/// Resolution of an `http::` or `https::` value, like `tcp::` but tagged.
pub open spec fn spec_http_from(v: Seq<char>, secure: bool) -> Result<FdV, SpecErrV> {
    match spec_parse_u16(v) {
        Some(p) => Ok(FdV::Http { addr: spec_loopback(p), secure }),
        None => match spec_parse_sockaddr(v) {
            Some(a) => Ok(FdV::Http { addr: a, secure }),
            None => Err(SpecErrV::InvalidAddr),
        },
    }
}

/// Resolution of a `udp::` value, like `tcp::` but a datagram socket.
pub open spec fn spec_udp_from(v: Seq<char>) -> Result<FdV, SpecErrV> {
    match spec_parse_u16(v) {
        Some(p) => Ok(FdV::Udp { addr: spec_loopback(p) }),
        None => match spec_parse_sockaddr(v) {
            Some(a) => Ok(FdV::Udp { addr: a }),
            None => Err(SpecErrV::InvalidAddr),
        },
    }
}

/// Resolution of an untyped specification: a bare port on loopback, a full
/// address, or, when the value holds a `/`, a unix socket path.
pub open spec fn spec_listener_from(s: Seq<char>) -> Result<FdV, SpecErrV> {
    match spec_parse_u16(s) {
        Some(p) => Ok(FdV::Tcp { addr: spec_loopback(p) }),
        None => match spec_parse_sockaddr(s) {
            Some(a) => Ok(FdV::Tcp { addr: a }),
            None => if exists|i: int| 0 <= i < s.len() && s[i] == '/' {
                Ok(FdV::Unix { path: s })
            } else {
                Err(SpecErrV::Unsupported)
            },
        },
    }
}

/// What the whole grammar makes of a specification string.
pub open spec fn spec_parse_fd(s: Seq<char>) -> Result<FdV, SpecErrV> {
    match spec_split_type(s) {
        Some((ty, v)) => if ty == "tcp"@ {
            spec_tcp_from(v)
        } else if ty == "http"@ {
            spec_http_from(v, false)
        } else if ty == "https"@ {
            spec_http_from(v, true)
        } else if ty == "unix"@ {
            Ok(FdV::Unix { path: v })
        } else if ty == "udp"@ {
            spec_udp_from(v)
        } else {
            Err(SpecErrV::UnknownType(ty))
        },
        None => spec_listener_from(s),
    }
}

/// Character-for-character string equality.
fn str_eq(a: &str, b: &str) -> (r: bool)
    ensures
        r == (a@ == b@),
{
    let na = a.unicode_len();
    let nb = b.unicode_len();
    if na != nb {
        return false;
    }
    let mut i: usize = 0;
    while i < na
        invariant
            i <= na,
            na == a@.len(),
            na == b@.len(),
            forall|k: int| 0 <= k < i ==> a@[k] == b@[k],
        decreases na - i,
    {
        if a.get_char(i) != b.get_char(i) {
            return false;
        }
        i = i + 1;
    }
    proof {
        assert(a@ =~= b@);
    }
    true
}

/// Does `s` hold a `/` anywhere?
fn contains_slash(s: &str) -> (r: bool)
    ensures
        r == exists|i: int| 0 <= i < s@.len() && s@[i] == '/',
{
    let n = s.unicode_len();
    let mut i: usize = 0;
    while i < n
        invariant
            i <= n,
            n == s@.len(),
            forall|k: int| 0 <= k < i ==> s@[k] != '/',
        decreases n - i,
    {
        if s.get_char(i) == '/' {
            return true;
        }
        i = i + 1;
    }
    false
}

/// Finds the end of the ASCII-letter run that starts at `i`.
fn scan_letters_exec(s: &str, i: usize) -> (r: usize)
    requires
        i <= s@.len(),
    ensures
        r == scan_letters(s@, i as int),
        i <= r <= s@.len(),
    decreases s@.len() - i,
{
    let n = s.unicode_len();
    if i >= n {
        return i;
    }
    let cv = s.get_char(i) as u32;
    if (65 <= cv && cv <= 90) || (97 <= cv && cv <= 122) {
        scan_letters_exec(s, i + 1)
    } else {
        i
    }
}

impl Fd {
    /// Creates a descriptor from an untyped specification: a bare port on
    /// loopback, a full `host:port` address, or a value with a `/` as a unix
    /// socket path.
    pub fn new_listener(s: &str) -> (r: Result<Fd, SpecError>)
        ensures
            match r {
                Ok(fd) => spec_listener_from(s@) == Ok::<FdV, SpecErrV>(fd@),
                Err(e) => spec_listener_from(s@) == Err::<FdV, SpecErrV>(e@),
            },
    {
        match parse_u16_str(s) {
            Some(p) => Ok(Fd::TcpListener(loopback(p))),
            None => match parse_sockaddr(s) {
                Some(a) => Ok(Fd::TcpListener(a)),
                None => if contains_slash(s) {
                    match Fd::new_unix_listener(s) {
                        Ok(fd) => Ok(fd),
                        Err(e) => Err(e),
                    }
                } else {
                    Err(SpecError::Unsupported)
                },
            },
        }
    }

    /// Creates a TCP listener descriptor: a bare port on loopback, or a full
    /// address.
    pub fn new_tcp_listener(s: &str) -> (r: Result<Fd, SpecError>)
        ensures
            match r {
                Ok(fd) => spec_tcp_from(s@) == Ok::<FdV, SpecErrV>(fd@),
                Err(e) => spec_tcp_from(s@) == Err::<FdV, SpecErrV>(e@),
            },
    {
        match parse_u16_str(s) {
            Some(p) => Ok(Fd::TcpListener(loopback(p))),
            None => match parse_sockaddr(s) {
                Some(a) => Ok(Fd::TcpListener(a)),
                None => Err(SpecError::InvalidAddr),
            },
        }
    }

    /// Creates an HTTP listener descriptor: bound like a TCP listener, and
    /// described with the scheme the `secure` flag picks.
    pub fn new_http_listener(s: &str, secure: bool) -> (r: Result<Fd, SpecError>)
        ensures
            match r {
                Ok(fd) => spec_http_from(s@, secure) == Ok::<FdV, SpecErrV>(fd@),
                Err(e) => spec_http_from(s@, secure) == Err::<FdV, SpecErrV>(e@),
            },
    {
        match parse_u16_str(s) {
            Some(p) => Ok(Fd::HttpListener(loopback(p), secure)),
            None => match parse_sockaddr(s) {
                Some(a) => Ok(Fd::HttpListener(a, secure)),
                None => Err(SpecError::InvalidAddr),
            },
        }
    }

    /// Creates a unix listener descriptor; the value is the path, verbatim,
    /// with no check that it exists.
    pub fn new_unix_listener(s: &str) -> (r: Result<Fd, SpecError>)
        ensures
            r matches Ok(fd) && fd@ == (FdV::Unix { path: s@ }),
    {
        Ok(Fd::UnixListener(String::from_str(s)))
    }

    /// Creates a UDP socket descriptor: a bare port on loopback, or a full
    /// address.
    pub fn new_udp_socket(s: &str) -> (r: Result<Fd, SpecError>)
        ensures
            match r {
                Ok(fd) => spec_udp_from(s@) == Ok::<FdV, SpecErrV>(fd@),
                Err(e) => spec_udp_from(s@) == Err::<FdV, SpecErrV>(e@),
            },
    {
        match parse_u16_str(s) {
            Some(p) => Ok(Fd::UdpSocket(loopback(p))),
            None => match parse_sockaddr(s) {
                Some(a) => Ok(Fd::UdpSocket(a)),
                None => Err(SpecError::InvalidAddr),
            },
        }
    }

    /// Parses a full specification string, `TYPE::VALUE` or an untyped value.
    pub fn from_str(s: &str) -> (r: Result<Fd, SpecError>)
        ensures
            match r {
                Ok(fd) => spec_parse_fd(s@) == Ok::<FdV, SpecErrV>(fd@),
                Err(e) => spec_parse_fd(s@) == Err::<FdV, SpecErrV>(e@),
            },
    {
        let n = s.unicode_len();
        let j = scan_letters_exec(s, 0);
        if j >= 1 && n > 2 && j < n - 2 && s.get_char(j) == ':' && s.get_char(j + 1) == ':'
            && !has_newline_from(s, j + 2) {
            let ty = s.substring_char(0, j);
            let v = s.substring_char(j + 2, n);
            proof {
                assert(spec_split_type(s@) == Some((ty@, v@)));
            }
            if str_eq(ty, "tcp") {
                Fd::new_tcp_listener(v)
            } else if str_eq(ty, "http") {
                Fd::new_http_listener(v, false)
            } else if str_eq(ty, "https") {
                Fd::new_http_listener(v, true)
            } else if str_eq(ty, "unix") {
                Fd::new_unix_listener(v)
            } else if str_eq(ty, "udp") {
                Fd::new_udp_socket(v)
            } else {
                Err(SpecError::UnknownType(String::from_str(ty)))
            }
        } else {
            proof {
                assert(spec_split_type(s@) is None);
            }
            Fd::new_listener(s)
        }
    }
}

/// The address family a descriptor's socket is created with.
#[derive(Clone, Copy, Debug, PartialEq, Eq)]
pub enum SockFamily {
    Inet,
    Inet6,
    Unix,
}

/// The socket type a descriptor's socket is created with.
#[derive(Clone, Copy, Debug, PartialEq, Eq)]
pub enum SockKind {
    Stream,
    Datagram,
}

/// The steps socket creation takes for a descriptor, beyond opening the
/// socket itself: which reuse options to set, whether to remove a stale
/// socket file first, and whether to listen after binding.
#[derive(Clone, Copy, Debug, PartialEq, Eq)]
pub struct CreatePlan {
    pub set_reuse_addr: bool,
    pub set_reuse_port: bool,
    pub unlink_stale: bool,
    pub listen: bool,
}

/// Every descriptor's socket listens after binding, except a UDP socket,
/// which is bound and never enters the listening state.
pub open spec fn spec_should_listen(fd: FdV) -> bool {
    !(fd is Udp)
}

/// The address family a descriptor implies: `Unix` for a unix listener, and
/// for internet sockets whichever family the address is written in.
pub open spec fn spec_family(fd: FdV) -> SockFamily {
    match fd {
        FdV::Unix { .. } => SockFamily::Unix,
        FdV::Tcp { addr } => spec_addr_family(addr),
        FdV::Http { addr, .. } => spec_addr_family(addr),
        FdV::Udp { addr } => spec_addr_family(addr),
    }
}

/// The family of an internet address.
pub open spec fn spec_addr_family(a: NetAddrV) -> SockFamily {
    match a.host {
        HostV::V4 { .. } => SockFamily::Inet,
        HostV::V6 { .. } => SockFamily::Inet6,
    }
}

/// The socket type a descriptor implies: a datagram socket for UDP, a stream
/// socket for everything else.
pub open spec fn spec_kind(fd: FdV) -> SockKind {
    if fd is Udp {
        SockKind::Datagram
    } else {
        SockKind::Stream
    }
}

/// What creation does for a descriptor when `reuse` is asked for: address
/// reuse is set exactly when asked; port reuse additionally requires an
/// internet family, since a unix-domain socket rejects it; a stale socket
/// file is removed only for a unix listener; and listening follows
/// `spec_should_listen`.
pub open spec fn spec_plan(fd: FdV, reuse: bool) -> CreatePlan {
    CreatePlan {
        set_reuse_addr: reuse,
        set_reuse_port: reuse && spec_family(fd) != SockFamily::Unix,
        unlink_stale: fd is Unix,
        listen: spec_should_listen(fd),
    }
}

/// How a created socket is described to the user, given the text of the
/// local address it is bound to.
pub open spec fn spec_describe(fd: FdV, addr: Seq<char>) -> Seq<char> {
    match fd {
        FdV::Tcp { .. } => addr + " (tcp listener)"@,
        FdV::Http { secure, .. } => if secure {
            "https://"@ + addr + "/"@
        } else {
            "http://"@ + addr + "/"@
        },
        FdV::Unix { .. } => addr + " (unix listener)"@,
        FdV::Udp { .. } => addr + " (udp)"@,
    }
}

impl Fd {
    /// Whether this descriptor's socket is put into the listening state after
    /// it is bound. True for every variant but `UdpSocket`.
    pub fn should_listen(&self) -> (r: bool)
        ensures
            r == spec_should_listen(self@),
    {
        match self {
            Fd::TcpListener(..) => true,
            Fd::UnixListener(..) => true,
            Fd::HttpListener(..) => true,
            Fd::UdpSocket(..) => false,
        }
    }

    /// The address family and socket type this descriptor's socket is created
    /// with.
    pub fn sock_info(&self) -> (r: (SockFamily, SockKind))
        ensures
            r.0 == spec_family(self@),
            r.1 == spec_kind(self@),
    {
        match self {
            Fd::TcpListener(a) => (addr_family(a), SockKind::Stream),
            Fd::HttpListener(a, _) => (addr_family(a), SockKind::Stream),
            Fd::UdpSocket(a) => (addr_family(a), SockKind::Datagram),
            Fd::UnixListener(..) => (SockFamily::Unix, SockKind::Stream),
        }
    }

    /// The creation steps for this descriptor under the given reuse flag.
    pub fn creation_plan(&self, reuse: bool) -> (r: CreatePlan)
        ensures
            r == spec_plan(self@, reuse),
    {
        let fam = self.sock_info().0;
        let inet = match fam {
            SockFamily::Inet => true,
            SockFamily::Inet6 => true,
            SockFamily::Unix => false,
        };
        let unix_path = match self {
            Fd::UnixListener(..) => true,
            _ => false,
        };
        CreatePlan {
            set_reuse_addr: reuse,
            set_reuse_port: reuse && inet,
            unlink_stale: unix_path,
            listen: self.should_listen(),
        }
    }

    /// Creates, configures, binds and (when the variant asks for it) listens
    /// the socket this descriptor calls for, returning the raw handle. On any
    /// failure after creation the handle is closed before the error is
    /// returned, so no handle leaks on an error path.
    pub fn create_raw_fd(&self, backlog: i32, reuse: bool) -> (r: Result<i32, OsErr>)
        requires
            backlog >= 1,
        ensures
            r matches Ok(fd) ==> fd >= 0,
    {
        create_raw_fd(self, backlog, reuse)
    }

    /// Describes the socket behind `raw_fd` as this descriptor's kind: the
    /// text of the address the kernel reports, in the shape `spec_describe`
    /// gives.
    pub fn describe_raw_fd(&self, raw_fd: i32) -> (r: Result<String, OsErr>)
        ensures
            r matches Ok(t) ==> exists|a: Seq<char>| t@ == spec_describe(self@, a),
    {
        match describe_addr(raw_fd) {
            Ok(addr) => {
                let d = self.describe_with_addr(addr.as_str());
                proof {
                    assert(d@ == spec_describe(self@, addr@));
                }
                Ok(d)
            },
            Err(e) => Err(e),
        }
    }

    /// Describes this descriptor given the text of its resolved local
    /// address: `<addr> (tcp listener)`, `<scheme>://<addr>/`,
    /// `<addr> (unix listener)`, or `<addr> (udp)`.
    pub fn describe_with_addr(&self, addr: &str) -> (r: String)
        ensures
            r@ == spec_describe(self@, addr@),
    {
        match self {
            Fd::TcpListener(..) => {
                let mut r = String::from_str(addr);
                r.append(" (tcp listener)");
                r
            },
            Fd::HttpListener(_, secure) => {
                let mut r = if *secure {
                    String::from_str("https://")
                } else {
                    String::from_str("http://")
                };
                r.append(addr);
                r.append("/");
                r
            },
            Fd::UnixListener(..) => {
                let mut r = String::from_str(addr);
                r.append(" (unix listener)");
                r
            },
            Fd::UdpSocket(..) => {
                let mut r = String::from_str(addr);
                r.append(" (udp)");
                r
            },
        }
    }
}

/// The family of an internet address, read from its host.
fn addr_family(a: &NetAddr) -> (r: SockFamily)
    ensures
        r == spec_addr_family(a@),
{
    match a.host {
        HostIp::V4 { .. } => SockFamily::Inet,
        HostIp::V6 { .. } => SockFamily::Inet6,
    }
}

/// Packs an internet address into native sockaddr storage.
fn make_sockaddr_inet(a: &NetAddr) -> nix::sys::socket::SockaddrStorage {
    match a.host {
        HostIp::V4 { a: o1, b: o2, c: o3, d: o4 } => {
            osapi::make_inet_sockaddr_v4(o1, o2, o3, o4, a.port)
        },
        HostIp::V6 { segs, scope } => {
            osapi::make_inet_sockaddr_v6(
                segs[0], segs[1], segs[2], segs[3], segs[4], segs[5], segs[6], segs[7],
                a.port, scope,
            )
        },
    }
}

/// Runs the configuration steps of `plan` on a freshly opened internet
/// socket: reuse options, bind, and the listen call when the plan asks for
/// one.
fn setup_inet(
    sock: i32,
    sa: &nix::sys::socket::SockaddrStorage,
    plan: &CreatePlan,
    backlog: i32,
) -> (r: Result<(), OsErr>)
    requires
        backlog >= 1,
{
    if plan.set_reuse_addr {
        if let Err(e) = osapi::set_reuse_addr(sock) {
            return Err(e);
        }
    }
    if plan.set_reuse_port {
        if let Err(e) = osapi::set_reuse_port(sock) {
            return Err(e);
        }
    }
    if let Err(e) = osapi::bind_inet(sock, sa) {
        return Err(e);
    }
    if plan.listen {
        if let Err(e) = osapi::listen_fd(sock, backlog as usize) {
            return Err(e);
        }
    }
    Ok(())
}

/// Creates the socket a descriptor calls for: opens a socket of the family
/// and type `sock_info` gives, applies the steps of `creation_plan`, and
/// returns the raw handle. On any failure after the socket was opened, the
/// handle is closed before the error propagates.
pub fn create_raw_fd(fd: &Fd, backlog: i32, reuse: bool) -> (r: Result<i32, OsErr>)
    requires
        backlog >= 1,
    ensures
        r matches Ok(h) ==> h >= 0,
{
    let plan = fd.creation_plan(reuse);
    match fd {
        Fd::UnixListener(path) => {
            if plan.unlink_stale {
                osapi::unlink_path(path.as_str());
            }
            let sa = match osapi::make_unix_sockaddr(path.as_str()) {
                Ok(sa) => sa,
                Err(e) => { return Err(e); },
            };
            let sock = match osapi::open_stream_unix() {
                Ok(s) => s,
                Err(e) => { return Err(e); },
            };
            if plan.set_reuse_addr {
                if let Err(e) = osapi::set_reuse_addr(sock) {
                    osapi::close_fd(sock);
                    return Err(e);
                }
            }
            if let Err(e) = osapi::bind_unix(sock, &sa) {
                osapi::close_fd(sock);
                return Err(e);
            }
            if let Err(e) = osapi::listen_fd(sock, backlog as usize) {
                osapi::close_fd(sock);
                return Err(e);
            }
            Ok(sock)
        },
        Fd::TcpListener(a) | Fd::HttpListener(a, _) => {
            let sa = make_sockaddr_inet(a);
            let sock = match osapi::open_stream_inet(&sa) {
                Ok(s) => s,
                Err(e) => { return Err(e); },
            };
            match setup_inet(sock, &sa, &plan, backlog) {
                Ok(()) => Ok(sock),
                Err(e) => {
                    osapi::close_fd(sock);
                    Err(e)
                },
            }
        },
        Fd::UdpSocket(a) => {
            let sa = make_sockaddr_inet(a);
            let sock = match osapi::open_dgram_inet(&sa) {
                Ok(s) => s,
                Err(e) => { return Err(e); },
            };
            match setup_inet(sock, &sa, &plan, backlog) {
                Ok(()) => Ok(sock),
                Err(e) => {
                    osapi::close_fd(sock);
                    Err(e)
                },
            }
        },
    }
}

/// The text of the local address the socket behind `raw_fd` is bound to, as
/// the kernel reports it. What comes back depends on kernel state, so nothing
/// more is promised of it.
pub fn describe_addr(raw_fd: i32) -> Result<String, OsErr> {
    osapi::sockname_text(raw_fd)
}

/// Parses every specification string, in order, before any socket is
/// created: all of them parse, or the first failure is reported with its
/// position and nothing else is looked at.
pub fn parse_specs(specs: &Vec<String>) -> (r: Result<Vec<Fd>, (usize, SpecError)>)
    ensures
        r matches Ok(fds) ==> fds@.len() == specs@.len() && forall|i: int|
            0 <= i < specs@.len() ==> spec_parse_fd(#[trigger] specs@[i]@) == Ok::<
                FdV,
                SpecErrV,
            >(fds@[i]@),
        r matches Err(t) ==> t.0 < specs@.len()
            && spec_parse_fd(specs@[t.0 as int]@) == Err::<FdV, SpecErrV>(t.1@)
            && (forall|j: int| 0 <= j < t.0 as int
                ==> (#[trigger] spec_parse_fd(specs@[j]@)) is Ok),
{
    let mut fds: Vec<Fd> = Vec::new();
    let mut i: usize = 0;
    while i < specs.len()
        invariant
            i <= specs@.len(),
            fds@.len() == i,
            forall|k: int| 0 <= k < i ==> spec_parse_fd(#[trigger] specs@[k]@) == Ok::<
                FdV,
                SpecErrV,
            >(fds@[k]@),
        decreases specs@.len() - i,
    {
        match Fd::from_str(specs[i].as_str()) {
            Ok(fd) => {
                fds.push(fd);
            },
            Err(e) => {
                return Err((i, e));
            },
        }
        i = i + 1;
    }
    Ok(fds)
}

/// Creates one socket per descriptor, in the order given. All succeed, or
/// the first failure aborts the whole batch: the handles created before it
/// are closed, since a partial socket set is of no use to the child, and the
/// error propagates. On success the pairs keep the descriptors verbatim, in
/// order, each beside its nonnegative handle.
pub fn create_all(fds: Vec<Fd>, backlog: i32, reuse: bool) -> (r: Result<Vec<(Fd, i32)>, OsErr>)
    requires
        backlog >= 1,
    ensures
        r matches Ok(pairs) ==> pairs@.len() == fds@.len() && forall|i: int|
            0 <= i < fds@.len() ==> (#[trigger] pairs@[i]).0 == fds@[i] && pairs@[i].1 >= 0,
{
    let ghost all = fds@;
    let mut rest = fds;
    let mut pairs: Vec<(Fd, i32)> = Vec::new();
    while rest.len() > 0
        invariant
            backlog >= 1,
            pairs@.len() + rest@.len() == all.len(),
            forall|k: int| 0 <= k < pairs@.len() ==> (#[trigger] pairs@[k]).0 == all[k]
                && pairs@[k].1 >= 0,
            forall|k: int| 0 <= k < rest@.len() ==> #[trigger] rest@[k] == all[
                pairs@.len() + k
            ],
        decreases rest@.len(),
    {
        let fd = rest.remove(0);
        match create_raw_fd(&fd, backlog, reuse) {
            Ok(h) => {
                pairs.push((fd, h));
            },
            Err(e) => {
                let mut j: usize = 0;
                while j < pairs.len()
                    decreases pairs@.len() - j,
                {
                    osapi::close_fd(pairs[j].1);
                    j = j + 1;
                }
                return Err(e);
            },
        }
    }
    Ok(pairs)
}

/// Does `s` hold a newline at or after `from`?
fn has_newline_from(s: &str, from: usize) -> (r: bool)
    requires
        from <= s@.len(),
    ensures
        r == exists|k: int| from <= k < s@.len() && s@[k] == '\n',
{
    let n = s.unicode_len();
    let mut i: usize = from;
    while i < n
        invariant
            from <= i <= n,
            n == s@.len(),
            forall|k: int| from <= k < i ==> s@[k] != '\n',
        decreases n - i,
    {
        if s.get_char(i) == '\n' {
            return true;
        }
        i = i + 1;
    }
    false
}

} // verus!
