//! Destination keys: where a request connects to, and how a URI names it.
//!
//! A key holds a resolved socket address or the path of a Unix socket, and
//! nothing that lives only as long as a connection. Two keys are equal when
//! they hold the same address or the same path.

use crate::addr::SocketAddress;
use crate::error::FromUriError;
use crate::outside::parse_uri;
use crate::outside::parsed_uri;
use vstd::prelude::*;
use vstd::string::StringSliceAdditionalSpecFns;
use vstd::utf8::encode_utf8_decode_utf8;

verus! {

/// The identity of a destination; the pool finds idle connections by it.
#[derive(Debug, Eq, Hash)]
pub enum UnifiedL4Addr {
    /// A TCP destination: its resolved address.
    Tcp(SocketAddress),
    /// A Unix socket: its path.
    Unix(String),
}

/// What a key holds.
pub enum AddrView {
    /// A resolved address.
    Tcp(SocketAddress),
    /// The path of a Unix socket.
    Unix(Seq<char>),
}

impl View for UnifiedL4Addr {
    type V = AddrView;

    open spec fn view(&self) -> AddrView {
        match self {
            UnifiedL4Addr::Tcp(addr) => AddrView::Tcp(*addr),
            UnifiedL4Addr::Unix(path) => AddrView::Unix(path@),
        }
    }
}

impl Clone for UnifiedL4Addr {
    fn clone(&self) -> (copy: Self)
        ensures
            copy@ == self@,
    {
        match self {
            UnifiedL4Addr::Tcp(addr) => UnifiedL4Addr::Tcp(*addr),
            UnifiedL4Addr::Unix(path) => UnifiedL4Addr::Unix(path.clone()),
        }
    }
}

impl PartialEq for UnifiedL4Addr {
    fn eq(&self, other: &Self) -> (equal: bool) {
        match (self, other) {
            (UnifiedL4Addr::Tcp(a), UnifiedL4Addr::Tcp(b)) => *a == *b,
            (UnifiedL4Addr::Unix(a), UnifiedL4Addr::Unix(b)) => *a == *b,
            _ => false,
        }
    }
}

impl vstd::std_specs::cmp::PartialEqSpecImpl for UnifiedL4Addr {
    open spec fn obeys_eq_spec() -> bool {
        true
    }

    open spec fn eq_spec(&self, other: &Self) -> bool {
        self@ == other@
    }
}

/// Whether two strings hold the same text.
pub fn same_text(a: &str, b: &str) -> (same: bool)
    ensures
        same == (a@ == b@),
{
    let x = a.as_bytes();
    let y = b.as_bytes();
    proof {
        encode_utf8_decode_utf8(a@);
        encode_utf8_decode_utf8(b@);
    }
    if x.len() != y.len() {
        return false;
    }
    let mut i: usize = 0;
    while i < x.len()
        invariant
            i <= x.len() == y.len(),
            x@ == a.spec_bytes(),
            y@ == b.spec_bytes(),
            x@.subrange(0, i as int) == y@.subrange(0, i as int),
        decreases x.len() - i,
    {
        if x[i] != y[i] {
            assert(x@[i as int] != y@[i as int]);
            return false;
        }
        assert(x@.subrange(0, i + 1) == x@.subrange(0, i as int).push(x@[i as int]));
        assert(y@.subrange(0, i + 1) == y@.subrange(0, i as int).push(y@[i as int]));
        i += 1;
    }
    assert(x@.subrange(0, x.len() as int) == x@);
    assert(y@.subrange(0, y.len() as int) == y@);
    true
}

/// What the client reads of a URI: its scheme, host and port, each where the
/// URI has one.
#[derive(Debug)]
pub struct UriParts {
    pub scheme: Option<String>,
    pub host: Option<String>,
    pub port: Option<u16>,
}

/// The text of the parts of a URI.
pub struct UriPartsView {
    pub scheme: Option<Seq<char>>,
    pub host: Option<Seq<char>>,
    pub port: Option<u16>,
}

/// The text that an optional string holds.
pub open spec fn text_of(s: Option<String>) -> Option<Seq<char>> {
    match s {
        Some(s) => Some(s@),
        None => None,
    }
}

impl View for UriParts {
    type V = UriPartsView;

    open spec fn view(&self) -> UriPartsView {
        UriPartsView { scheme: text_of(self.scheme), host: text_of(self.host), port: self.port }
    }
}

/// A host by name and a port: a destination before its address is resolved.
#[derive(Debug)]
pub struct Target {
    pub host: String,
    pub port: u16,
}

/// The text of a target.
pub struct TargetView {
    pub host: Seq<char>,
    pub port: u16,
}

impl View for Target {
    type V = TargetView;

    open spec fn view(&self) -> TargetView {
        TargetView { host: self.host@, port: self.port }
    }
}

/// The port that a scheme implies: 80 for `http`, 443 for `https`, and 0 for
/// every other scheme and for none.
pub open spec fn scheme_port(scheme: Option<Seq<char>>) -> u16 {
    if scheme == Some("http"@) {
        80
    } else if scheme == Some("https"@) {
        443
    } else {
        0
    }
}

/// The destination that the parts of a URI name: its host, and its port or
/// else the port of its scheme. A URI without a host names none.
pub open spec fn target_of_parts(parts: UriPartsView) -> Result<TargetView, FromUriError> {
    match parts.host {
        None => Err(FromUriError::NoAuthority),
        Some(host) => Ok(
            TargetView {
                host,
                port: match parts.port {
                    Some(port) => port,
                    None => scheme_port(parts.scheme),
                },
            },
        ),
    }
}

/// The parts that an optional result holds.
pub open spec fn parts_of(parts: Option<UriParts>) -> Option<UriPartsView> {
    match parts {
        Some(parts) => Some(parts@),
        None => None,
    }
}

/// The port that `scheme` implies: 80 for `http`, 443 for `https`, else 0.
pub fn default_port(scheme: &Option<String>) -> (port: u16)
    ensures
        port == scheme_port(text_of(*scheme)),
{
    match scheme {
        Some(name) => {
            if same_text(name.as_str(), "http") {
                80
            } else if same_text(name.as_str(), "https") {
                443
            } else {
                0
            }
        },
        None => 0,
    }
}

/// The view of a result that holds a target.
pub open spec fn target_view(r: Result<Target, FromUriError>) -> Result<TargetView, FromUriError> {
    match r {
        Ok(target) => Ok(target@),
        Err(e) => Err(e),
    }
}

impl Target {
    /// The destination that the parts of a URI name.
    ///
    /// Fails with `NoAuthority` exactly when the URI has no host. The port is
    /// the one the URI gives, else the one its scheme implies.
    pub fn from_parts(parts: &UriParts) -> (target: Result<Target, FromUriError>)
        ensures
            target_view(target) == target_of_parts(parts@),
    {
        match &parts.host {
            None => Err(FromUriError::NoAuthority),
            Some(host) => {
                let port = match parts.port {
                    Some(port) => port,
                    None => default_port(&parts.scheme),
                };
                Ok(Target { host: host.clone(), port })
            },
        }
    }

    /// The destination that the URI in `text` names.
    ///
    /// Fails with `InvalidUri` where the text is no URI, and with
    /// `NoAuthority` where the URI has no host.
    pub fn from_uri(text: &str) -> (target: Result<Target, FromUriError>)
        ensures
            target_view(target) == match parsed_uri(text@) {
                Some(parts) => target_of_parts(parts),
                None => Err(FromUriError::InvalidUri),
            },
    {
        match parse_uri(text) {
            Some(parts) => Target::from_parts(&parts),
            None => Err(FromUriError::InvalidUri),
        }
    }
}

/// The view of a result that holds a key.
pub open spec fn key_view(r: Result<UnifiedL4Addr, FromUriError>) -> Result<
    AddrView,
    FromUriError,
> {
    match r {
        Ok(key) => Ok(key@),
        Err(e) => Err(e),
    }
}

impl UnifiedL4Addr {
    /// The key of a TCP destination, from the addresses that resolving its
    /// host and port gave: the first address, whatever follows it.
    ///
    /// Fails with `NoResolve` exactly when there is no address.
    pub fn from_resolved(addrs: &[SocketAddress]) -> (key: Result<UnifiedL4Addr, FromUriError>)
        ensures
            key_view(key) == if addrs@.len() > 0 {
                Ok::<AddrView, FromUriError>(AddrView::Tcp(addrs@[0]))
            } else {
                Err(FromUriError::NoResolve)
            },
    {
        if addrs.len() > 0 {
            Ok(UnifiedL4Addr::Tcp(addrs[0]))
        } else {
            Err(FromUriError::NoResolve)
        }
    }

    /// Whether the key names a TCP destination.
    pub fn is_tcp(&self) -> (tcp: bool)
        ensures
            tcp == (self@ is Tcp),
    {
        match self {
            UnifiedL4Addr::Tcp(_) => true,
            UnifiedL4Addr::Unix(_) => false,
        }
    }
}

} // verus!
