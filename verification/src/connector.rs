//! Connectors: how a connection to a destination is opened.
//!
//! A connector decides and the caller acts. `connect` gives the first action
//! and the state that awaits its outcome; `Dial::step` takes each outcome and
//! gives the next action, until the connection is ready or has failed. A TCP
//! connector goes through an HTTP forward proxy where the environment names
//! one, and then negotiates a tunnel to the destination before it hands the
//! connection over.

use crate::addr::SocketAddress;
use crate::error::ConnectError;
use crate::error::TunnelError;
use crate::key::text_of;
use crate::key::AddrView;
use crate::key::Target;
use crate::key::TargetView;
use crate::key::UnifiedL4Addr;
use crate::key::UriParts;
use crate::key::UriPartsView;
use crate::outside::parse_uri;
use crate::outside::parsed_uri;
use crate::pool::Reach;
use crate::tunnel::connect_request_bytes;
use crate::tunnel::tunnel;
use crate::tunnel::verdict;
use crate::tunnel::Tunnel;
use crate::tunnel::TunnelStep;
use crate::tunnel::Verdict;
use crate::tunnel::DEFAULT_RESPONSE_LIMIT;
use vstd::prelude::*;

verus! {

/// The port of a proxy whose URL names none.
pub const DEFAULT_PROXY_PORT: u16 = 7890;

/// The values of the environment variables that may name a proxy:
/// `http_proxy` and `HTTP_PROXY`, each where it is set.
#[derive(Debug)]
pub struct ProxyEnv {
    /// The value of `http_proxy`.
    pub lower: Option<String>,
    /// The value of `HTTP_PROXY`.
    pub upper: Option<String>,
}

/// The URL of the proxy that the two variables name: the first of them that
/// is set and not empty.
pub open spec fn proxy_url(lower: Option<Seq<char>>, upper: Option<Seq<char>>) -> Option<
    Seq<char>,
> {
    if lower is Some && lower->0.len() > 0 {
        lower
    } else if upper is Some && upper->0.len() > 0 {
        upper
    } else {
        None
    }
}

/// The proxy that connections go through, as the environment settles it.
#[derive(Debug)]
pub enum Proxy {
    /// No proxy: connections go to their destination.
    Direct,
    /// Connections go to this host and port and are tunnelled from there.
    Via(Target),
    /// A proxy is named, but not by a URI with a host.
    Invalid,
}

/// What a proxy setting holds.
pub enum ProxyView {
    /// No proxy.
    Direct,
    /// The proxy's host and port.
    Via(TargetView),
    /// A proxy URL that names no proxy.
    Invalid,
}

impl View for Proxy {
    type V = ProxyView;

    open spec fn view(&self) -> ProxyView {
        match self {
            Proxy::Direct => ProxyView::Direct,
            Proxy::Via(target) => ProxyView::Via(target@),
            Proxy::Invalid => ProxyView::Invalid,
        }
    }
}

/// The proxy that the parts of its URL name: the host, and the port or else
/// `DEFAULT_PROXY_PORT`. The setting is invalid where the URL is no URI or
/// has no host.
pub open spec fn proxy_of_parts(parsed: Option<UriPartsView>) -> ProxyView {
    match parsed {
        Some(parts) => match parts.host {
            Some(host) => ProxyView::Via(
                TargetView {
                    host,
                    port: match parts.port {
                        Some(port) => port,
                        None => DEFAULT_PROXY_PORT,
                    },
                },
            ),
            None => ProxyView::Invalid,
        },
        None => ProxyView::Invalid,
    }
}

/// The proxy that a proxy URL names, `url` being that URL where the
/// environment has one.
pub open spec fn proxy_of_url(url: Option<Seq<char>>) -> ProxyView {
    match url {
        Some(url) => proxy_of_parts(parsed_uri(url)),
        None => ProxyView::Direct,
    }
}

/// The proxy that the parts of its URL name; `parts` is nothing where the
/// URL is no URI.
pub fn proxy_target(parts: &Option<UriParts>) -> (proxy: Proxy)
    ensures
        proxy@ == proxy_of_parts(crate::key::parts_of(*parts)),
{
    match parts {
        Some(parts) => match &parts.host {
            Some(host) => {
                let port = match parts.port {
                    Some(port) => port,
                    None => DEFAULT_PROXY_PORT,
                };
                Proxy::Via(Target { host: host.clone(), port })
            },
            None => Proxy::Invalid,
        },
        None => Proxy::Invalid,
    }
}

impl ProxyEnv {
    /// An environment that names no proxy.
    pub fn none() -> (env: ProxyEnv)
        ensures
            env.lower.is_none(),
            env.upper.is_none(),
    {
        ProxyEnv { lower: None, upper: None }
    }

    /// The URL of the proxy that the environment names, if it names one.
    pub open spec fn url(&self) -> Option<Seq<char>> {
        proxy_url(text_of(self.lower), text_of(self.upper))
    }

    /// The URL of the proxy that the environment names, if it names one: the
    /// value of `http_proxy`, else that of `HTTP_PROXY`. A variable that is
    /// set to the empty string counts as not set.
    pub fn proxy(&self) -> (url: Option<&String>)
        ensures
            match url {
                Some(url) => self.url() == Some(url@),
                None => self.url().is_none(),
            },
    {
        if let Some(url) = &self.lower {
            if !url.as_str().is_empty() {
                return Some(url);
            }
        }
        if let Some(url) = &self.upper {
            if !url.as_str().is_empty() {
                return Some(url);
            }
        }
        None
    }

    /// The proxy that the environment settles on: none where no variable
    /// names one, else the one that the URL names, which is invalid where the
    /// URL is no URI with a host.
    pub fn resolve(&self) -> (proxy: Proxy)
        ensures
            proxy@ == proxy_of_url(self.url()),
    {
        match self.proxy() {
            Some(url) => {
                let parts = parse_uri(url.as_str());
                proxy_target(&parts)
            },
            None => Proxy::Direct,
        }
    }
}

/// A connector for TCP connections.
#[derive(Clone, Copy, Debug, PartialEq, Eq, Structural)]
pub struct TcpConnector {
    /// Whether a direct connection gets TCP_NODELAY once it is open.
    pub no_delay: bool,
    /// The size limit, in bytes, of a proxy's response to CONNECT.
    pub tunnel_limit: usize,
}

/// A connector for connections to Unix sockets.
#[derive(Clone, Copy, Debug, PartialEq, Eq, Structural)]
pub struct UnixConnector {}

/// A connector for both kinds of destination.
#[derive(Clone, Copy, Debug, PartialEq, Eq, Structural)]
pub struct UnifiedL4Connector {
    tcp: TcpConnector,
    unix: UnixConnector,
}

/// What the caller is to do for a connector.
#[derive(Debug)]
pub enum DialAction {
    /// Open a TCP connection to this address.
    ConnectAddr(SocketAddress),
    /// Open a TCP connection to this host and port: the proxy.
    ConnectHost(Target),
    /// Open a connection to the Unix socket at this path.
    ConnectPath(String),
    /// Write all of these bytes to the connection.
    Write(Vec<u8>),
    /// Read from the connection once, at most `max` bytes.
    Read { max: usize },
    /// The connection is ready. With `no_delay`, set TCP_NODELAY on it
    /// first; should that fail, the connection is ready all the same.
    Done { no_delay: bool },
    /// No connection came about; drop what was opened.
    Fail(ConnectError),
}

/// What the caller reports to a connector.
#[derive(Debug)]
pub enum DialEvent {
    /// The connection is open.
    Connected,
    /// The bytes are written.
    Written,
    /// A read gave these bytes; none at the end of the stream.
    Received(Vec<u8>),
    /// The operating system refused the last action.
    Failed(std::io::Error),
}

/// The state of a connector between two events.
#[derive(Debug)]
pub enum Dial {
    /// The connection is being opened. With `tunnel_to` it leads to a proxy
    /// and a tunnel to that address is to follow.
    Connecting { tunnel_to: Option<SocketAddress>, no_delay: bool, limit: usize },
    /// The CONNECT request is being written.
    Writing { tunnel: Tunnel },
    /// The proxy's response is being read.
    Reading { tunnel: Tunnel },
    /// Nothing is awaited any more.
    Finished,
}

/// Whether a connector in `state` that is told `event` goes on in `next`
/// and asks for `action`.
///
/// Once the connection is open, a direct one is ready, and one that leads to
/// a proxy gets the CONNECT request written and then the response read, each
/// read judged by `verdict`. A tunnelled connection always gets TCP_NODELAY.
/// A failure of the operating system ends the attempt with that failure, and
/// an event that the state does not await ends it with `OutOfOrder`.
pub open spec fn dial_moves(state: Dial, event: DialEvent, next: Dial, action: DialAction) -> bool {
    match (state, event) {
        (Dial::Connecting { tunnel_to: None, no_delay, .. }, DialEvent::Connected) => {
            &&& next is Finished
            &&& action == DialAction::Done { no_delay }
        },
        (Dial::Connecting { tunnel_to: Some(addr), limit, .. }, DialEvent::Connected) => {
            &&& next matches Dial::Writing { tunnel }
            &&& tunnel.limit() == limit
            &&& tunnel.received() == Seq::<u8>::empty()
            &&& action matches DialAction::Write(bytes)
            &&& bytes@ == connect_request_bytes(addr.rendered())
        },
        (Dial::Writing { tunnel }, DialEvent::Written) => {
            if tunnel.received().len() < tunnel.limit() {
                &&& next matches Dial::Reading { tunnel: same }
                &&& same.limit() == tunnel.limit()
                &&& same.received() == tunnel.received()
                &&& action == DialAction::Read {
                    max: (tunnel.limit() - tunnel.received().len()) as usize,
                }
            } else {
                &&& next is Finished
                &&& action == DialAction::Fail(ConnectError::Tunnel(TunnelError::InvalidData))
            }
        },
        (Dial::Reading { tunnel }, DialEvent::Received(chunk)) => {
            match verdict(tunnel.limit(), tunnel.received(), chunk@) {
                Verdict::Incomplete => {
                    &&& next matches Dial::Reading { tunnel: grown }
                    &&& grown.limit() == tunnel.limit()
                    &&& grown.received() == tunnel.received() + chunk@
                    &&& action == DialAction::Read {
                        max: (tunnel.limit() - grown.received().len()) as usize,
                    }
                },
                Verdict::Established => {
                    &&& next is Finished
                    &&& action == DialAction::Done { no_delay: true }
                },
                Verdict::Failed(e) => {
                    &&& next is Finished
                    &&& action == DialAction::Fail(ConnectError::Tunnel(e))
                },
            }
        },
        (Dial::Connecting { .. }, DialEvent::Failed(e)) => {
            &&& next is Finished
            &&& action == DialAction::Fail(ConnectError::Os(e))
        },
        (Dial::Writing { .. }, DialEvent::Failed(e)) => {
            &&& next is Finished
            &&& action == DialAction::Fail(ConnectError::Os(e))
        },
        (Dial::Reading { .. }, DialEvent::Failed(e)) => {
            &&& next is Finished
            &&& action == DialAction::Fail(ConnectError::Os(e))
        },
        _ => {
            &&& next is Finished
            &&& action == DialAction::Fail(ConnectError::OutOfOrder)
        },
    }
}

impl Dial {
    /// Takes the outcome of the last action and gives the next one.
    pub fn step(self, event: DialEvent) -> (moved: (Dial, DialAction))
        ensures
            dial_moves(self, event, moved.0, moved.1),
    {
        match (self, event) {
            (Dial::Connecting { tunnel_to: None, no_delay, .. }, DialEvent::Connected) => {
                (Dial::Finished, DialAction::Done { no_delay })
            },
            (Dial::Connecting { tunnel_to: Some(addr), limit, .. }, DialEvent::Connected) => {
                let authority = addr.render();
                let request = Tunnel::request(authority.as_slice());
                (Dial::Writing { tunnel: Tunnel::new(limit) }, DialAction::Write(request))
            },
            (Dial::Writing { tunnel }, DialEvent::Written) => {
                let max = tunnel.room();
                if max > 0 {
                    (Dial::Reading { tunnel }, DialAction::Read { max })
                } else {
                    (
                        Dial::Finished,
                        DialAction::Fail(ConnectError::Tunnel(TunnelError::InvalidData)),
                    )
                }
            },
            (Dial::Reading { tunnel: state }, DialEvent::Received(chunk)) => {
                match tunnel(state, chunk.as_slice()) {
                    TunnelStep::Read { state, max } => (
                        Dial::Reading { tunnel: state },
                        DialAction::Read { max },
                    ),
                    TunnelStep::Established => (
                        Dial::Finished,
                        DialAction::Done { no_delay: true },
                    ),
                    TunnelStep::Failed(e) => (
                        Dial::Finished,
                        DialAction::Fail(ConnectError::Tunnel(e)),
                    ),
                }
            },
            (Dial::Connecting { .. }, DialEvent::Failed(e)) => (
                Dial::Finished,
                DialAction::Fail(ConnectError::Os(e)),
            ),
            (Dial::Writing { .. }, DialEvent::Failed(e)) => (
                Dial::Finished,
                DialAction::Fail(ConnectError::Os(e)),
            ),
            (Dial::Reading { .. }, DialEvent::Failed(e)) => (
                Dial::Finished,
                DialAction::Fail(ConnectError::Os(e)),
            ),
            _ => (Dial::Finished, DialAction::Fail(ConnectError::OutOfOrder)),
        }
    }
}

/// Whether a TCP connector that is asked for `addr` under the proxy setting
/// `proxy` starts in `state` with `action`.
///
/// Without a proxy the connection goes to `addr` and gets TCP_NODELAY as the
/// connector is set. With one it goes to the proxy, a tunnel to `addr`
/// follows, and the tunnelled connection gets TCP_NODELAY. An invalid
/// setting fails the attempt.
pub open spec fn tcp_starts(
    connector: TcpConnector,
    addr: SocketAddress,
    proxy: ProxyView,
    state: Dial,
    action: DialAction,
) -> bool {
    match proxy {
        ProxyView::Direct => {
            &&& state == Dial::Connecting {
                tunnel_to: None,
                no_delay: connector.no_delay,
                limit: connector.tunnel_limit,
            }
            &&& action == DialAction::ConnectAddr(addr)
        },
        ProxyView::Via(target) => {
            &&& state == Dial::Connecting {
                tunnel_to: Some(addr),
                no_delay: true,
                limit: connector.tunnel_limit,
            }
            &&& action matches DialAction::ConnectHost(host)
            &&& host@ == target
        },
        ProxyView::Invalid => {
            &&& state is Finished
            &&& action == DialAction::Fail(ConnectError::ProxyConfig)
        },
    }
}

/// Whether a unified connector that is asked for `key` starts in `state`
/// with `action`: as its TCP connector does for an address, and with a
/// connection to the path for a Unix socket.
pub open spec fn starts(
    connector: UnifiedL4Connector,
    key: AddrView,
    proxy: ProxyView,
    state: Dial,
    action: DialAction,
) -> bool {
    match key {
        AddrView::Tcp(addr) => tcp_starts(connector.tcp(), addr, proxy, state, action),
        AddrView::Unix(path) => {
            &&& state == Dial::Connecting { tunnel_to: None, no_delay: false, limit: 0 }
            &&& action matches DialAction::ConnectPath(to)
            &&& to@ == path
        },
    }
}

/// Whether a connection to `key` cannot even be started: the destination is
/// a TCP address and the proxy setting is invalid.
pub open spec fn proxy_misconfigured(key: AddrView, proxy: ProxyView) -> bool {
    key is Tcp && proxy is Invalid
}

impl Default for TcpConnector {
    fn default() -> (connector: Self)
        ensures
            connector.no_delay,
            connector.tunnel_limit == DEFAULT_RESPONSE_LIMIT,
    {
        TcpConnector { no_delay: true, tunnel_limit: DEFAULT_RESPONSE_LIMIT }
    }
}

impl TcpConnector {
    /// Which destinations the connector reaches.
    pub fn reach(&self) -> (reach: Reach)
        ensures
            reach == Reach::Tcp,
    {
        Reach::Tcp
    }

    /// Starts a connection to `addr` under the proxy setting `proxy`: see
    /// `tcp_starts`.
    pub fn connect(&self, addr: &SocketAddress, proxy: &Proxy) -> (start: (Dial, DialAction))
        ensures
            tcp_starts(*self, *addr, proxy@, start.0, start.1),
    {
        match proxy {
            Proxy::Direct => (
                Dial::Connecting {
                    tunnel_to: None,
                    no_delay: self.no_delay,
                    limit: self.tunnel_limit,
                },
                DialAction::ConnectAddr(*addr),
            ),
            Proxy::Via(target) => (
                Dial::Connecting {
                    tunnel_to: Some(*addr),
                    no_delay: true,
                    limit: self.tunnel_limit,
                },
                DialAction::ConnectHost(Target { host: target.host.clone(), port: target.port }),
            ),
            Proxy::Invalid => (Dial::Finished, DialAction::Fail(ConnectError::ProxyConfig)),
        }
    }
}

impl Default for UnixConnector {
    fn default() -> (connector: Self) {
        UnixConnector {  }
    }
}

impl UnixConnector {
    /// Which destinations the connector reaches.
    pub fn reach(&self) -> (reach: Reach)
        ensures
            reach == Reach::Unix,
    {
        Reach::Unix
    }

    /// Starts a connection to the Unix socket at `path`.
    pub fn connect(&self, path: &String) -> (start: (Dial, DialAction))
        ensures
            start.0 == (Dial::Connecting { tunnel_to: None, no_delay: false, limit: 0 }),
            start.1 matches DialAction::ConnectPath(to) && to@ == path@,
    {
        (
            Dial::Connecting { tunnel_to: None, no_delay: false, limit: 0 },
            DialAction::ConnectPath(path.clone()),
        )
    }
}

impl Default for UnifiedL4Connector {
    fn default() -> (connector: Self)
        ensures
            connector.tcp().no_delay,
            connector.tcp().tunnel_limit == DEFAULT_RESPONSE_LIMIT,
    {
        UnifiedL4Connector { tcp: TcpConnector::default(), unix: UnixConnector::default() }
    }
}

impl UnifiedL4Connector {
    /// The connector for TCP destinations.
    pub closed spec fn tcp(&self) -> TcpConnector {
        self.tcp
    }

    /// A connector that uses `tcp` for TCP destinations.
    pub fn new(tcp: TcpConnector) -> (connector: Self)
        ensures
            connector.tcp() == tcp,
    {
        UnifiedL4Connector { tcp, unix: UnixConnector {  } }
    }

    /// Which destinations the connector reaches.
    pub fn reach(&self) -> (reach: Reach)
        ensures
            reach == Reach::Any,
    {
        Reach::Any
    }

    /// Starts a connection to `key`: as the TCP connector does for an
    /// address, as the Unix connector does for a path.
    pub fn connect(&self, key: &UnifiedL4Addr, proxy: &Proxy) -> (start: (Dial, DialAction))
        ensures
            starts(*self, key@, proxy@, start.0, start.1),
            start.1 is Fail <==> proxy_misconfigured(key@, proxy@),
            start.1 matches DialAction::Fail(e) ==> e == ConnectError::ProxyConfig,
    {
        match key {
            UnifiedL4Addr::Tcp(addr) => self.tcp.connect(addr, proxy),
            UnifiedL4Addr::Unix(path) => self.unix.connect(path),
        }
    }
}

} // verus!
