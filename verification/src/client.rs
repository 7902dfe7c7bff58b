//! The client: its configuration, its connectors, and the order in which a
//! request is sent.
//!
//! A request goes through five stages: its URI is turned into a key, a
//! connection to that key is taken from the pool or else opened, the request
//! is written, one response is read, and the connection goes back to the pool
//! or is dropped. `Client::send` and `Client::step` decide each stage; the
//! caller acts and reports. While a request is in flight its connection is
//! with the caller and not in the pool. A caller that gives a request up, on
//! a timeout of its own for instance, drops the state and the connection and
//! the pool is none the wiser.

use crate::addr::SocketAddress;
use crate::connector::proxy_misconfigured;
use crate::connector::starts;
use crate::connector::Dial;
use crate::connector::DialAction;
use crate::connector::Proxy;
use crate::connector::ProxyView;
use crate::connector::TcpConnector;
use crate::connector::UnifiedL4Connector;
use crate::error::ConnectError;
use crate::error::FromUriError;
use crate::error::SendError;
use crate::key::target_of_parts;
use crate::key::target_view;
use crate::key::AddrView;
use crate::key::Target;
use crate::key::TargetView;
use crate::key::UnifiedL4Addr;
use crate::outside::header_entries;
use crate::outside::header_pairs;
use crate::outside::no_headers;
use crate::outside::parsed_uri;
use crate::outside::share;
use crate::pool::fresh_entries;
use crate::pool::lemma_eviction_keeps_checkout;
use crate::pool::lemma_pick;
use crate::pool::pick;
use crate::pool::stamped;
use crate::pool::usable;
use crate::pool::Pool;
use crate::pool::PoolEntry;
use crate::tunnel::append_bytes;
use crate::tunnel::DEFAULT_RESPONSE_LIMIT;
use std::rc::Rc;
use vstd::prelude::*;
use vstd::string::StringSliceAdditionalSpecFns;
use vstd::utf8::encode_utf8;

verus! {

/// A header field: its name and the bytes of its value.
pub type Header = (String, Vec<u8>);

/// The names and values of a list of header fields.
pub open spec fn header_views(headers: Seq<Header>) -> Seq<(Seq<char>, Seq<u8>)> {
    headers.map_values(|h: Header| (h.0@, h.1@))
}

/// What a client is set up with: the header fields that every request gets.
pub struct ClientConfig {
    default_headers: Rc<http::HeaderMap<http::HeaderValue>>,
}

/// What all handles of one client share: the configuration and a connector
/// for each scheme. The one for `https` is there only where the client can
/// do TLS.
pub struct ClientInner {
    cfg: ClientConfig,
    http_connector: UnifiedL4Connector,
    https_connector: Option<TcpConnector>,
}

/// A handle to a client; cloning it gives another handle to the same client.
pub struct Client {
    shared: Rc<ClientInner>,
}

/// A request as the client builds it: method, URI and header fields.
#[derive(Debug)]
pub struct ClientRequest {
    pub method: String,
    pub uri: String,
    pub headers: Vec<Header>,
}

impl ClientConfig {
    /// The header fields that every request gets.
    pub closed spec fn default_headers(&self) -> http::HeaderMap<http::HeaderValue> {
        *self.default_headers
    }

    /// A configuration with the given default header fields.
    pub fn new(default_headers: http::HeaderMap<http::HeaderValue>) -> (cfg: ClientConfig)
        ensures
            cfg.default_headers() == default_headers,
    {
        ClientConfig { default_headers: Rc::new(default_headers) }
    }
}

impl Default for ClientConfig {
    fn default() -> (cfg: Self)
        ensures
            header_entries(cfg.default_headers()) == Seq::<(Seq<char>, Seq<u8>)>::empty(),
    {
        ClientConfig { default_headers: Rc::new(no_headers()) }
    }
}

impl Clone for ClientConfig {
    fn clone(&self) -> (cfg: Self)
        ensures
            cfg.default_headers() == self.default_headers(),
    {
        ClientConfig { default_headers: share(&self.default_headers) }
    }
}

impl ClientRequest {
    /// A request with the given method and URI and with copies of the header
    /// fields `defaults`, in their order.
    pub fn new(method: &str, uri: &str, defaults: &[Header]) -> (request: ClientRequest)
        ensures
            request.method@ == method@,
            request.uri@ == uri@,
            header_views(request.headers@) == header_views(defaults@),
    {
        let mut request = ClientRequest {
            method: method.to_owned(),
            uri: uri.to_owned(),
            headers: Vec::new(),
        };
        let mut i: usize = 0;
        while i < defaults.len()
            invariant
                i <= defaults.len(),
                request.method@ == method@,
                request.uri@ == uri@,
                header_views(request.headers@) == header_views(defaults@.subrange(0, i as int)),
            decreases defaults.len() - i,
        {
            let name = defaults[i].0.clone();
            let mut value: Vec<u8> = Vec::new();
            append_bytes(&mut value, defaults[i].1.as_slice());
            let ghost held = request.headers@;
            request = request.header(name, value);
            assert(header_views(request.headers@) == header_views(
                defaults@.subrange(0, i + 1),
            )) by {
                assert(defaults@.subrange(0, i + 1) == defaults@.subrange(0, i as int).push(
                    defaults@[i as int],
                ));
                assert(header_views(request.headers@) =~= header_views(held).push(
                    (defaults@[i as int].0@, defaults@[i as int].1@),
                ));
                assert(header_views(defaults@.subrange(0, i + 1)) =~= header_views(
                    defaults@.subrange(0, i as int),
                ).push((defaults@[i as int].0@, defaults@[i as int].1@)));
            }
            i += 1;
        }
        assert(defaults@.subrange(0, defaults.len() as int) == defaults@);
        request
    }

    /// The request with one more header field, behind those it has. A field
    /// of the same name that is already there stays.
    pub fn header(self, name: String, value: Vec<u8>) -> (request: ClientRequest)
        ensures
            request.method == self.method,
            request.uri == self.uri,
            request.headers@ == self.headers@.push((name, value)),
    {
        let mut request = self;
        request.headers.push((name, value));
        request
    }
}

/// The lower-case form of an ASCII letter; any other byte as it is.
pub open spec fn lower(b: u8) -> u8 {
    if 65 <= b <= 90 {
        (b + 32) as u8
    } else {
        b
    }
}

/// Whether two byte strings are the same but for the case of ASCII letters.
pub open spec fn same_ignoring_case(a: Seq<u8>, b: Seq<u8>) -> bool {
    a.len() == b.len() && forall|i: int| 0 <= i < a.len() ==> lower(#[trigger] a[i]) == lower(b[i])
}

/// Whether a header field is `Connection: close`, in any case of letters.
pub open spec fn asks_to_close(field: (Seq<char>, Seq<u8>)) -> bool {
    &&& same_ignoring_case(encode_utf8(field.0), "connection".spec_bytes())
    &&& same_ignoring_case(field.1, "close".spec_bytes())
}

/// Whether a message of HTTP version `major.minor` with the header fields
/// `fields` announces that its sender closes the connection: the version is
/// below 1.1, or one of the fields is `Connection: close`.
pub open spec fn closes(major: u8, minor: u8, fields: Seq<(Seq<char>, Seq<u8>)>) -> bool {
    ||| major == 0
    ||| major == 1 && minor == 0
    ||| exists|i: int| 0 <= i < fields.len() && asks_to_close(#[trigger] fields[i])
}

fn matches_ignoring_case(a: &[u8], b: &[u8]) -> (same: bool)
    ensures
        same == same_ignoring_case(a@, b@),
{
    if a.len() != b.len() {
        return false;
    }
    let mut i: usize = 0;
    while i < a.len()
        invariant
            i <= a.len() == b.len(),
            forall|j: int| 0 <= j < i ==> lower(#[trigger] a@[j]) == lower(b@[j]),
        decreases a.len() - i,
    {
        let x: u8 = if 65 <= a[i] && a[i] <= 90 {
            a[i] + 32
        } else {
            a[i]
        };
        let y: u8 = if 65 <= b[i] && b[i] <= 90 {
            b[i] + 32
        } else {
            b[i]
        };
        if x != y {
            assert(lower(a@[i as int]) != lower(b@[i as int]));
            return false;
        }
        i += 1;
    }
    true
}

/// Whether a message of HTTP version `major.minor` with the header fields
/// `fields` announces that its sender closes the connection.
pub fn announces_close(major: u8, minor: u8, fields: &[Header]) -> (yes: bool)
    ensures
        yes == closes(major, minor, header_views(fields@)),
{
    if major == 0 || (major == 1 && minor == 0) {
        return true;
    }
    let mut i: usize = 0;
    while i < fields.len()
        invariant
            i <= fields.len(),
            forall|j: int| 0 <= j < i ==> !asks_to_close(#[trigger] header_views(fields@)[j]),
        decreases fields.len() - i,
    {
        let name = fields[i].0.as_str().as_bytes();
        let value = fields[i].1.as_slice();
        if matches_ignoring_case(name, "connection".as_bytes()) && matches_ignoring_case(
            value,
            "close".as_bytes(),
        ) {
            assert(asks_to_close(header_views(fields@)[i as int]));
            return true;
        }
        assert(!asks_to_close(header_views(fields@)[i as int]));
        i += 1;
    }
    false
}

/// Whether a message of HTTP version `major.minor` whose header fields are
/// those of `fields` announces that its sender closes the connection.
pub fn message_closes(major: u8, minor: u8, fields: &http::HeaderMap<http::HeaderValue>) -> (yes:
    bool)
    ensures
        yes == closes(major, minor, header_entries(*fields)),
{
    let pairs = header_pairs(fields);
    announces_close(major, minor, pairs.as_slice())
}

/// Where a request stands between two events.
#[derive(Debug)]
pub enum SendState {
    /// The host of the URI is being resolved.
    Resolving,
    /// The pool held no connection to `key`; one is being opened.
    Connecting { key: UnifiedL4Addr },
    /// The request is being written.
    Sending,
    /// The response is awaited.
    Receiving,
    /// Nothing is awaited any more.
    Finished,
}

/// What the caller reports while a request is sent. `S` is the caller's
/// type of connection.
#[derive(Debug)]
pub enum SendEvent<S> {
    /// Resolving the host gave these addresses.
    Resolved(Vec<SocketAddress>),
    /// The connector opened this connection.
    Connected(S),
    /// The connector failed.
    ConnectFailed(ConnectError),
    /// The request is written.
    Sent,
    /// The request could not be written.
    SendFailed,
    /// One response arrived on this connection. `client_closes` and
    /// `server_closes` say whether the request and the response announced
    /// that their sender closes the connection.
    Responded { lease: PoolEntry<S>, client_closes: bool, server_closes: bool },
    /// The connection ended before a response arrived.
    Closed,
    /// What arrived is no response.
    Malformed,
}

/// What the caller is to do while a request is sent.
#[derive(Debug)]
pub enum SendAction<S> {
    /// Resolve this host and port, and report `Resolved`.
    Resolve(Target),
    /// Open a connection: act on `first`, report to `dial` with `Dial::step`
    /// until it is done or has failed, and report `Connected` or
    /// `ConnectFailed`.
    Connect { dial: Dial, first: DialAction },
    /// Write the request to this connection, and report `Sent` or
    /// `SendFailed`.
    Transmit(PoolEntry<S>),
    /// Read one response, and report `Responded`, `Closed` or `Malformed`.
    Receive,
    /// The response is the caller's. `pooled` says whether the connection
    /// went back to the pool.
    Finish { pooled: bool },
    /// The request failed; the connection, if the caller holds one, is to be
    /// dropped.
    Fail(SendError),
}

/// Whether a request whose URI names `target`, or no destination for the
/// reason given, starts in `state` with `action`: with the host and port to
/// resolve, or with the failure.
pub open spec fn starts_with<S>(
    target: Result<TargetView, FromUriError>,
    state: SendState,
    action: SendAction<S>,
) -> bool {
    match target {
        Ok(target) => {
            &&& state is Resolving
            &&& action matches SendAction::Resolve(to)
            &&& to@ == target
        },
        Err(e) => {
            &&& state is Finished
            &&& action == SendAction::<S>::Fail(SendError::Uri(e))
        },
    }
}

/// Whether a request for `key` that needs a connection goes on in `next`
/// with `action` and leaves `after` in a pool that held `before`.
///
/// Entries past the threshold leave the pool first. Where a usable entry is
/// left it is taken and the request is written to it; the connector is asked
/// only where there is none.
pub open spec fn acquires<S>(
    connector: UnifiedL4Connector,
    key: AddrView,
    proxy: ProxyView,
    before: Seq<PoolEntry<S>>,
    max_idle: u64,
    now: u64,
    next: SendState,
    action: SendAction<S>,
    after: Seq<PoolEntry<S>>,
) -> bool {
    let idle = fresh_entries(before, now, max_idle);
    match pick(idle, key, now, max_idle) {
        Some(i) => {
            &&& next is Sending
            &&& action == SendAction::Transmit(idle[i])
            &&& after == idle.remove(i)
        },
        None => {
            &&& after == idle
            &&& if proxy_misconfigured(key, proxy) {
                &&& next is Finished
                &&& action == SendAction::<S>::Fail(SendError::Connect(ConnectError::ProxyConfig))
            } else {
                &&& next matches SendState::Connecting { key: to }
                &&& to@ == key
                &&& action matches SendAction::Connect { dial, first }
                &&& starts(connector, key, proxy, dial, first)
            }
        },
    }
}

/// Reuse comes before creation: where the pool holds a usable connection to
/// the key, a request that needs one is given a connection from the pool,
/// fresh and to that key, and the connector is not asked.
pub proof fn lemma_reuse_precedes_creation<S>(
    connector: UnifiedL4Connector,
    key: AddrView,
    proxy: ProxyView,
    before: Seq<PoolEntry<S>>,
    max_idle: u64,
    now: u64,
    next: SendState,
    action: SendAction<S>,
    after: Seq<PoolEntry<S>>,
    held: int,
)
    requires
        acquires(connector, key, proxy, before, max_idle, now, next, action, after),
        0 <= held < before.len(),
        usable(before[held], key, now, max_idle),
    ensures
        next is Sending,
        action matches SendAction::Transmit(lease) && usable(lease, key, now, max_idle),
        !(action is Connect),
{
    lemma_pick(before, key, now, max_idle);
    lemma_eviction_keeps_checkout(before, key, now, max_idle);
}

/// Whether a request in `state` that is told `event` at `now` goes on in
/// `next` with `action` and leaves `after` in a pool that held `before`.
///
/// The stages follow one another: addresses give a key (`NoResolve` without
/// one) and then a connection as `acquires` says; a new connection is
/// recorded as made at `now`; after the request the response is read; and a
/// connection that brought a response goes back to the pool if neither side
/// closes it and the pool's connector reaches its key. Every failure ends the
/// request and puts nothing into the pool, and so does an event that the
/// state does not await.
pub open spec fn send_moves<S>(
    connector: UnifiedL4Connector,
    proxy: ProxyView,
    state: SendState,
    event: SendEvent<S>,
    before: Seq<PoolEntry<S>>,
    reach: crate::pool::Reach,
    max_idle: u64,
    now: u64,
    next: SendState,
    action: SendAction<S>,
    after: Seq<PoolEntry<S>>,
) -> bool {
    match (state, event) {
        (SendState::Resolving, SendEvent::Resolved(addrs)) => {
            if addrs@.len() > 0 {
                acquires(
                    connector,
                    AddrView::Tcp(addrs@[0]),
                    proxy,
                    before,
                    max_idle,
                    now,
                    next,
                    action,
                    after,
                )
            } else {
                &&& next is Finished
                &&& action == SendAction::<S>::Fail(SendError::Uri(FromUriError::NoResolve))
                &&& after == before
            }
        },
        (SendState::Connecting { key }, SendEvent::Connected(stream)) => {
            &&& next is Sending
            &&& action matches SendAction::Transmit(lease)
            &&& lease.key@ == key@
            &&& lease.stream == stream
            &&& lease.last_active == now
            &&& after == before
        },
        (SendState::Connecting { .. }, SendEvent::ConnectFailed(e)) => {
            &&& next is Finished
            &&& action == SendAction::<S>::Fail(SendError::Connect(e))
            &&& after == before
        },
        (SendState::Sending, SendEvent::Sent) => {
            &&& next is Receiving
            &&& action is Receive
            &&& after == before
        },
        (SendState::Sending, SendEvent::SendFailed) => {
            &&& next is Finished
            &&& action == SendAction::<S>::Fail(SendError::Send)
            &&& after == before
        },
        (SendState::Receiving, SendEvent::Responded { lease, client_closes, server_closes }) => {
            let pooled = !client_closes && !server_closes && reach.covers(lease.key@);
            &&& next is Finished
            &&& action == SendAction::<S>::Finish { pooled }
            &&& after == if pooled {
                before.push(stamped(lease, now))
            } else {
                before
            }
        },
        (SendState::Receiving, SendEvent::Closed) => {
            &&& next is Finished
            &&& action == SendAction::<S>::Fail(SendError::NoResponse)
            &&& after == before
        },
        (SendState::Receiving, SendEvent::Malformed) => {
            &&& next is Finished
            &&& action == SendAction::<S>::Fail(SendError::Receive)
            &&& after == before
        },
        _ => {
            &&& next is Finished
            &&& action == SendAction::<S>::Fail(SendError::OutOfOrder)
            &&& after == before
        },
    }
}

/// A request that fails checks no connection in: whatever the state and the
/// event, the pool holds afterwards what it held before, or what was still
/// fresh of it.
pub proof fn lemma_failure_pools_nothing<S>(
    connector: UnifiedL4Connector,
    proxy: ProxyView,
    state: SendState,
    event: SendEvent<S>,
    before: Seq<PoolEntry<S>>,
    reach: crate::pool::Reach,
    max_idle: u64,
    now: u64,
    next: SendState,
    action: SendAction<S>,
    after: Seq<PoolEntry<S>>,
)
    requires
        send_moves(
            connector,
            proxy,
            state,
            event,
            before,
            reach,
            max_idle,
            now,
            next,
            action,
            after,
        ),
        action is Fail,
    ensures
        next is Finished,
        after == before || after == fresh_entries(before, now, max_idle),
{
}

impl ClientInner {
    /// The shared part of a client with this configuration and these
    /// connectors.
    pub fn new(
        cfg: ClientConfig,
        http_connector: UnifiedL4Connector,
        https_connector: Option<TcpConnector>,
    ) -> (inner: ClientInner)
        ensures
            inner.cfg().default_headers() == cfg.default_headers(),
            inner.http_connector() == http_connector,
            inner.https_connector() == https_connector,
    {
        ClientInner { cfg, http_connector, https_connector }
    }

    /// The configuration.
    pub closed spec fn cfg(&self) -> ClientConfig {
        self.cfg
    }

    /// The connector for `http`.
    pub closed spec fn http_connector(&self) -> UnifiedL4Connector {
        self.http_connector
    }

    /// The connector for `https`, where the client has one.
    pub closed spec fn https_connector(&self) -> Option<TcpConnector> {
        self.https_connector
    }
}

impl Clone for Client {
    fn clone(&self) -> (handle: Self)
        ensures
            handle.inner() == self.inner(),
    {
        Client { shared: share(&self.shared) }
    }
}

impl Default for Client {
    fn default() -> (client: Self)
        ensures
            header_entries(client.inner().cfg().default_headers()) == Seq::<
                (Seq<char>, Seq<u8>),
            >::empty(),
            client.inner().http_connector().tcp().no_delay,
            client.inner().http_connector().tcp().tunnel_limit == DEFAULT_RESPONSE_LIMIT,
            client.inner().https_connector().is_none(),
    {
        Client::new()
    }
}

impl Client {
    /// What the handles of this client share.
    pub closed spec fn inner(&self) -> ClientInner {
        *self.shared
    }

    /// A client without default header fields, with the default connector
    /// for `http`, which sets TCP_NODELAY and takes a proxy's response of up
    /// to `DEFAULT_RESPONSE_LIMIT` bytes, and with no connector for `https`.
    pub fn new() -> (client: Client)
        ensures
            header_entries(client.inner().cfg().default_headers()) == Seq::<
                (Seq<char>, Seq<u8>),
            >::empty(),
            client.inner().http_connector().tcp().no_delay,
            client.inner().http_connector().tcp().tunnel_limit == DEFAULT_RESPONSE_LIMIT,
            client.inner().https_connector().is_none(),
    {
        let shared = Rc::new(
            ClientInner {
                cfg: ClientConfig::default(),
                http_connector: UnifiedL4Connector::default(),
                https_connector: None,
            },
        );
        Client { shared }
    }

    /// A handle to a client that shares `inner`.
    pub fn from_inner(inner: ClientInner) -> (client: Client)
        ensures
            client.inner() == inner,
    {
        Client { shared: Rc::new(inner) }
    }

    /// The connector for `http`.
    pub fn connector(&self) -> (connector: UnifiedL4Connector)
        ensures
            connector == self.inner().http_connector(),
    {
        self.shared.http_connector
    }

    /// Whether the client has a connector for `https`.
    pub fn has_tls(&self) -> (yes: bool)
        ensures
            yes == self.inner().https_connector().is_some(),
    {
        self.shared.https_connector.is_some()
    }

    /// A request with the given method and URI and with the client's default
    /// header fields, in the order in which the configuration holds them.
    /// Fields that the caller adds afterwards follow them; none replaces
    /// another.
    pub fn request(&self, method: &str, uri: &str) -> (request: ClientRequest)
        ensures
            request.method@ == method@,
            request.uri@ == uri@,
            header_views(request.headers@) == header_entries(
                self.inner().cfg().default_headers(),
            ),
    {
        let defaults = header_pairs(&self.shared.cfg.default_headers);
        ClientRequest::new(method, uri, defaults.as_slice())
    }

    /// Starts a request for the destination that its URI names, or fails it
    /// for the reason that the URI names none.
    pub fn start<S>(target: Result<Target, FromUriError>) -> (start: (SendState, SendAction<S>))
        ensures
            starts_with(target_view(target), start.0, start.1),
    {
        match target {
            Ok(target) => (SendState::Resolving, SendAction::Resolve(target)),
            Err(e) => (SendState::Finished, SendAction::Fail(SendError::Uri(e))),
        }
    }

    /// Starts a request for `uri`: says which host and port to resolve, or
    /// why the URI names no destination.
    pub fn send<S>(&self, uri: &str) -> (start: (SendState, SendAction<S>))
        ensures
            starts_with(
                match parsed_uri(uri@) {
                    Some(parts) => target_of_parts(parts),
                    None => Err(FromUriError::InvalidUri),
                },
                start.0,
                start.1,
            ),
    {
        Client::start(Target::from_uri(uri))
    }

    /// Starts a request to a destination that is given by its key: takes a
    /// connection from the pool or asks for one to be opened.
    pub fn send_to<S>(&self, key: UnifiedL4Addr, pool: &mut Pool<S>, proxy: &Proxy, now: u64) -> (start:
        (SendState, SendAction<S>))
        ensures
            old(pool).wf() ==> final(pool).wf(),
            final(pool).reach() == old(pool).reach(),
            final(pool).max_idle() == old(pool).max_idle(),
            acquires(
                self.inner().http_connector(),
                key@,
                proxy@,
                old(pool)@,
                old(pool).max_idle(),
                now,
                start.0,
                start.1,
                final(pool)@,
            ),
    {
        pool.evict(now);
        match pool.checkout(&key, now) {
            Some(lease) => (SendState::Sending, SendAction::Transmit(lease)),
            None => {
                let (dial, first) = self.shared.http_connector.connect(&key, proxy);
                match first {
                    DialAction::Fail(e) => (
                        SendState::Finished,
                        SendAction::Fail(SendError::Connect(e)),
                    ),
                    first => (SendState::Connecting { key }, SendAction::Connect { dial, first }),
                }
            },
        }
    }

    /// Takes the outcome of the last action of a request and gives the next
    /// one: see `send_moves`.
    pub fn step<S>(
        &self,
        state: SendState,
        event: SendEvent<S>,
        pool: &mut Pool<S>,
        proxy: &Proxy,
        now: u64,
    ) -> (moved: (SendState, SendAction<S>))
        ensures
            old(pool).wf() ==> final(pool).wf(),
            final(pool).reach() == old(pool).reach(),
            final(pool).max_idle() == old(pool).max_idle(),
            send_moves(
                self.inner().http_connector(),
                proxy@,
                state,
                event,
                old(pool)@,
                old(pool).reach(),
                old(pool).max_idle(),
                now,
                moved.0,
                moved.1,
                final(pool)@,
            ),
    {
        match (state, event) {
            (SendState::Resolving, SendEvent::Resolved(addrs)) => {
                match UnifiedL4Addr::from_resolved(addrs.as_slice()) {
                    Ok(key) => self.send_to(key, pool, proxy, now),
                    Err(e) => (SendState::Finished, SendAction::Fail(SendError::Uri(e))),
                }
            },
            (SendState::Connecting { key }, SendEvent::Connected(stream)) => (
                SendState::Sending,
                SendAction::Transmit(PoolEntry::new(key, stream, now)),
            ),
            (SendState::Connecting { .. }, SendEvent::ConnectFailed(e)) => (
                SendState::Finished,
                SendAction::Fail(SendError::Connect(e)),
            ),
            (SendState::Sending, SendEvent::Sent) => (SendState::Receiving, SendAction::Receive),
            (SendState::Sending, SendEvent::SendFailed) => (
                SendState::Finished,
                SendAction::Fail(SendError::Send),
            ),
            (SendState::Receiving, SendEvent::Responded { lease, client_closes, server_closes }) => {
                let pooled = if !client_closes && !server_closes {
                    pool.checkin(lease, now)
                } else {
                    false
                };
                (SendState::Finished, SendAction::Finish { pooled })
            },
            (SendState::Receiving, SendEvent::Closed) => (
                SendState::Finished,
                SendAction::Fail(SendError::NoResponse),
            ),
            (SendState::Receiving, SendEvent::Malformed) => (
                SendState::Finished,
                SendAction::Fail(SendError::Receive),
            ),
            _ => (SendState::Finished, SendAction::Fail(SendError::OutOfOrder)),
        }
    }
}

} // verus!
