use http::header::{HeaderMap, HeaderName, HeaderValue};
use http_client_core::addr::SocketAddress;
use http_client_core::client::{
    announces_close, message_closes, Client, ClientConfig, ClientInner, ClientRequest, SendAction,
    SendEvent, SendState,
};
use http_client_core::connector::{
    Dial, DialAction, DialEvent, Proxy, ProxyEnv, TcpConnector, UnifiedL4Connector,
};
use http_client_core::key::Target;
use http_client_core::error::{ConnectError, FromUriError, SendError, TunnelError};
use http_client_core::key::UnifiedL4Addr;
use http_client_core::pool::{Pool, PoolEntry, Reach};

fn host_addr() -> SocketAddress {
    SocketAddress::V4 { ip: 0x0a00_0001, port: 80 }
}

/// Runs one request against a server that answers; returns the connection
/// that carried it and whether a new one had to be opened.
fn exchange(
    client: &Client,
    pool: &mut Pool<u32>,
    uri: &str,
    new_stream: u32,
    now: u64,
    reusable: bool,
) -> (u32, bool, bool) {
    let env = Proxy::Direct;
    let (state, action) = client.send::<u32>(uri);
    assert!(matches!(action, SendAction::Resolve(_)));
    let (state, action) = client.step(state, SendEvent::Resolved(vec![host_addr()]), pool, &env, now);
    let (state, lease, opened) = match action {
        SendAction::Transmit(lease) => (state, lease, false),
        SendAction::Connect { dial, first } => {
            assert!(matches!(first, DialAction::ConnectAddr(a) if a == host_addr()));
            let (dial, done) = dial.step(DialEvent::Connected);
            assert!(matches!(done, DialAction::Done { no_delay: true }));
            assert!(matches!(dial, Dial::Finished));
            let (state, action) = client.step(state, SendEvent::Connected(new_stream), pool, &env, now);
            match action {
                SendAction::Transmit(lease) => (state, lease, true),
                other => panic!("unexpected action {:?}", other),
            }
        }
        other => panic!("unexpected action {:?}", other),
    };
    assert!(matches!(state, SendState::Sending));
    let (state, action) = client.step(state, SendEvent::Sent, pool, &env, now);
    assert!(matches!(action, SendAction::Receive));
    assert!(matches!(state, SendState::Receiving));
    let stream = lease.stream;
    let (state, action) =
        client.step(state, SendEvent::Responded { lease, client_closes: false, server_closes: !reusable }, pool, &env, now + 1);
    assert!(matches!(state, SendState::Finished));
    match action {
        SendAction::Finish { pooled } => (stream, opened, pooled),
        other => panic!("unexpected action {:?}", other),
    }
}

#[test]
fn second_request_reuses_the_connection_of_the_first() {
    let client = Client::new();
    let mut pool: Pool<u32> = Pool::new(Reach::Any, 60);
    let (first, opened, pooled) = exchange(&client, &mut pool, "http://host/path", 1, 100, true);
    assert_eq!((first, opened, pooled), (1, true, true));
    assert_eq!(pool.len(), 1);
    let (second, opened, pooled) = exchange(&client, &mut pool, "http://host/other", 2, 110, true);
    assert_eq!((second, opened, pooled), (1, false, true));
    assert_eq!(pool.len(), 1);
}

#[test]
fn connection_that_is_not_reusable_is_not_pooled() {
    let client = Client::new();
    let mut pool: Pool<u32> = Pool::new(Reach::Any, 60);
    let (_, opened, pooled) = exchange(&client, &mut pool, "http://host/", 1, 100, false);
    assert_eq!((opened, pooled), (true, false));
    assert_eq!(pool.len(), 0);
    let (stream, opened, _) = exchange(&client, &mut pool, "http://host/", 2, 101, true);
    assert_eq!((stream, opened), (2, true));
}

#[test]
fn connection_that_the_client_closes_is_not_pooled() {
    let client = Client::new();
    let env = Proxy::Direct;
    let mut pool: Pool<u32> = Pool::new(Reach::Any, 60);
    let lease = PoolEntry::new(UnifiedL4Addr::Tcp(host_addr()), 1, 0);
    let event = SendEvent::Responded { lease, client_closes: true, server_closes: false };
    let (_, action) = client.step(SendState::Receiving, event, &mut pool, &env, 1);
    assert!(matches!(action, SendAction::Finish { pooled: false }));
    let lease = PoolEntry::new(UnifiedL4Addr::Tcp(host_addr()), 1, 0);
    let event = SendEvent::Responded { lease, client_closes: true, server_closes: true };
    let (_, action) = client.step(SendState::Receiving, event, &mut pool, &env, 1);
    assert!(matches!(action, SendAction::Finish { pooled: false }));
    assert_eq!(pool.len(), 0);
}

#[test]
fn connection_idle_for_too_long_is_replaced() {
    let client = Client::new();
    let mut pool: Pool<u32> = Pool::new(Reach::Any, 60);
    exchange(&client, &mut pool, "http://host/", 1, 100, true);
    let (stream, opened, pooled) = exchange(&client, &mut pool, "http://host/", 2, 162, true);
    assert_eq!((stream, opened, pooled), (2, true, true));
    assert_eq!(pool.len(), 1);
}

#[test]
fn requests_in_flight_together_get_different_connections() {
    let client = client_with(UnifiedL4Connector::default());
    let env = Proxy::Direct;
    let mut pool: Pool<u32> = Pool::new(Reach::Any, 60);
    pool.checkin(PoolEntry::new(UnifiedL4Addr::Tcp(host_addr()), 7, 0), 0);
    let (_, a) = client.send_to(UnifiedL4Addr::Tcp(host_addr()), &mut pool, &env, 1);
    let (_, b) = client.send_to(UnifiedL4Addr::Tcp(host_addr()), &mut pool, &env, 1);
    assert!(matches!(a, SendAction::Transmit(lease) if lease.stream == 7));
    assert!(matches!(b, SendAction::Connect { .. }));
}

#[test]
fn send_starts_with_the_target_of_the_uri() {
    let client = Client::new();
    let (state, action) = client.send::<u32>("https://example.com:8443/a");
    assert!(matches!(state, SendState::Resolving));
    assert!(matches!(action, SendAction::Resolve(t) if t.host == "example.com" && t.port == 8443));
}

#[test]
fn start_from_a_given_target() {
    let target = Target { host: "h".to_string(), port: 1 };
    let (state, action) = Client::start::<u32>(Ok(target));
    assert!(matches!(state, SendState::Resolving));
    assert!(matches!(action, SendAction::Resolve(t) if t.host == "h" && t.port == 1));
    let (state, action) = Client::start::<u32>(Err(FromUriError::NoAuthority));
    assert!(matches!(state, SendState::Finished));
    assert!(matches!(action, SendAction::Fail(SendError::Uri(FromUriError::NoAuthority))));
}

#[test]
fn uri_without_host_aborts_the_request() {
    let client = Client::new();
    let (state, action) = client.send::<u32>("/path");
    assert!(matches!(state, SendState::Finished));
    assert!(matches!(action, SendAction::Fail(SendError::Uri(FromUriError::NoAuthority))));
    let (_, action) = client.send::<u32>("");
    assert!(matches!(action, SendAction::Fail(SendError::Uri(FromUriError::InvalidUri))));
}

#[test]
fn host_that_does_not_resolve_aborts_the_request() {
    let client = Client::new();
    let mut pool: Pool<u32> = Pool::new(Reach::Any, 60);
    let (state, _) = client.send::<u32>("http://nowhere.invalid/");
    let (state, action) =
        client.step(state, SendEvent::Resolved(Vec::new()), &mut pool, &Proxy::Direct, 0);
    assert!(matches!(state, SendState::Finished));
    assert!(matches!(action, SendAction::Fail(SendError::Uri(FromUriError::NoResolve))));
}

fn connecting(client: &Client, pool: &mut Pool<u32>) -> SendState {
    let (state, _) = client.send::<u32>("http://host/");
    let (state, action) =
        client.step(state, SendEvent::Resolved(vec![host_addr()]), pool, &Proxy::Direct, 0);
    assert!(matches!(action, SendAction::Connect { .. }));
    assert!(matches!(&state, SendState::Connecting { key } if *key == UnifiedL4Addr::Tcp(host_addr())));
    state
}

#[test]
fn connector_failure_aborts_the_request() {
    let client = Client::new();
    let mut pool: Pool<u32> = Pool::new(Reach::Any, 60);
    let state = connecting(&client, &mut pool);
    let failure = ConnectError::Tunnel(TunnelError::Rejected);
    let (state, action) =
        client.step(state, SendEvent::ConnectFailed(failure), &mut pool, &Proxy::Direct, 0);
    assert!(matches!(state, SendState::Finished));
    assert!(matches!(
        action,
        SendAction::Fail(SendError::Connect(ConnectError::Tunnel(TunnelError::Rejected)))
    ));
    assert_eq!(pool.len(), 0);
}

#[test]
fn misconfigured_proxy_aborts_the_request() {
    let client = Client::new();
    let mut pool: Pool<u32> = Pool::new(Reach::Any, 60);
    let env = ProxyEnv { lower: Some("/no/host".to_string()), upper: None }.resolve();
    let (state, _) = client.send::<u32>("http://host/");
    let (state, action) =
        client.step(state, SendEvent::Resolved(vec![host_addr()]), &mut pool, &env, 0);
    assert!(matches!(state, SendState::Finished));
    assert!(matches!(action, SendAction::Fail(SendError::Connect(ConnectError::ProxyConfig))));
}

fn sending(client: &Client, pool: &mut Pool<u32>) -> SendState {
    let state = connecting(client, pool);
    let (state, action) =
        client.step(state, SendEvent::Connected(5), pool, &Proxy::Direct, 9);
    match action {
        SendAction::Transmit(lease) => {
            assert_eq!(lease.stream, 5);
            assert_eq!(lease.key, UnifiedL4Addr::Tcp(host_addr()));
            assert_eq!(lease.last_active, 9);
        }
        other => panic!("unexpected action {:?}", other),
    }
    state
}

#[test]
fn send_failure_discards_the_connection() {
    let client = Client::new();
    let mut pool: Pool<u32> = Pool::new(Reach::Any, 60);
    let state = sending(&client, &mut pool);
    let (state, action) = client.step(state, SendEvent::SendFailed, &mut pool, &Proxy::Direct, 0);
    assert!(matches!(state, SendState::Finished));
    assert!(matches!(action, SendAction::Fail(SendError::Send)));
    assert_eq!(pool.len(), 0);
}

#[test]
fn no_response_and_malformed_response_are_different_failures() {
    let client = Client::new();
    let env = Proxy::Direct;
    let mut pool: Pool<u32> = Pool::new(Reach::Any, 60);
    let state = sending(&client, &mut pool);
    let (state, _) = client.step(state, SendEvent::Sent, &mut pool, &env, 0);
    let (_, action) = client.step(state, SendEvent::Closed, &mut pool, &env, 0);
    assert!(matches!(action, SendAction::Fail(SendError::NoResponse)));
    let state = sending(&client, &mut pool);
    let (state, _) = client.step(state, SendEvent::Sent, &mut pool, &env, 0);
    let (_, action) = client.step(state, SendEvent::Malformed, &mut pool, &env, 0);
    assert!(matches!(action, SendAction::Fail(SendError::Receive)));
    assert_eq!(pool.len(), 0);
}

#[test]
fn event_that_is_not_awaited_ends_the_request() {
    let client = Client::new();
    let env = Proxy::Direct;
    let mut pool: Pool<u32> = Pool::new(Reach::Any, 60);
    let (state, action) = client.step(SendState::Resolving, SendEvent::Sent, &mut pool, &env, 0);
    assert!(matches!(state, SendState::Finished));
    assert!(matches!(action, SendAction::Fail(SendError::OutOfOrder)));
    let lease = PoolEntry::new(UnifiedL4Addr::Tcp(host_addr()), 1, 0);
    let event = SendEvent::Responded { lease, client_closes: false, server_closes: false };
    let (_, action) = client.step(SendState::Sending, event, &mut pool, &env, 0);
    assert!(matches!(action, SendAction::Fail(SendError::OutOfOrder)));
    assert_eq!(pool.len(), 0);
    let (_, action) = client.step(SendState::Finished, SendEvent::Closed, &mut pool, &env, 0);
    assert!(matches!(action, SendAction::Fail(SendError::OutOfOrder)));
}

#[test]
fn request_to_a_unix_socket() {
    let client = Client::new();
    let env = ProxyEnv { lower: Some("http://proxy:1".to_string()), upper: None }.resolve();
    let mut pool: Pool<u32> = Pool::new(Reach::Any, 60);
    let key = UnifiedL4Addr::Unix("/run/app.sock".to_string());
    let (state, action) = client.send_to(key.clone(), &mut pool, &env, 0);
    assert!(matches!(
        action,
        SendAction::Connect { first: DialAction::ConnectPath(p), .. } if p == "/run/app.sock"
    ));
    let (state, action) = client.step(state, SendEvent::Connected(3), &mut pool, &env, 0);
    let lease = match action {
        SendAction::Transmit(lease) => lease,
        other => panic!("unexpected action {:?}", other),
    };
    let (state, _) = client.step(state, SendEvent::Sent, &mut pool, &env, 0);
    let (_, action) =
        client.step(state, SendEvent::Responded { lease, client_closes: false, server_closes: false }, &mut pool, &env, 1);
    assert!(matches!(action, SendAction::Finish { pooled: true }));
    let (_, action) = client.send_to(key, &mut pool, &env, 2);
    assert!(matches!(action, SendAction::Transmit(lease) if lease.stream == 3));
}

#[test]
fn pool_of_another_connector_does_not_take_the_connection() {
    let client = Client::new();
    let env = Proxy::Direct;
    let mut pool: Pool<u32> = Pool::new(Reach::Unix, 60);
    let state = sending(&client, &mut pool);
    let (state, _) = client.step(state, SendEvent::Sent, &mut pool, &env, 0);
    let lease = PoolEntry::new(UnifiedL4Addr::Tcp(host_addr()), 5, 0);
    let (_, action) =
        client.step(state, SendEvent::Responded { lease, client_closes: false, server_closes: false }, &mut pool, &env, 1);
    assert!(matches!(action, SendAction::Finish { pooled: false }));
    assert_eq!(pool.len(), 0);
}

fn client_with(connector: UnifiedL4Connector) -> Client {
    Client::from_inner(ClientInner::new(ClientConfig::default(), connector, None))
}

#[test]
fn send_goes_through_the_proxy_of_the_environment() {
    let client = client_with(UnifiedL4Connector::new(TcpConnector { no_delay: false, tunnel_limit: 128 }));
    let env = ProxyEnv { lower: None, upper: Some("http://proxy.local:3128".to_string()) }.resolve();
    let mut pool: Pool<u32> = Pool::new(Reach::Any, 60);
    let (state, _) = client.send::<u32>("http://host/");
    let (_, action) = client.step(state, SendEvent::Resolved(vec![host_addr()]), &mut pool, &env, 0);
    match action {
        SendAction::Connect { dial, first } => {
            assert!(matches!(first, DialAction::ConnectHost(p) if p.host == "proxy.local" && p.port == 3128));
            let (dial, action) = dial.step(DialEvent::Connected);
            assert!(matches!(action, DialAction::Write(b) if b == b"CONNECT 10.0.0.1:80 HTTP/1.1\r\nHOST: 10.0.0.1:80\r\n\r\n".to_vec()));
            let (dial, action) = dial.step(DialEvent::Written);
            assert!(matches!(action, DialAction::Read { max: 128 }));
            let reply = b"HTTP/1.1 200 Connection Established\r\n\r\n".to_vec();
            let (_, action) = dial.step(DialEvent::Received(reply));
            assert!(matches!(action, DialAction::Done { no_delay: true }));
        }
        other => panic!("unexpected action {:?}", other),
    }
}

#[test]
fn request_from_given_header_fields() {
    let defaults = vec![("b".to_string(), b"2".to_vec()), ("a".to_string(), b"1".to_vec())];
    let request = ClientRequest::new("PUT", "http://h/", &defaults);
    assert_eq!((request.method.as_str(), request.uri.as_str()), ("PUT", "http://h/"));
    assert_eq!(request.headers, defaults);
    assert!(ClientRequest::new("GET", "/", &[]).headers.is_empty());
}

#[test]
fn new_client_has_no_default_headers_and_no_tls() {
    let client = Client::new();
    assert!(!client.has_tls());
    assert_eq!(client.connector(), UnifiedL4Connector::default());
    let request = client.request("GET", "http://host/");
    assert_eq!(request.method, "GET");
    assert_eq!(request.uri, "http://host/");
    assert!(request.headers.is_empty());
    let client = Client::default();
    assert!(client.request("GET", "/").headers.is_empty());
    let tls = Client::from_inner(ClientInner::new(
        ClientConfig::default(),
        UnifiedL4Connector::default(),
        Some(TcpConnector::default()),
    ));
    assert!(tls.has_tls());
    assert!(tls.clone().has_tls());
}

#[test]
fn request_gets_the_default_headers_in_their_order() {
    let mut map = HeaderMap::new();
    map.append(HeaderName::from_static("user-agent"), HeaderValue::from_static("core/1"));
    map.append(HeaderName::from_static("accept"), HeaderValue::from_static("*/*"));
    map.append(HeaderName::from_static("x-trace"), HeaderValue::from_static("on"));
    let inner = ClientInner::new(ClientConfig::new(map), UnifiedL4Connector::default(), None);
    let client = Client::from_inner(inner);
    let request = client.clone().request("POST", "http://host/submit");
    assert_eq!(request.method, "POST");
    assert_eq!(
        request.headers,
        vec![
            ("user-agent".to_string(), b"core/1".to_vec()),
            ("accept".to_string(), b"*/*".to_vec()),
            ("x-trace".to_string(), b"on".to_vec()),
        ]
    );
    let request = request.header("accept".to_string(), b"text/html".to_vec());
    assert_eq!(request.headers.len(), 4);
    assert_eq!(request.headers[1], ("accept".to_string(), b"*/*".to_vec()));
    assert_eq!(request.headers[3], ("accept".to_string(), b"text/html".to_vec()));
    let config = ClientConfig::default().clone();
    let bare = Client::from_inner(ClientInner::new(config, UnifiedL4Connector::default(), None));
    assert!(bare.request("GET", "/").headers.is_empty());
}

fn field(name: &str, value: &str) -> (String, Vec<u8>) {
    (name.to_string(), value.as_bytes().to_vec())
}

#[test]
fn version_below_1_1_closes() {
    assert!(announces_close(1, 0, &[]));
    assert!(announces_close(0, 9, &[]));
    assert!(announces_close(1, 0, &[field("connection", "keep-alive")]));
    assert!(!announces_close(1, 1, &[]));
    assert!(!announces_close(2, 0, &[]));
    assert!(!announces_close(3, 0, &[field("accept", "close")]));
}

#[test]
fn connection_close_closes_in_any_case_of_letters() {
    assert!(announces_close(1, 1, &[field("connection", "close")]));
    assert!(announces_close(1, 1, &[field("Connection", "Close")]));
    assert!(announces_close(1, 1, &[field("CONNECTION", "CLOSE")]));
    assert!(announces_close(1, 1, &[field("accept", "*/*"), field("connection", "close")]));
    assert!(announces_close(
        1,
        1,
        &[field("connection", "keep-alive"), field("connection", "close"), field("x", "y")]
    ));
}

#[test]
fn other_fields_do_not_close() {
    assert!(!announces_close(1, 1, &[field("connection", "keep-alive")]));
    assert!(!announces_close(1, 1, &[field("connection", "closed")]));
    assert!(!announces_close(1, 1, &[field("connection", "clos")]));
    assert!(!announces_close(1, 1, &[field("connection", "")]));
    assert!(!announces_close(1, 1, &[field("connections", "close")]));
    assert!(!announces_close(1, 1, &[field("close", "connection")]));
    assert!(!announces_close(1, 1, &[field("connection", "cl0se"), field("a", "close")]));
    assert!(!announces_close(1, 1, &[field("connection", "[lose")]));
    assert!(!announces_close(1, 1, &[field("connection", "keep-alive, close")]));
}

#[test]
fn message_closes_reads_the_header_map() {
    let mut map = HeaderMap::new();
    map.append(HeaderName::from_static("accept"), HeaderValue::from_static("*/*"));
    assert!(!message_closes(1, 1, &map));
    assert!(message_closes(1, 0, &map));
    map.append(HeaderName::from_static("connection"), HeaderValue::from_static("Close"));
    assert!(message_closes(1, 1, &map));
    assert!(!message_closes(1, 1, &HeaderMap::new()));
}

#[test]
fn new_client_has_the_default_connector() {
    let connector = Client::new().connector();
    assert_eq!(connector, UnifiedL4Connector::new(TcpConnector { no_delay: true, tunnel_limit: 8192 }));
    assert_eq!(Client::default().connector(), connector);
}
