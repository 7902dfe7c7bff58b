use http_client_core::addr::SocketAddress;
use http_client_core::error::FromUriError;
use http_client_core::key::{default_port, same_text, Target, UnifiedL4Addr, UriParts};
use std::collections::HashSet;

fn text(addr: SocketAddress) -> String {
    String::from_utf8(addr.render()).expect("ascii")
}

#[test]
fn ipv4_is_dotted_decimal_with_port() {
    assert_eq!(text(SocketAddress::V4 { ip: 0x7f00_0001, port: 80 }), "127.0.0.1:80");
    assert_eq!(text(SocketAddress::V4 { ip: 0, port: 0 }), "0.0.0.0:0");
    assert_eq!(
        text(SocketAddress::V4 { ip: 0xffff_ffff, port: 65535 }),
        "255.255.255.255:65535"
    );
    assert_eq!(text(SocketAddress::V4 { ip: 0x5db8_d822, port: 443 }), "93.184.216.34:443");
    assert_eq!(text(SocketAddress::V4 { ip: 0x0a00_640a, port: 8080 }), "10.0.100.10:8080");
}

#[test]
fn ipv6_is_bracketed_groups_with_port() {
    let loopback = SocketAddress::V6 { ip6: 1, port: 8080, flowinfo: 0, scope_id: 0 };
    assert_eq!(text(loopback), "[::1]:8080");
    let doc = SocketAddress::V6 {
        ip6: 0x2001_0db8_0000_0000_0000_ff00_0042_8329,
        port: 443,
        flowinfo: 9,
        scope_id: 0,
    };
    assert_eq!(text(doc), "[2001:db8::ff00:42:8329]:443");
    let all = SocketAddress::V6 { ip6: u128::MAX, port: 1, flowinfo: 0, scope_id: 0 };
    assert_eq!(text(all), "[ffff:ffff:ffff:ffff:ffff:ffff:ffff:ffff]:1");
}

fn v6(ip6: u128) -> String {
    text(SocketAddress::V6 { ip6, port: 9, flowinfo: 0, scope_id: 0 })
}

#[test]
fn ipv6_longest_run_of_zero_groups_is_left_out() {
    assert_eq!(v6(0), "[::]:9");
    assert_eq!(v6(0x0001_0000_0000_0000_0000_0000_0000_0000), "[1::]:9");
    assert_eq!(v6(0x0001_0000_0000_0002_0000_0000_0000_0003), "[1:0:0:2::3]:9");
    assert_eq!(v6(0x0001_0000_0000_0000_0002_0000_0000_0003), "[1::2:0:0:3]:9");
    assert_eq!(v6(0x0000_0000_0001_0000_0000_0000_0000_0000), "[0:0:1::]:9");
    assert_eq!(v6(0x0000_0000_0000_0001_0000_0000_0002_0000), "[::1:0:0:2:0]:9");
}

#[test]
fn ipv6_first_of_two_equal_runs_is_left_out() {
    assert_eq!(v6(0x0001_0000_0000_0002_0000_0000_0003_0004), "[1::2:0:0:3:4]:9");
    assert_eq!(v6(0x0000_0000_0001_0002_0003_0004_0000_0000), "[::1:2:3:4:0:0]:9");
}

#[test]
fn ipv6_single_zero_group_stays() {
    assert_eq!(v6(0x0001_0000_0002_0003_0004_0005_0006_0007), "[1:0:2:3:4:5:6:7]:9");
    assert_eq!(v6(0x0001_0002_0003_0004_0005_0006_0007_0000), "[1:2:3:4:5:6:7:0]:9");
    assert_eq!(v6(0x0000_0001_0000_0002_0000_0003_0000_0004), "[0:1:0:2:0:3:0:4]:9");
}

#[test]
fn ipv6_that_maps_ipv4_ends_in_dotted_decimal() {
    assert_eq!(v6(0x0000_0000_0000_0000_0000_ffff_c0a8_0101), "[::ffff:192.168.1.1]:9");
    assert_eq!(v6(0x0000_0000_0000_0000_0000_ffff_0000_0000), "[::ffff:0.0.0.0]:9");
    assert_eq!(v6(0x0000_0000_0000_0000_0000_fffe_c0a8_0101), "[::fffe:c0a8:101]:9");
    assert_eq!(v6(0x0000_0000_0000_0000_0000_0000_c0a8_0101), "[::c0a8:101]:9");
    assert_eq!(v6(0x0000_0000_0000_0000_0001_ffff_c0a8_0101), "[::1:ffff:c0a8:101]:9");
}

#[test]
fn ipv6_scope_follows_the_groups() {
    let link = SocketAddress::V6 {
        ip6: 0xfe80_0000_0000_0000_0000_0000_0000_0001,
        port: 22,
        flowinfo: 0,
        scope_id: 12,
    };
    assert_eq!(text(link), "[fe80::1%12]:22");
}

#[test]
fn port_of_either_family() {
    assert_eq!(SocketAddress::V4 { ip: 1, port: 81 }.port(), 81);
    assert_eq!(SocketAddress::V6 { ip6: 1, port: 82, flowinfo: 0, scope_id: 0 }.port(), 82);
}

#[test]
fn http_uri_maps_to_port_80() {
    let target = Target::from_uri("http://example.com/").expect("target");
    assert_eq!(target.host, "example.com");
    assert_eq!(target.port, 80);
}

#[test]
fn https_uri_maps_to_port_443() {
    let target = Target::from_uri("https://example.com/").expect("target");
    assert_eq!(target.host, "example.com");
    assert_eq!(target.port, 443);
}

#[test]
fn explicit_port_wins() {
    let target = Target::from_uri("http://example.com:8080/").expect("target");
    assert_eq!(target.host, "example.com");
    assert_eq!(target.port, 8080);
    let target = Target::from_uri("https://example.com:80/x?y=1").expect("target");
    assert_eq!(target.port, 80);
}

#[test]
fn other_scheme_maps_to_port_0() {
    let target = Target::from_uri("ftp://example.com/file").expect("target");
    assert_eq!(target.port, 0);
    let target = Target::from_uri("ws://example.com:9000/").expect("target");
    assert_eq!(target.port, 9000);
}

#[test]
fn authority_alone_has_no_scheme_and_port_0() {
    let target = Target::from_uri("example.com").expect("target");
    assert_eq!(target.host, "example.com");
    assert_eq!(target.port, 0);
    let target = Target::from_uri("example.com:81").expect("target");
    assert_eq!(target.port, 81);
}

#[test]
fn scheme_in_upper_case_counts() {
    let target = Target::from_uri("HTTP://example.com/").expect("target");
    assert_eq!(target.port, 80);
}

#[test]
fn bracketed_host_is_kept_with_brackets() {
    let target = Target::from_uri("http://[::1]:8080/").expect("target");
    assert_eq!(target.host, "[::1]");
    assert_eq!(target.port, 8080);
}

#[test]
fn uri_without_host_is_no_authority() {
    assert_eq!(Target::from_uri("/only/a/path").unwrap_err(), FromUriError::NoAuthority);
    assert_eq!(Target::from_uri("*").unwrap_err(), FromUriError::NoAuthority);
}

#[test]
fn text_that_is_no_uri_is_invalid() {
    assert_eq!(Target::from_uri("").unwrap_err(), FromUriError::InvalidUri);
    assert_eq!(Target::from_uri("http://exa mple.com/").unwrap_err(), FromUriError::InvalidUri);
}

#[test]
fn target_from_parts() {
    let parts = UriParts { scheme: Some("https".to_string()), host: Some("h".to_string()), port: None };
    let target = Target::from_parts(&parts).expect("target");
    assert_eq!((target.host.as_str(), target.port), ("h", 443));
    let parts = UriParts { scheme: Some("https".to_string()), host: None, port: Some(1) };
    assert_eq!(Target::from_parts(&parts).unwrap_err(), FromUriError::NoAuthority);
    let parts = UriParts { scheme: None, host: Some("h".to_string()), port: Some(7) };
    assert_eq!(Target::from_parts(&parts).expect("target").port, 7);
}

#[test]
fn default_port_by_scheme() {
    assert_eq!(default_port(&Some("http".to_string())), 80);
    assert_eq!(default_port(&Some("https".to_string())), 443);
    assert_eq!(default_port(&Some("httpx".to_string())), 0);
    assert_eq!(default_port(&Some("".to_string())), 0);
    assert_eq!(default_port(&None), 0);
}

#[test]
fn same_text_compares_whole_strings() {
    assert!(same_text("http", "http"));
    assert!(same_text("", ""));
    assert!(!same_text("http", "https"));
    assert!(!same_text("http", "httq"));
    assert!(same_text("h\u{e9}", "h\u{e9}"));
}

#[test]
fn first_resolved_address_becomes_the_key() {
    let a = SocketAddress::V4 { ip: 1, port: 80 };
    let b = SocketAddress::V4 { ip: 2, port: 80 };
    assert_eq!(UnifiedL4Addr::from_resolved(&[a, b]).expect("key"), UnifiedL4Addr::Tcp(a));
    assert_eq!(UnifiedL4Addr::from_resolved(&[b]).expect("key"), UnifiedL4Addr::Tcp(b));
}

#[test]
fn no_address_is_no_resolve() {
    assert_eq!(UnifiedL4Addr::from_resolved(&[]).unwrap_err(), FromUriError::NoResolve);
    assert_ne!(FromUriError::NoResolve, FromUriError::NoAuthority);
}

#[test]
fn keys_are_equal_by_what_they_hold() {
    let a = UnifiedL4Addr::Tcp(SocketAddress::V4 { ip: 1, port: 80 });
    let b = UnifiedL4Addr::Tcp(SocketAddress::V4 { ip: 1, port: 80 });
    let c = UnifiedL4Addr::Tcp(SocketAddress::V4 { ip: 1, port: 81 });
    let d = UnifiedL4Addr::Unix("/run/a.sock".to_string());
    let e = UnifiedL4Addr::Unix("/run/a.sock".to_string());
    let f = UnifiedL4Addr::Unix("/run/b.sock".to_string());
    assert_eq!(a, b);
    assert_ne!(a, c);
    assert_eq!(d, e);
    assert_ne!(d, f);
    assert_ne!(a, d);
    assert_eq!(a.clone(), a);
    assert_eq!(d.clone(), d);
    assert!(a.is_tcp());
    assert!(!d.is_tcp());
}

#[test]
fn equal_keys_hash_alike() {
    let mut set = HashSet::new();
    set.insert(UnifiedL4Addr::Unix("/run/a.sock".to_string()));
    set.insert(UnifiedL4Addr::Unix("/run/a.sock".to_string()));
    set.insert(UnifiedL4Addr::Tcp(SocketAddress::V4 { ip: 1, port: 80 }));
    set.insert(UnifiedL4Addr::Tcp(SocketAddress::V4 { ip: 1, port: 80 }));
    assert_eq!(set.len(), 2);
}

