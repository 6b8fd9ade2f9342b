use bytes::Bytes;

use microsandbox_secrets::proxy::address::{
    rewrite_gateway, GatewayIps, IpAddr, SocketAddr, LOOPBACK_V4, LOOPBACK_V6,
};
use microsandbox_secrets::proxy::peek::{
    peek_for_sni, PeekEvent, PeekStep, SniPeek, PEEK_BUDGET_MS, PEEK_BUF_SIZE,
};
use microsandbox_secrets::proxy::reader::ChannelReader;
use microsandbox_secrets::proxy::socks::{
    handle_socks4, handle_socks5, read_socks5_methods, MethodsProgress, Progress, Socks4Request,
    Socks5Methods, Socks5Request, SocksHost,
};
use microsandbox_secrets::proxy::task::{
    tcp_proxy_task, EgressEvaluation, HostnameSource, ProxyAction, ProxyConfig, ProxyErrorKind,
    ProxyEvent, TcpProxy,
};
use microsandbox_secrets::proxy::tunnel::{
    dispatch_socks_tunnel, resolve_looked_up, resolve_socks_dst, TunnelPlan, HOST_ALIAS,
};

const GATEWAY_V4: u32 = 0x0a00_0001;
const GATEWAY_V6: u128 = 0xfd00_0000_0000_0000_0000_0000_0000_0001;

fn gateway() -> GatewayIps {
    GatewayIps {
        ipv4: Some(GATEWAY_V4),
        ipv6: Some(GATEWAY_V6),
    }
}

fn v4(ip: u32, port: u16) -> SocketAddr {
    SocketAddr::new(IpAddr::V4(ip), port)
}

fn config(has_domain_rules: bool) -> ProxyConfig {
    ProxyConfig {
        guest_dst: v4(GATEWAY_V4, 8080),
        connect_dst: v4(LOOPBACK_V4, 8080),
        has_domain_rules,
        intercepted_ports: Some(vec![443, 8443]),
        gateway: gateway(),
    }
}

fn chunk(bytes: &[u8]) -> ProxyEvent {
    ProxyEvent::Chunk(Bytes::copy_from_slice(bytes))
}

fn step(proxy: TcpProxy, event: ProxyEvent) -> (TcpProxy, ProxyAction) {
    assert!(proxy.accepts(&event));
    tcp_proxy_task(proxy, event)
}

fn client_hello(sni: &str) -> Vec<u8> {
    let host = sni.as_bytes();
    let host_len = host.len() as u16;
    let list_len = 3 + host_len;
    let data_len = 2 + list_len;
    let extensions_len = 4 + data_len;

    let mut body = vec![0x03, 0x03];
    body.extend_from_slice(&[0u8; 32]);
    body.push(0);
    body.extend_from_slice(&[0x00, 0x02, 0x00, 0x2f]);
    body.extend_from_slice(&[0x01, 0x00]);
    body.extend_from_slice(&extensions_len.to_be_bytes());
    body.extend_from_slice(&[0x00, 0x00]);
    body.extend_from_slice(&data_len.to_be_bytes());
    body.extend_from_slice(&list_len.to_be_bytes());
    body.push(0x00);
    body.extend_from_slice(&host_len.to_be_bytes());
    body.extend_from_slice(host);

    let mut handshake = vec![0x01];
    handshake.extend_from_slice(&(body.len() as u32).to_be_bytes()[1..]);
    handshake.extend_from_slice(&body);

    let mut record = vec![0x16, 0x03, 0x01];
    record.extend_from_slice(&(handshake.len() as u16).to_be_bytes());
    record.extend_from_slice(&handshake);
    record
}

fn data(bytes: &[u8]) -> PeekEvent {
    PeekEvent::Data(Bytes::copy_from_slice(bytes))
}

fn done(step: PeekStep) -> (Vec<u8>, Option<String>) {
    match step {
        PeekStep::Done { buf, sni } => (buf, sni),
        _ => panic!("the peek goes on"),
    }
}

#[test]
fn peek_for_sni_extracts_and_canonicalizes() {
    let hello = client_hello("Example.COM");
    let peek = match peek_for_sni(SniPeek::new(PEEK_BUF_SIZE), data(&hello)) {
        PeekStep::Extract(peek) => peek,
        _ => panic!("a handshake is looked into"),
    };
    assert_eq!(peek.buffered(), &hello[..]);
    let name = PeekEvent::Extracted(Some("Example.COM".to_string()));
    let (buf, sni) = done(peek_for_sni(peek, name));
    assert_eq!(sni.as_deref(), Some("example.com"));
    assert_eq!(buf, hello);
}

#[test]
fn peek_for_sni_returns_none_on_channel_close_without_data() {
    let (buf, sni) = done(peek_for_sni(SniPeek::new(PEEK_BUF_SIZE), PeekEvent::Closed));
    assert!(buf.is_empty());
    assert_eq!(sni, None);
}

#[test]
fn peek_for_sni_returns_none_on_non_tls_data() {
    let (buf, sni) = done(peek_for_sni(
        SniPeek::new(PEEK_BUF_SIZE),
        data(b"GET / HTTP/1.1\r\nHost: example.com\r\n\r\n"),
    ));
    assert!(
        !buf.is_empty(),
        "buffered bytes must be returned for replay"
    );
    assert_eq!(sni, None);
}

#[test]
fn peek_for_sni_falls_back_on_timeout() {
    let (buf, sni) = done(peek_for_sni(SniPeek::new(PEEK_BUF_SIZE), PeekEvent::Expired));
    assert!(buf.is_empty());
    assert_eq!(sni, None);
    assert_eq!(PEEK_BUDGET_MS, 5000);
}

#[test]
fn peek_for_sni_caps_at_max_bytes() {
    let mut first = vec![0u8; 8192];
    first[0] = 0x16;
    let mut peek = SniPeek::new(PEEK_BUF_SIZE);
    let mut chunks = vec![first, vec![0u8; 8192], vec![0u8; 8192]].into_iter();
    let (buf, sni) = loop {
        peek = match peek_for_sni(peek, data(&chunks.next().expect("under the cap"))) {
            PeekStep::Extract(peek) => peek,
            _ => panic!("a handshake is looked into"),
        };
        match peek_for_sni(peek, PeekEvent::Extracted(None)) {
            PeekStep::Recv(next) => peek = next,
            PeekStep::Done { buf, sni } => break (buf, sni),
            PeekStep::Extract(_) => panic!("already looked"),
        }
    };
    assert_eq!(sni, None, "no SNI in non-TLS data");
    assert!(
        buf.len() >= PEEK_BUF_SIZE,
        "buffer must hit the cap before bail-out: got {}",
        buf.len()
    );
    assert_eq!(chunks.len(), 1);
}

#[test]
fn peek_for_sni_bails_immediately_on_non_tls_first_byte() {
    let (buf, sni) = done(peek_for_sni(
        SniPeek::new(PEEK_BUF_SIZE),
        data(b"GET / HTTP/1.1\r\nHost: x\r\n\r\n"),
    ));
    assert_eq!(sni, None);
    assert!(buf.starts_with(b"GET"));
}

#[test]
fn a_server_name_loses_its_case_and_all_its_final_dots() {
    let peek = match peek_for_sni(SniPeek::new(10), data(&[0x16])) {
        PeekStep::Extract(peek) => peek,
        _ => panic!("a handshake is looked into"),
    };
    let name = PeekEvent::Extracted(Some("Ex\u{c4}.Com..".to_string()));
    let (_, sni) = done(peek_for_sni(peek, name));
    assert_eq!(sni.as_deref(), Some("ex\u{c4}.com"));
}

#[test]
fn a_reader_hands_out_its_chunk_in_order() {
    let mut reader = ChannelReader::new();
    assert_eq!(reader.read_u8(), None);
    reader.supply(Bytes::copy_from_slice(b"\x01ab\x00cd"));
    assert_eq!(reader.read_u8(), Some(1));
    let mut user = Vec::new();
    assert!(reader.read_nul_string(&mut user));
    assert_eq!(user, b"ab");
    let mut rest = vec![9];
    assert!(!reader.read_exact(&mut rest, 4));
    assert_eq!(rest, b"\x09cd");
    reader.supply(Bytes::copy_from_slice(b"ef"));
    assert!(reader.read_exact(&mut rest, 4));
    assert_eq!(rest, b"\x09cde");
    assert_eq!(&reader.into_parts()[..], b"f");
}

#[test]
fn a_nul_string_may_come_in_pieces() {
    let mut reader = ChannelReader::new();
    let mut string = Vec::new();
    reader.supply(Bytes::copy_from_slice(b"ab"));
    assert!(!reader.read_nul_string(&mut string));
    reader.supply(Bytes::copy_from_slice(b"c\x00d"));
    assert!(reader.read_nul_string(&mut string));
    assert_eq!(string, b"abc");
    assert_eq!(&reader.into_parts()[..], b"d");
}

fn socks4(bytes: &[u8]) -> (Progress<Socks4Request>, Vec<u8>) {
    let mut reader = ChannelReader::new();
    reader.supply(Bytes::copy_from_slice(bytes));
    let progress = handle_socks4(Socks4Request::new(), &mut reader);
    (progress, reader.into_parts().to_vec())
}

#[test]
fn a_socks4_request_names_an_address() {
    let (progress, rest) = socks4(b"\x01\x01\xbb\xc0\xa8\x00\x07user\x00inner");
    match progress {
        Progress::Granted { host, port } => {
            assert!(matches!(host, SocksHost::Ip(IpAddr::V4(0xc0a8_0007))));
            assert_eq!(port, 443);
        }
        _ => panic!("granted"),
    }
    assert_eq!(rest, b"inner");
}

#[test]
fn a_socks4a_request_names_a_domain() {
    let (progress, rest) = socks4(b"\x01\x00\x50\x00\x00\x00\x01\x00example.com\x00x");
    match progress {
        Progress::Granted { host, port } => {
            assert!(matches!(host, SocksHost::Name(ref name) if name == "example.com"));
            assert_eq!(port, 80);
        }
        _ => panic!("granted"),
    }
    assert_eq!(rest, b"x");

    // 0.0.0.0 is no marker: it is the address.
    let (progress, _) = socks4(b"\x01\x00\x50\x00\x00\x00\x00\x00");
    assert!(matches!(
        progress,
        Progress::Granted {
            host: SocksHost::Ip(IpAddr::V4(0)),
            port: 80,
        }
    ));
}

#[test]
fn socks4_refuses_other_commands_and_broken_domains() {
    let refusal = [0x00, 0x5b, 0, 0, 0, 0, 0, 0];
    match socks4(b"\x02").0 {
        Progress::Refused(reply) => assert_eq!(&reply[..], &refusal[..]),
        _ => panic!("refused"),
    }
    match socks4(b"\x01\x00\x50\x00\x00\x00\x01\x00\xff\xfe\x00").0 {
        Progress::Refused(reply) => assert_eq!(&reply[..], &refusal[..]),
        _ => panic!("refused"),
    }
}

fn socks5(bytes: &[u8]) -> (Progress<Socks5Request>, Vec<u8>) {
    let mut reader = ChannelReader::new();
    reader.supply(Bytes::copy_from_slice(bytes));
    let progress = handle_socks5(Socks5Request::new(), &mut reader);
    (progress, reader.into_parts().to_vec())
}

#[test]
fn a_socks5_request_names_an_address_or_a_domain() {
    let (progress, rest) = socks5(b"\x05\x01\x00\x01\x01\x02\x03\x04\x01\xbbrest");
    assert!(matches!(
        progress,
        Progress::Granted {
            host: SocksHost::Ip(IpAddr::V4(0x0102_0304)),
            port: 443,
        }
    ));
    assert_eq!(rest, b"rest");

    let mut request = b"\x05\x01\x00\x04".to_vec();
    request.extend_from_slice(&GATEWAY_V6.to_be_bytes());
    request.extend_from_slice(&[0x00, 0x16]);
    assert!(matches!(
        socks5(&request).0,
        Progress::Granted {
            host: SocksHost::Ip(IpAddr::V6(GATEWAY_V6)),
            port: 22,
        }
    ));

    match socks5(b"\x05\x01\x00\x03\x0bexample.com\x00\x50").0 {
        Progress::Granted { host, port } => {
            assert!(matches!(host, SocksHost::Name(ref name) if name == "example.com"));
            assert_eq!(port, 80);
        }
        _ => panic!("granted"),
    }
}

#[test]
fn socks5_refusals_say_why() {
    for (request, code) in [
        (&b"\x04\x01\x00\x01"[..], 0x07),
        (&b"\x05\x02\x00\x01"[..], 0x07),
        (&b"\x05\x01\x00\x02"[..], 0x08),
        (&b"\x05\x01\x00\x03\x02\xff\xfe"[..], 0x01),
    ] {
        match socks5(request).0 {
            Progress::Refused(reply) => {
                assert_eq!(&reply[..], &[0x05, code, 0x00, 0x01, 0, 0, 0, 0, 0, 0][..])
            }
            _ => panic!("refused"),
        }
    }
}

#[test]
fn a_socks5_offer_needs_the_method_without_authentication() {
    let offer = |bytes: &[u8]| {
        let mut reader = ChannelReader::new();
        reader.supply(Bytes::copy_from_slice(bytes));
        let progress = read_socks5_methods(Socks5Methods::new(), &mut reader);
        (progress, reader.into_parts().to_vec())
    };
    let (progress, rest) = offer(&[2, 2, 0, 5]);
    assert!(matches!(progress, MethodsProgress::Accepted));
    assert_eq!(rest, vec![5]);
    assert!(matches!(offer(&[2, 1, 2]).0, MethodsProgress::Refused));
    assert!(matches!(offer(&[0]).0, MethodsProgress::Refused));
    assert!(matches!(offer(&[2, 1]).0, MethodsProgress::NeedMore(_)));
}

#[test]
fn the_gateway_is_rewritten_to_loopback() {
    assert_eq!(
        rewrite_gateway(v4(GATEWAY_V4, 80), gateway()),
        v4(LOOPBACK_V4, 80)
    );
    let v6 = SocketAddr {
        ip: IpAddr::V6(GATEWAY_V6),
        port: 80,
        flow_info: 1,
        scope_id: 2,
    };
    assert_eq!(
        rewrite_gateway(v6, gateway()),
        SocketAddr::new(IpAddr::V6(LOOPBACK_V6), 80)
    );
    assert_eq!(rewrite_gateway(v4(7, 80), gateway()), v4(7, 80));
    let none = GatewayIps {
        ipv4: None,
        ipv6: None,
    };
    assert_eq!(rewrite_gateway(v6, none), v6);
}

#[test]
fn targets_resolve_without_a_lookup_where_they_can() {
    let name = |text: &str| SocksHost::Name(text.to_string());
    assert_eq!(
        resolve_socks_dst(&name("Host.MicroSandbox.Internal"), 443, gateway()),
        Some(v4(LOOPBACK_V4, 443))
    );
    assert_eq!(resolve_socks_dst(&name("example.com"), 443, gateway()), None);
    assert_eq!(
        resolve_socks_dst(&SocksHost::Ip(IpAddr::V4(GATEWAY_V4)), 443, gateway()),
        Some(v4(LOOPBACK_V4, 443))
    );
}

#[test]
fn a_lookup_gives_its_first_address() {
    assert_eq!(
        resolve_looked_up("h", 1, Ok(vec![v4(GATEWAY_V4, 1), v4(9, 1)]), gateway()),
        Ok(v4(LOOPBACK_V4, 1))
    );
    assert_eq!(
        resolve_looked_up("h", 65535, Ok(vec![]), gateway()),
        Err("SOCKS DNS resolve 'h:65535': no addresses".to_string())
    );
    assert_eq!(
        resolve_looked_up("h", 80, Err("timed out".to_string()), gateway()),
        Err("SOCKS DNS resolve 'h:80': timed out".to_string())
    );
}

#[test]
fn an_intercepted_tunnel_to_the_host_alias_shows_the_gateway() {
    let alias = SocksHost::Name(HOST_ALIAS.to_string());
    let dst = v4(LOOPBACK_V4, 443);
    let ports = Some(vec![443]);
    assert_eq!(
        dispatch_socks_tunnel(&alias, 443, dst, &ports, gateway()),
        TunnelPlan::Intercept {
            guest_dst: v4(GATEWAY_V4, 443),
            connect_dst: dst,
        }
    );
    let v6_only = GatewayIps {
        ipv4: None,
        ipv6: Some(GATEWAY_V6),
    };
    assert_eq!(
        dispatch_socks_tunnel(&alias, 443, dst, &ports, v6_only),
        TunnelPlan::Intercept {
            guest_dst: SocketAddr::new(IpAddr::V6(GATEWAY_V6), 443),
            connect_dst: dst,
        }
    );
    assert_eq!(
        dispatch_socks_tunnel(&alias, 80, dst, &ports, gateway()),
        TunnelPlan::Relay { connect_dst: dst }
    );
    assert_eq!(
        dispatch_socks_tunnel(&alias, 443, dst, &None, gateway()),
        TunnelPlan::Relay { connect_dst: dst }
    );
    let other = SocksHost::Name("example.com".to_string());
    assert_eq!(
        dispatch_socks_tunnel(&other, 443, v4(9, 443), &ports, gateway()),
        TunnelPlan::Intercept {
            guest_dst: v4(9, 443),
            connect_dst: v4(9, 443),
        }
    );
}

#[test]
fn plain_traffic_without_domain_rules_is_relayed() {
    let proxy = TcpProxy::new(config(false));
    assert!(!proxy.upstream_connected());
    let (proxy, action) = step(proxy, chunk(b"GET /"));
    assert!(matches!(action, ProxyAction::Dial(dst) if dst == v4(LOOPBACK_V4, 8080)));
    let (proxy, action) = step(proxy, ProxyEvent::Dialed);
    assert!(proxy.upstream_connected());
    assert!(matches!(action, ProxyAction::Write(ref bytes) if &bytes[..] == b"GET /"));
    let (proxy, action) = step(proxy, ProxyEvent::Written(true));
    assert!(matches!(action, ProxyAction::Relay));
    let (proxy, action) = step(proxy, chunk(b" HTTP"));
    assert!(matches!(action, ProxyAction::Write(ref bytes) if &bytes[..] == b" HTTP"));
    let (proxy, _) = step(proxy, ProxyEvent::Written(true));
    let (proxy, action) = step(proxy, ProxyEvent::ServerData(b"200".to_vec()));
    assert!(matches!(action, ProxyAction::Deliver(ref bytes) if &bytes[..] == b"200"));
    let (proxy, action) = step(proxy, ProxyEvent::Sent(true));
    assert!(matches!(action, ProxyAction::Relay));
    let (proxy, action) = step(proxy, ProxyEvent::ServerData(Vec::new()));
    assert!(matches!(action, ProxyAction::Finish(Ok(()))));
    assert!(!proxy.accepts(&ProxyEvent::Closed));
}

#[test]
fn a_client_hello_is_judged_by_its_server_name() {
    let hello = client_hello("Evil.com.");
    let (proxy, action) = step(TcpProxy::new(config(true)), chunk(&hello[..10]));
    assert!(matches!(action, ProxyAction::ExtractSni));
    assert_eq!(proxy.peeked(), &hello[..10]);
    let (proxy, action) = step(proxy, ProxyEvent::Sni(None));
    assert!(matches!(action, ProxyAction::RecvWithinBudget));
    assert!(proxy.peeked().is_empty());
    let (proxy, action) = step(proxy, chunk(&hello[10..]));
    assert!(matches!(action, ProxyAction::ExtractSni));
    assert_eq!(proxy.peeked(), &hello[..]);
    let (proxy, action) = step(proxy, ProxyEvent::Sni(Some("Evil.com.".to_string())));
    match action {
        ProxyAction::EvaluateEgress { dst, source } => {
            assert_eq!(dst, v4(GATEWAY_V4, 8080));
            assert!(matches!(source, HostnameSource::Sni(ref name) if name == "evil.com"));
        }
        _ => panic!("judged"),
    }
    let (proxy, action) = step(proxy, ProxyEvent::Egress(EgressEvaluation::Allow));
    assert!(matches!(action, ProxyAction::Dial(_)));
    let (_, action) = step(proxy, ProxyEvent::Dialed);
    assert!(matches!(action, ProxyAction::Write(ref bytes) if bytes[..] == hello[..]));
}

#[test]
fn a_denied_connection_is_dropped_before_it_is_dialed() {
    for verdict in [EgressEvaluation::Deny, EgressEvaluation::DeferUntilHostname] {
        let (proxy, action) = step(TcpProxy::new(config(true)), chunk(b"GET /"));
        match action {
            ProxyAction::EvaluateEgress { source, .. } => {
                assert!(matches!(source, HostnameSource::CacheOnly))
            }
            _ => panic!("judged"),
        }
        let (proxy, action) = step(proxy, ProxyEvent::Egress(verdict));
        assert!(matches!(action, ProxyAction::Finish(Ok(()))));
        assert!(!proxy.upstream_connected());
    }
}

#[test]
fn a_peek_that_takes_too_long_falls_back_to_the_cache() {
    for event in [ProxyEvent::PeekExpired, ProxyEvent::Closed] {
        let (proxy, _) = step(TcpProxy::new(config(true)), chunk(&[0x16]));
        let (proxy, _) = step(proxy, ProxyEvent::Sni(None));
        let (proxy, action) = step(proxy, event);
        assert!(matches!(
            action,
            ProxyAction::EvaluateEgress {
                source: HostnameSource::CacheOnly,
                ..
            }
        ));
        let (proxy, _) = step(proxy, ProxyEvent::Egress(EgressEvaluation::Allow));
        let (_, action) = step(proxy, ProxyEvent::Dialed);
        assert!(matches!(action, ProxyAction::Write(ref bytes) if bytes[..] == [0x16]));
    }
}

/// Drives a SOCKS handshake byte by byte, and gives the replies and what follows.
fn drive(bytes: &[u8], size: usize) -> (TcpProxy, Vec<Vec<u8>>, ProxyAction) {
    let mut proxy = TcpProxy::new(config(true));
    let mut replies = Vec::new();
    let mut pieces = bytes.chunks(size);
    let mut event = chunk(pieces.next().expect("not empty"));
    loop {
        let (next, action) = step(proxy, event);
        proxy = next;
        event = match action {
            ProxyAction::Recv => match pieces.next() {
                Some(piece) => chunk(piece),
                None => ProxyEvent::Closed,
            },
            ProxyAction::Reply(reply) => {
                replies.push(reply.to_vec());
                ProxyEvent::Sent(true)
            }
            other => return (proxy, replies, other),
        };
    }
}

#[test]
fn a_socks5_tunnel_to_an_intercepted_port_is_handed_over() {
    let handshake = b"\x05\x01\x00\x05\x01\x00\x03\x1ahost.microsandbox.internal\x01\xbb";
    for size in [1, 3, handshake.len()] {
        let (proxy, replies, action) = drive(handshake, size);
        assert_eq!(
            replies,
            vec![
                vec![0x05, 0x00],
                vec![0x05, 0x00, 0x00, 0x01, 0, 0, 0, 0, 0, 0]
            ]
        );
        match action {
            ProxyAction::Intercept {
                guest_dst,
                connect_dst,
                leftover,
            } => {
                assert_eq!(guest_dst, v4(GATEWAY_V4, 443));
                assert_eq!(connect_dst, v4(LOOPBACK_V4, 443));
                assert!(leftover.is_empty());
            }
            _ => panic!("handed over"),
        }
        assert!(!proxy.upstream_connected());
    }
}

#[test]
fn a_socks4_tunnel_replays_what_came_behind_the_handshake() {
    let (proxy, replies, action) = drive(b"\x04\x01\x00\x50\x0a\x00\x00\x01u\x00inner", 64);
    assert_eq!(replies, vec![vec![0x00, 0x5a, 0, 0, 0, 0, 0, 0]]);
    assert!(matches!(action, ProxyAction::Dial(dst) if dst == v4(LOOPBACK_V4, 80)));
    let (proxy, action) = step(proxy, ProxyEvent::Dialed);
    assert!(matches!(action, ProxyAction::Write(ref bytes) if &bytes[..] == b"inner"));
    let (_, action) = step(proxy, ProxyEvent::Written(false));
    assert!(matches!(action, ProxyAction::Finish(Ok(()))));
}

/// A tunnel stays granted whatever follows: a guest that closes, or stops listening.
#[test]
fn a_granted_tunnel_was_answered_whatever_follows() {
    let handshake = b"\x04\x01\x00\x50\x0a\x00\x00\x02\x00";
    let (proxy, replies, _) = drive(handshake, 2);
    assert_eq!(replies, vec![vec![0x00, 0x5a, 0, 0, 0, 0, 0, 0]]);
    let (proxy, action) = step(proxy, ProxyEvent::Dialed);
    assert!(matches!(action, ProxyAction::Relay));
    let (_, action) = step(proxy, ProxyEvent::Closed);
    assert!(matches!(action, ProxyAction::Finish(Ok(()))));

    let (proxy, action) = step(TcpProxy::new(config(true)), chunk(handshake));
    assert!(matches!(action, ProxyAction::Reply(ref reply) if reply[1] == 0x5a));
    let (_, action) = step(proxy, ProxyEvent::Sent(false));
    assert!(matches!(
        action,
        ProxyAction::Finish(Err(ref error)) if error.kind == ProxyErrorKind::BrokenPipe
    ));
}

#[test]
fn a_named_tunnel_is_parsed_and_looked_up() {
    let handshake = b"\x04\x01\x01\xbb\x00\x00\x00\x01\x00example.com\x00hello";
    let (proxy, _, action) = drive(handshake, 64);
    assert!(matches!(action, ProxyAction::ParseLiteral(ref host) if host == "example.com"));
    let (proxy, action) = step(proxy, ProxyEvent::Literal(None));
    assert!(matches!(
        action,
        ProxyAction::LookUp { ref host, port: 443 } if host == "example.com"
    ));
    let (_, action) = step(proxy, ProxyEvent::LookedUp(Ok(vec![v4(9, 443)])));
    match action {
        ProxyAction::Intercept {
            guest_dst,
            connect_dst,
            leftover,
        } => {
            assert_eq!(guest_dst, v4(9, 443));
            assert_eq!(connect_dst, v4(9, 443));
            assert_eq!(&leftover[..], b"hello");
        }
        _ => panic!("handed over"),
    }

    let (proxy, _, _) = drive(handshake, 64);
    let (_, action) = step(proxy, ProxyEvent::Literal(Some(IpAddr::V4(GATEWAY_V4))));
    assert!(matches!(
        action,
        ProxyAction::Intercept { connect_dst, .. } if connect_dst == v4(LOOPBACK_V4, 443)
    ));

    let (proxy, _, _) = drive(handshake, 64);
    let (proxy, _) = step(proxy, ProxyEvent::Literal(None));
    let (_, action) = step(proxy, ProxyEvent::LookedUp(Ok(vec![])));
    match action {
        ProxyAction::Finish(Err(error)) => {
            assert_eq!(error.kind, ProxyErrorKind::NotFound);
            assert_eq!(
                error.message,
                "SOCKS DNS resolve 'example.com:443': no addresses"
            );
        }
        _ => panic!("not found"),
    }
}

#[test]
fn refused_handshakes_end_the_task() {
    let (proxy, replies, action) = drive(b"\x05\x01\x02", 64);
    assert!(replies.is_empty());
    assert!(matches!(action, ProxyAction::Refuse(ref reply) if reply[..] == [0x05, 0xff]));
    assert!(!proxy.accepts(&ProxyEvent::Closed));

    let (_, _, action) = drive(b"\x04\x02", 64);
    assert!(matches!(action, ProxyAction::Refuse(ref reply) if reply[1] == 0x5b));
}

#[test]
fn broken_handshakes_are_errors() {
    let (_, _, action) = drive(b"\x05\x01", 64);
    match action {
        ProxyAction::Finish(Err(error)) => {
            assert_eq!(error.kind, ProxyErrorKind::UnexpectedEof);
            assert_eq!(error.message, "channel closed during SOCKS negotiation");
        }
        _ => panic!("the channel ended"),
    }

    let (proxy, action) = step(TcpProxy::new(config(false)), chunk(b"\x05\x01\x00"));
    assert!(matches!(action, ProxyAction::Reply(_)));
    let (_, action) = step(proxy, ProxyEvent::Sent(false));
    match action {
        ProxyAction::Finish(Err(error)) => {
            assert_eq!(error.kind, ProxyErrorKind::BrokenPipe);
            assert_eq!(error.message, "to_smoltcp closed");
        }
        _ => panic!("nobody listens"),
    }

    let (proxy, _) = step(TcpProxy::new(config(false)), chunk(b"x"));
    let reason = "Connection refused (os error 111)".to_string();
    let (proxy, action) = step(proxy, ProxyEvent::DialFailed(reason));
    match action {
        ProxyAction::Finish(Err(error)) => {
            assert_eq!(error.kind, ProxyErrorKind::Dial);
            assert_eq!(error.message, "Connection refused (os error 111)");
        }
        _ => panic!("nobody answers"),
    }
    assert!(!proxy.upstream_connected());
    assert!(!proxy.accepts(&ProxyEvent::Dialed));
}

/// A tunnel whose address cannot be dialed ends with the reason too.
#[test]
fn a_tunnel_that_cannot_be_dialed_ends_with_the_reason() {
    let (proxy, _, action) = drive(b"\x04\x01\x00\x50\x0a\x00\x00\x02\x00", 64);
    assert!(matches!(action, ProxyAction::Dial(dst) if dst == v4(0x0a00_0002, 80)));
    let (proxy, action) = step(proxy, ProxyEvent::DialFailed("no route".to_string()));
    assert!(matches!(
        action,
        ProxyAction::Finish(Err(ref error))
            if error.kind == ProxyErrorKind::Dial && error.message == "no route"
    ));
    assert!(!proxy.upstream_connected());
}

#[test]
fn an_early_end_is_no_error() {
    let (_, action) = step(TcpProxy::new(config(true)), ProxyEvent::Closed);
    assert!(matches!(action, ProxyAction::Finish(Ok(()))));
    assert!(!TcpProxy::new(config(true)).accepts(&chunk(b"")));
}
