use starina::net::packet::{IpProto, Ipv4Addr, MacAddr};
use starina::net::parser::TcpRx;
use starina::net::tcp::{TcpConnState, TcpManager, TCP_ACK, TCP_FIN, TCP_RST, TCP_SYN};
use starina::net::ConnKey;

fn key() -> ConnKey {
    ConnKey { proto: IpProto::Tcp, remote_ip: Ipv4Addr::new(10, 123, 123, 123), remote_port: 40000, guest_port: 80 }
}

fn manager() -> TcpManager {
    let mut m = TcpManager::new(
        Ipv4Addr::new(10, 255, 0, 100),
        MacAddr::new([0, 0, 0, 0, 0, 1]),
        MacAddr::new([0, 0, 0, 0, 0, 2]),
    );
    m.connect_to_guest(key());
    m
}

fn segment(flags: u8, seq_num: u32, payload: &[u8]) -> TcpRx {
    TcpRx {
        src_ip: Ipv4Addr::new(10, 255, 0, 100),
        dst_ip: Ipv4Addr::new(10, 123, 123, 123),
        src_port: 80,
        dst_port: 40000,
        seq_num,
        ack_num: 2,
        flags,
        payload: payload.to_vec(),
    }
}

#[test]
fn new_connection_sends_syn() {
    let m = manager();
    assert_eq!(m.connections.len(), 1);
    assert_eq!(m.connections[0].1.state, TcpConnState::SynSent);
    assert_eq!(m.connections[0].1.pending_flags, TCP_SYN);
    assert!(m.has_connection(&key()));
}

#[test]
fn syn_ack_establishes() {
    let mut m = manager();
    assert!(m.handle_tcp_packet(&segment(TCP_SYN | TCP_ACK, 1000, &[])).is_none());
    let c = &m.connections[0].1;
    assert_eq!(c.state, TcpConnState::Established);
    assert_eq!(c.ack, 1001);
    assert_ne!(c.pending_flags & TCP_ACK, 0);
}

#[test]
fn reset_closes() {
    let mut m = manager();
    m.handle_tcp_packet(&segment(TCP_RST, 0, &[]));
    assert_eq!(m.connections[0].1.state, TcpConnState::Closed);
    let mut m = manager();
    m.handle_tcp_packet(&segment(TCP_SYN | TCP_ACK, 1000, &[]));
    assert!(m.handle_tcp_packet(&segment(TCP_RST | TCP_ACK, 1001, b"ignored")).is_none());
    assert_eq!(m.connections[0].1.state, TcpConnState::Closed);
}

#[test]
fn data_is_handed_on_and_acknowledged() {
    let mut m = manager();
    m.handle_tcp_packet(&segment(TCP_SYN | TCP_ACK, 1000, &[]));
    let (k, d) = m.handle_tcp_packet(&segment(TCP_ACK, 1001, b"hello")).unwrap();
    assert!(k.same_as(&key()));
    assert_eq!(d, b"hello".to_vec());
    assert_eq!(m.connections[0].1.ack, 1006);
}

#[test]
fn closed_connection_ignores_segments() {
    let mut m = manager();
    m.handle_tcp_packet(&segment(TCP_RST, 0, &[]));
    let before = (m.connections[0].1.ack, m.connections[0].1.pending_flags);
    assert!(m.handle_tcp_packet(&segment(TCP_SYN | TCP_ACK, 5000, b"data")).is_none());
    assert_eq!(m.connections[0].1.state, TcpConnState::Closed);
    assert_eq!((m.connections[0].1.ack, m.connections[0].1.pending_flags), before);
}

#[test]
fn fin_handshake_closes() {
    let mut m = manager();
    m.handle_tcp_packet(&segment(TCP_SYN | TCP_ACK, 1000, &[]));
    m.handle_tcp_packet(&segment(TCP_FIN | TCP_ACK, 1001, &[]));
    assert_eq!(m.connections[0].1.state, TcpConnState::FinWait1);
    assert_eq!(m.connections[0].1.ack, 1002);
    m.handle_tcp_packet(&segment(TCP_ACK, 1002, &[]));
    assert_eq!(m.connections[0].1.state, TcpConnState::FinWait2);
    m.handle_tcp_packet(&segment(TCP_FIN, 1002, &[]));
    assert_eq!(m.connections[0].1.state, TcpConnState::Closed);
}

#[test]
fn segment_for_unknown_connection_is_dropped() {
    let mut m = manager();
    let mut s = segment(TCP_SYN | TCP_ACK, 1000, b"x");
    s.dst_port = 40001;
    assert!(m.handle_tcp_packet(&s).is_none());
    assert_eq!(m.connections[0].1.state, TcpConnState::SynSent);
}
