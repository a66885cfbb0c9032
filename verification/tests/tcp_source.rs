use ingest_core::exec::Telemetry;
use ingest_core::tcp::{
    accept_step, conn_step, frame_plan, parse_systemd_fd, AcceptEvent, AcceptState,
    AddrParseError, ConnEvent, ConnState, FrameAction, ListenerRequest, listener_request,
    OpenGauge, SockAddrV4, SocketListenAddr,
};

#[test]
fn parse_socket_listen_addr() {
    let test = ingest_core::tcp::parse_socket_listen_addr("127.1.2.3:1234").unwrap();
    assert_eq!(
        test,
        SocketListenAddr::SocketAddr(SockAddrV4 { a: 127, b: 1, c: 2, d: 3, port: 1234 })
    );
    let test = ingest_core::tcp::parse_socket_listen_addr("systemd").unwrap();
    assert_eq!(test, SocketListenAddr::SystemdFd(0));
    let test = ingest_core::tcp::parse_socket_listen_addr("systemd#3").unwrap();
    assert_eq!(test, SocketListenAddr::SystemdFd(2));
}

#[test]
fn parse_rejects_systemd_index_zero() {
    assert_eq!(ingest_core::tcp::parse_socket_listen_addr("systemd#0"), Err(AddrParseError::SystemdIndexZero));
    assert_eq!(
        AddrParseError::SystemdIndexZero.message(),
        "systemd indices start from 1, found 0"
    );
}

#[test]
fn parse_rejects_other_strings() {
    assert_eq!(ingest_core::tcp::parse_socket_listen_addr("http://x"), Err(AddrParseError::NotSystemd));
    assert_eq!(AddrParseError::NotSystemd.message(), "must start with \"systemd\"");
    assert_eq!(ingest_core::tcp::parse_socket_listen_addr(""), Err(AddrParseError::NotSystemd));
    assert_eq!(ingest_core::tcp::parse_socket_listen_addr("systemd#"), Err(AddrParseError::SystemdIndexInvalid));
    assert_eq!(ingest_core::tcp::parse_socket_listen_addr("systemd#x"), Err(AddrParseError::SystemdIndexInvalid));
    assert_eq!(
        ingest_core::tcp::parse_socket_listen_addr("systemd#99999999999999999999999999"),
        Err(AddrParseError::SystemdIndexInvalid)
    );
}

#[test]
fn parse_systemd_fd_accepts_indices() {
    assert_eq!(parse_systemd_fd("systemd"), Ok(0));
    assert_eq!(parse_systemd_fd("systemd#1"), Ok(0));
    assert_eq!(parse_systemd_fd("systemd#2"), Ok(1));
    // leading zeros are digits too, as in a plain integer parse
    assert_eq!(parse_systemd_fd("systemd#007"), Ok(6));
    // the largest index that fits
    assert_eq!(parse_systemd_fd("systemd#18446744073709551615"), Ok(usize::MAX - 1));
    assert_eq!(
        parse_systemd_fd("systemd#18446744073709551616"),
        Err(AddrParseError::SystemdIndexInvalid)
    );
}

#[test]
fn hostname_lookup_is_callable() {
    // machine-dependent: only that the call completes is checked
    let _ = ingest_core::event::get_hostname();
}

#[test]
fn parse_socket_addr_forms() {
    assert_eq!(
        ingest_core::tcp::parse_socket_listen_addr("0.0.0.0:9000").unwrap(),
        SocketListenAddr::SocketAddr(SockAddrV4 { a: 0, b: 0, c: 0, d: 0, port: 9000 })
    );
    // out-of-range octets and ports are no socket address, hence rejected
    assert_eq!(ingest_core::tcp::parse_socket_listen_addr("256.0.0.1:80"), Err(AddrParseError::NotSystemd));
    assert_eq!(ingest_core::tcp::parse_socket_listen_addr("1.2.3.4:65536"), Err(AddrParseError::NotSystemd));
    assert_eq!(ingest_core::tcp::parse_socket_listen_addr("1.2.3:80"), Err(AddrParseError::NotSystemd));
    assert_eq!(ingest_core::tcp::parse_socket_listen_addr("01.2.3.4:80"), Err(AddrParseError::NotSystemd));
    assert_eq!(ingest_core::tcp::parse_socket_listen_addr("1.2.3.4"), Err(AddrParseError::NotSystemd));
}

#[test]
fn listener_request_follows_address() {
    let addr = SocketListenAddr::SocketAddr(SockAddrV4 { a: 127, b: 0, c: 0, d: 1, port: 80 });
    assert_eq!(
        listener_request(&addr),
        ListenerRequest::Bind(SockAddrV4 { a: 127, b: 0, c: 0, d: 1, port: 80 })
    );
    assert_eq!(
        listener_request(&SocketListenAddr::SystemdFd(2)),
        ListenerRequest::TakeFd(2)
    );
}

#[test]
fn listen_addr_from_socket_addr() {
    let a = SockAddrV4 { a: 10, b: 0, c: 0, d: 7, port: 9000 };
    assert_eq!(SocketListenAddr::from(a), SocketListenAddr::SocketAddr(a));
}

#[test]
fn gauge_counts_open_connections() {
    let mut gauge = OpenGauge::new();
    assert_eq!(gauge.count, 0);
    match gauge.open() {
        Telemetry::ConnectionOpen { count } => assert_eq!(count, 1),
        other => panic!("unexpected telemetry: {:?}", other),
    }
    match gauge.open() {
        Telemetry::ConnectionOpen { count } => assert_eq!(count, 2),
        other => panic!("unexpected telemetry: {:?}", other),
    }
    gauge.close();
    assert_eq!(gauge.count, 1);
}

#[test]
fn accept_stops_on_shutdown() {
    // shutdown is honored at the very next loop head, whatever else arrives
    let d = accept_step(AcceptState::Accepting, &AcceptEvent::Shutdown);
    assert_eq!(d.next, AcceptState::Stopped);
    assert!(!d.spawn_handler);

    let d = accept_step(AcceptState::Accepting, &AcceptEvent::Accepted);
    assert_eq!(d.next, AcceptState::Accepting);
    assert!(d.spawn_handler);

    let d = accept_step(AcceptState::Accepting, &AcceptEvent::AcceptFailed("oops".to_owned()));
    assert_eq!(d.next, AcceptState::Accepting);
    assert!(!d.spawn_handler);

    let d = accept_step(AcceptState::Stopped, &AcceptEvent::Accepted);
    assert_eq!(d.next, AcceptState::Stopped);
    assert!(!d.spawn_handler);
}

#[test]
fn connection_handshake_and_drain() {
    let d = conn_step(ConnState::Handshake, &ConnEvent::HandshakeOk);
    assert_eq!(d.next, ConnState::Reading);

    let d = conn_step(ConnState::Handshake, &ConnEvent::HandshakeFailed("bad cert".to_owned()));
    assert_eq!(d.next, ConnState::Closed);
    match d.telemetry {
        Some(Telemetry::TcpSocketConnectionError { error }) => assert_eq!(error, "bad cert"),
        other => panic!("unexpected telemetry: {:?}", other),
    }

    let d = conn_step(ConnState::Handshake, &ConnEvent::Shutdown { established: false });
    assert_eq!(d.next, ConnState::Closed);

    let d = conn_step(ConnState::Reading, &ConnEvent::Shutdown { established: true });
    assert_eq!(d.next, ConnState::Draining);
    assert!(d.shutdown_write_half);

    let d = conn_step(ConnState::Reading, &ConnEvent::Shutdown { established: false });
    assert_eq!(d.next, ConnState::Closed);

    let d = conn_step(ConnState::Draining, &ConnEvent::Frame { n_events: 1 });
    assert_eq!(d.next, ConnState::Draining);
    assert!(d.process_frame);

    let d = conn_step(ConnState::Draining, &ConnEvent::TripwireFired);
    assert_eq!(d.next, ConnState::Closed);
}

#[test]
fn connection_read_loop_outcomes() {
    let d = conn_step(ConnState::Reading, &ConnEvent::Frame { n_events: 2 });
    assert_eq!(d.next, ConnState::Reading);
    assert!(d.process_frame);

    let d = conn_step(ConnState::Reading, &ConnEvent::FrameError { can_continue: true });
    assert_eq!(d.next, ConnState::Reading);
    assert!(!d.process_frame);

    let d = conn_step(ConnState::Reading, &ConnEvent::FrameError { can_continue: false });
    assert_eq!(d.next, ConnState::Closed);

    let d = conn_step(ConnState::Reading, &ConnEvent::PeerClosed);
    assert_eq!(d.next, ConnState::Closed);

    let d = conn_step(ConnState::Reading, &ConnEvent::AckWriteFailed("broken pipe".to_owned()));
    assert_eq!(d.next, ConnState::Closed);
    match d.telemetry {
        Some(Telemetry::TcpSendAckError { error }) => assert_eq!(error, "broken pipe"),
        other => panic!("unexpected telemetry: {:?}", other),
    }

    let d = conn_step(ConnState::Reading, &ConnEvent::DownstreamClosed);
    assert_eq!(d.next, ConnState::Closed);
}

#[test]
fn frame_plan_orders_acks_after_sends() {
    let plan = frame_plan(4, 3);
    assert_eq!(
        plan,
        vec![
            FrameAction::Send { frame: 4, event: 0 },
            FrameAction::WriteAck { frame: 4 },
            FrameAction::Send { frame: 4, event: 1 },
            FrameAction::WriteAck { frame: 4 },
            FrameAction::Send { frame: 4, event: 2 },
            FrameAction::WriteAck { frame: 4 },
        ]
    );
    assert_eq!(frame_plan(0, 0), vec![]);
}
