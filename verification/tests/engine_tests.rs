//! The library's router driven by the real protocol engine: handshake
//! datagrams built by a real client are fed to a server endpoint, and the
//! engine's outcomes are dispatched through the EventRouter.

use std::sync::Arc;
use std::time::Instant;

use quinn_proto::{ClientConfig, DatagramEvent, Endpoint, EndpointConfig};

use quic_monitor::credential::{mint_credential, server_config_for, ServerCredential};
use quic_monitor::router::{Disposition, EngineOutcome, EventRouter};

fn server_endpoint(cred: &ServerCredential) -> Endpoint {
    let server_config = server_config_for(cred).expect("server config from minted credential");
    Endpoint::new(
        Arc::new(EndpointConfig::default()),
        Some(Arc::new(server_config)),
        false,
        None,
    )
}

fn client_config(cred: &ServerCredential) -> ClientConfig {
    let mut roots = rustls::RootCertStore::empty();
    roots
        .add(rustls::pki_types::CertificateDer::from(cred.cert_der.clone()))
        .expect("minted certificate is a valid trust anchor");
    ClientConfig::with_root_certificates(Arc::new(roots)).expect("client config")
}

/// One handshake-initiating datagram addressed to `server_addr`, as a real
/// client of the protocol would send it.
fn initial_datagram(cred: &ServerCredential, server_addr: &str) -> Vec<u8> {
    let mut client = Endpoint::new(Arc::new(EndpointConfig::default()), None, false, None);
    let now = Instant::now();
    let (_ch, mut conn) = client
        .connect(now, client_config(cred), server_addr.parse().expect("address"), "monitor.local")
        .expect("client connect");
    let mut buf = Vec::new();
    let transmit = conn.poll_transmit(now, 1, &mut buf).expect("initial datagram");
    buf.truncate(transmit.size);
    buf
}

#[test]
fn fresh_handshake_yields_one_new_connection_then_events() {
    let cred = mint_credential().expect("credential");
    let mut server = server_endpoint(&cred);
    let mut router = EventRouter::new();

    let peer = "10.0.0.1:50000".parse().expect("address");
    let datagram = initial_datagram(&cred, "127.0.0.1:4433");

    let now = Instant::now();
    let mut response_buf = Vec::new();
    let event = server
        .handle(now, peer, None, None, datagram.as_slice().into(), &mut response_buf)
        .expect("the first handshake datagram produces an outcome");
    let incoming = match event {
        DatagramEvent::NewConnection(incoming) => incoming,
        _ => panic!("expected a new connection"),
    };
    assert_eq!(router.dispatch(Some(EngineOutcome::NewConnection)), Disposition::Admit);
    let mut accept_buf = Vec::new();
    let (ch, _conn) = server
        .accept(incoming, now, &mut accept_buf, None)
        .expect("admission succeeds");
    assert!(router.confirm_admitted(ch.0 as u64));
    assert_eq!(router.connection_count(), 1);

    // the same datagram again belongs to the admitted connection: it never
    // yields another new-connection outcome
    let mut response_buf2 = Vec::new();
    match server.handle(now, peer, None, None, datagram.as_slice().into(), &mut response_buf2) {
        Some(DatagramEvent::NewConnection(_)) => {
            panic!("a duplicate datagram must not open a second connection")
        }
        Some(DatagramEvent::ConnectionEvent(handle, _event)) => {
            let d = router.dispatch(Some(EngineOutcome::ConnectionEvent {
                handle: handle.0 as u64,
                closes: false,
            }));
            assert_eq!(d, Disposition::Forwarded { handle: handle.0 as u64 });
        }
        Some(DatagramEvent::Response(_)) => {
            assert_eq!(
                router.dispatch(Some(EngineOutcome::Response)),
                Disposition::TransmitRequested,
            );
        }
        None => {
            assert_eq!(router.dispatch(None), Disposition::Absorbed);
        }
    }
    assert_eq!(router.connection_count(), 1);
}

#[test]
fn two_remote_addresses_yield_two_distinct_handles() {
    let cred = mint_credential().expect("credential");
    let mut server = server_endpoint(&cred);
    let mut router = EventRouter::new();

    let peers = ["10.0.0.1:50000", "10.0.0.2:50001"];
    let mut handles = Vec::new();
    for peer_text in peers {
        let peer = peer_text.parse().expect("address");
        let datagram = initial_datagram(&cred, "127.0.0.1:4433");
        let now = Instant::now();
        let mut response_buf = Vec::new();
        let event = server
            .handle(now, peer, None, None, datagram.as_slice().into(), &mut response_buf)
            .expect("handshake datagram produces an outcome");
        let incoming = match event {
            DatagramEvent::NewConnection(incoming) => incoming,
            _ => panic!("expected a new connection"),
        };
        assert_eq!(router.dispatch(Some(EngineOutcome::NewConnection)), Disposition::Admit);
        let mut accept_buf = Vec::new();
        let (ch, _conn) = server
            .accept(incoming, now, &mut accept_buf, None)
            .expect("admission succeeds");
        assert!(router.confirm_admitted(ch.0 as u64));
        handles.push(ch.0 as u64);
    }
    assert_ne!(handles[0], handles[1]);
    assert!(router.contains_handle(handles[0]));
    assert!(router.contains_handle(handles[1]));
    assert_eq!(router.connection_count(), 2);
}

#[test]
fn refusal_produces_no_entry_and_a_response() {
    let cred = mint_credential().expect("credential");
    let mut server = server_endpoint(&cred);
    let mut router = EventRouter::new();
    router.begin_shutdown();

    let peer = "10.0.0.9:50009".parse().expect("address");
    let datagram = initial_datagram(&cred, "127.0.0.1:4433");

    let now = Instant::now();
    let mut response_buf = Vec::new();
    let event = server
        .handle(now, peer, None, None, datagram.as_slice().into(), &mut response_buf)
        .expect("handshake datagram produces an outcome");
    let incoming = match event {
        DatagramEvent::NewConnection(incoming) => incoming,
        _ => panic!("expected a new connection"),
    };
    assert_eq!(router.dispatch(Some(EngineOutcome::NewConnection)), Disposition::Refused);
    // the engine answers a refusal with a datagram for the peer
    let transmit = server.refuse(incoming, &mut response_buf);
    assert_eq!(transmit.destination, peer);
    assert_eq!(router.connection_count(), 0);
}
