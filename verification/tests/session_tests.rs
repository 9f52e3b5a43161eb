use ws_core::conn::{run_session, Connection, Phase};
use ws_core::frame::{Frame, Opcode};
use ws_core::handshake::{accept_key_value, negotiate, HandshakeOutcome, HandshakeRequest, Header};

fn frame(opcode: Opcode, payload: &[u8]) -> Frame {
    Frame { fin: true, opcode, payload: payload.to_vec() }
}

#[test]
fn ping_answered_by_one_pong() {
    let mut c = Connection::new();
    assert_eq!(c.phase, Phase::Open);
    let reply = c.on_frame(&frame(Opcode::Ping, b"abc"));
    let p = reply.expect("a ping earns a pong");
    assert_eq!(p.opcode, Opcode::Pong);
    assert!(p.fin);
    assert_eq!(p.payload, b"abc".to_vec());
    assert_eq!(c.phase, Phase::Open);
}

#[test]
fn ping_empty_payload_echoed() {
    let mut c = Connection::new();
    let p = c.on_frame(&frame(Opcode::Ping, b"")).expect("a ping earns a pong");
    assert_eq!(p.opcode, Opcode::Pong);
    assert_eq!(p.payload, Vec::<u8>::new());
}

#[test]
fn ping_longest_control_payload_echoed() {
    let payload = vec![0xAB; 125];
    let mut c = Connection::new();
    let p = c.on_frame(&frame(Opcode::Ping, &payload)).expect("a ping earns a pong");
    assert_eq!(p.payload, payload);
}

#[test]
fn data_frames_consumed_without_reply() {
    let mut c = Connection::new();
    for op in [Opcode::Text, Opcode::Binary, Opcode::Pong, Opcode::Continuation, Opcode::Reserved]
    {
        assert!(c.on_frame(&frame(op, b"x")).is_none());
        assert_eq!(c.phase, Phase::Open);
    }
}

#[test]
fn close_echoed_then_closed() {
    let mut c = Connection::new();
    let reply = c.on_frame(&frame(Opcode::Close, b"\x03\xe8bye"));
    let e = reply.expect("a close earns a close echo");
    assert_eq!(e.opcode, Opcode::Close);
    assert_eq!(e.payload, b"\x03\xe8bye".to_vec());
    assert_eq!(c.phase, Phase::ClosingRemote);
    c.close_sent();
    assert_eq!(c.phase, Phase::Closed);
    assert!(c.is_closed());
}

#[test]
fn initiate_close_then_peer_close() {
    let mut c = Connection::new();
    let f = c.initiate_close();
    assert_eq!(f.opcode, Opcode::Close);
    assert_eq!(f.payload, Vec::<u8>::new());
    assert_eq!(c.phase, Phase::ClosingLocal);
    let reply = c.on_frame(&frame(Opcode::Close, b""));
    assert!(reply.is_none());
    assert_eq!(c.phase, Phase::Closed);
}

#[test]
fn transport_failure_closes() {
    let mut c = Connection::new();
    c.transport_failed();
    assert_eq!(c.phase, Phase::Closed);
}

#[test]
fn session_close_terminates_reading() {
    let inputs = vec![
        frame(Opcode::Ping, b"a"),
        frame(Opcode::Close, b"bye"),
        frame(Opcode::Ping, b"never-read"),
    ];
    let (sent, reads, conn) = run_session(&inputs);
    assert_eq!(reads, 2);
    assert_eq!(conn.phase, Phase::Closed);
    assert_eq!(sent.len(), 2);
    assert_eq!(sent[0].opcode, Opcode::Pong);
    assert_eq!(sent[0].payload, b"a".to_vec());
    assert_eq!(sent[1].opcode, Opcode::Close);
    assert_eq!(sent[1].payload, b"bye".to_vec());
    let closes = sent.iter().filter(|f| f.opcode == Opcode::Close).count();
    assert_eq!(closes, 1);
}

#[test]
fn session_without_close_reads_all() {
    let inputs = vec![
        frame(Opcode::Ping, b"one"),
        frame(Opcode::Text, b"ignored"),
        frame(Opcode::Ping, b"two"),
    ];
    let (sent, reads, conn) = run_session(&inputs);
    assert_eq!(reads, 3);
    assert_eq!(conn.phase, Phase::Open);
    assert_eq!(sent.len(), 2);
    assert_eq!(sent[0].payload, b"one".to_vec());
    assert_eq!(sent[1].payload, b"two".to_vec());
    assert!(sent.iter().all(|f| f.opcode == Opcode::Pong));
}

#[test]
fn two_connections_do_not_cross_talk() {
    let ins_a = vec![frame(Opcode::Ping, b"a1"), frame(Opcode::Ping, b"a2")];
    let ins_b = vec![frame(Opcode::Ping, b"b1"), frame(Opcode::Ping, b"b2")];
    let mut ca = Connection::new();
    let mut cb = Connection::new();
    let mut out_a: Vec<Frame> = Vec::new();
    let mut out_b: Vec<Frame> = Vec::new();
    // Interleave the two connections' frames as concurrent delivery would.
    for i in 0..2 {
        out_a.push(ca.on_frame(&ins_a[i]).expect("pong"));
        out_b.push(cb.on_frame(&ins_b[i]).expect("pong"));
    }
    assert_eq!(out_a[0].payload, b"a1".to_vec());
    assert_eq!(out_a[1].payload, b"a2".to_vec());
    assert_eq!(out_b[0].payload, b"b1".to_vec());
    assert_eq!(out_b[1].payload, b"b2".to_vec());
}

#[test]
fn end_to_end_upgrade_ping_close() {
    // Handshake with a fresh 16-byte key.
    let key = b"AAECAwQFBgcICQoLDA0ODw==".to_vec();
    let req = HandshakeRequest {
        method: b"GET".to_vec(),
        path: b"/".to_vec(),
        version_major: 1,
        version_minor: 1,
        headers: vec![
            Header { name: b"Upgrade".to_vec(), value: b"websocket".to_vec() },
            Header { name: b"Connection".to_vec(), value: b"Upgrade".to_vec() },
            Header { name: b"Sec-WebSocket-Key".to_vec(), value: key.clone() },
            Header { name: b"Sec-WebSocket-Version".to_vec(), value: b"13".to_vec() },
        ],
    };
    let accept_key = match negotiate(&req) {
        HandshakeOutcome::Accepted { accept_key } => accept_key,
        HandshakeOutcome::Rejected { .. } => panic!("valid upgrade was rejected"),
    };
    assert_eq!(accept_key, accept_key_value(&key));
    // Ping then Close over the upgraded connection.
    let inputs = vec![frame(Opcode::Ping, b"abc"), frame(Opcode::Close, b"")];
    let (sent, reads, conn) = run_session(&inputs);
    assert_eq!(reads, 2);
    assert_eq!(sent.len(), 2);
    assert_eq!(sent[0].opcode, Opcode::Pong);
    assert_eq!(sent[0].payload, b"abc".to_vec());
    assert_eq!(sent[1].opcode, Opcode::Close);
    assert_eq!(conn.phase, Phase::Closed);
}
