use amqp_client::amq_channel::ChanState;
use amqp_client::connection::{AmqConnection, ConnState, Connection};
use amqp_client::error::AmqError;
use amqp_client::frame::{Method, MethodFrame, PROTOCOL_HEADER};
use amqp_client::transport::Transport;

fn start_frame() -> MethodFrame {
    MethodFrame {
        chan: 0,
        payload: Method::ConnStart {
            version_major: 0,
            version_minor: 9,
            mechanisms: String::from("PLAIN"),
            locales: String::from("en_US"),
        },
    }
}

fn tune_frame(chan_max: u16) -> MethodFrame {
    MethodFrame {
        chan: 0,
        payload: Method::ConnTune { chan_max, frame_max: 131072, heartbeat: 60 },
    }
}

fn open_ok_frame() -> MethodFrame {
    MethodFrame { chan: 0, payload: Method::ConnOpenOk }
}

fn new_conn() -> AmqConnection {
    AmqConnection::new(
        String::from("localhost"),
        5672,
        String::from("user"),
        String::from("password"),
        String::from("my_vhost"),
    )
}

fn connected(chan_max: u16) -> AmqConnection {
    let mut conn = new_conn();
    let mut t = Transport::new(vec![start_frame(), tune_frame(chan_max), open_ok_frame()]);
    conn.connect(&mut t).unwrap();
    conn
}

#[test]
fn handshake_happy_path_sends_start_ok_tune_ok_open_in_order() {
    let mut conn = new_conn();
    let mut t = Transport::new(vec![start_frame(), tune_frame(2047), open_ok_frame()]);
    assert!(conn.connect(&mut t).is_ok());
    assert_eq!(conn.state, ConnState::Ready);
    assert_eq!(t.raw_sent, PROTOCOL_HEADER.to_vec());
    assert_eq!(t.sent.len(), 3);
    assert_eq!(t.sent[0].chan, 0);
    match &t.sent[0].payload {
        Method::ConnStartOk { properties, mechanism, response, locale } => {
            assert_eq!(properties.len(), 4);
            assert_eq!(mechanism, "PLAIN");
            assert_eq!(response, "\0user\0password");
            assert_eq!(locale, "en_US");
        },
        other => panic!("expected ConnStartOk, got {:?}", other),
    }
    assert_eq!(t.sent[1].chan, 0);
    match &t.sent[1].payload {
        Method::ConnTuneOk { chan_max, frame_max, heartbeat } => {
            assert_eq!(*chan_max, 2047);
            assert_eq!(*frame_max, 131072);
            assert_eq!(*heartbeat, 60);
        },
        other => panic!("expected ConnTuneOk, got {:?}", other),
    }
    assert_eq!(t.sent[2].chan, 0);
    match &t.sent[2].payload {
        Method::ConnOpen { vhost } => assert_eq!(vhost, "my_vhost"),
        other => panic!("expected ConnOpen, got {:?}", other),
    }
}

#[test]
fn handshake_rejects_wrong_first_method_and_sends_nothing() {
    let mut conn = new_conn();
    let mut t = Transport::new(vec![tune_frame(2047), open_ok_frame()]);
    assert_eq!(conn.connect(&mut t), Err(AmqError::ProtocolViolation));
    // The header already went out; no frame followed it.
    assert_eq!(t.raw_sent, PROTOCOL_HEADER.to_vec());
    assert_eq!(t.sent.len(), 0);
    assert_eq!(conn.state, ConnState::Closed);
}

#[test]
fn handshake_eof_is_a_transport_error() {
    let mut conn = new_conn();
    let mut t = Transport::new(vec![]);
    assert_eq!(conn.connect(&mut t), Err(AmqError::TransportError));
    assert_eq!(t.sent.len(), 0);
    assert_eq!(conn.state, ConnState::Closed);
}

#[test]
fn handshake_eof_after_start_aborts_after_start_ok() {
    let mut conn = new_conn();
    let mut t = Transport::new(vec![start_frame()]);
    assert_eq!(conn.connect(&mut t), Err(AmqError::TransportError));
    assert_eq!(t.sent.len(), 1);
    assert!(matches!(t.sent[0].payload, Method::ConnStartOk { .. }));
}

#[test]
fn handshake_rejects_wrong_third_method() {
    let mut conn = new_conn();
    let mut t = Transport::new(vec![start_frame(), tune_frame(8), start_frame()]);
    assert_eq!(conn.connect(&mut t), Err(AmqError::ProtocolViolation));
    assert_eq!(t.sent.len(), 3);
    assert_eq!(conn.state, ConnState::Closed);
}

#[test]
fn connect_cannot_run_twice() {
    let mut conn = connected(2047);
    let mut t = Transport::new(vec![start_frame(), tune_frame(2047), open_ok_frame()]);
    assert_eq!(conn.connect(&mut t), Err(AmqError::ProtocolViolation));
}

#[test]
fn create_channel_registers_and_sends_chan_open() {
    let mut conn = connected(2047);
    let mut t = Transport::new(vec![]);
    let id = conn.create_channel(&mut t).unwrap();
    assert_eq!(id, 1);
    assert_eq!(t.sent.len(), 1);
    assert_eq!(t.sent[0].chan, 1);
    assert!(matches!(t.sent[0].payload, Method::ChanOpen));
    assert_eq!(conn.channels.len(), 1);
    assert_eq!(conn.channels[0].id, 1);
    assert_eq!(conn.channels[0].state, ChanState::Opening);
    let second = conn.create_channel(&mut t).unwrap();
    assert_eq!(second, 2);
}

#[test]
fn create_channel_before_handshake_is_refused() {
    let mut conn = new_conn();
    let mut t = Transport::new(vec![]);
    assert_eq!(conn.create_channel(&mut t), Err(AmqError::ProtocolViolation));
}

#[test]
fn create_channel_respects_negotiated_limit() {
    let mut conn = connected(1);
    let mut t = Transport::new(vec![]);
    assert_eq!(conn.create_channel(&mut t), Ok(1));
    assert_eq!(conn.create_channel(&mut t), Err(AmqError::ChannelLimitExceeded));
}

#[test]
fn reply_unblocks_only_the_addressed_channel() {
    let mut conn = connected(2047);
    let mut t = Transport::new(vec![]);
    let first = conn.create_channel(&mut t).unwrap();
    let second = conn.create_channel(&mut t).unwrap();
    assert_eq!((first, second), (1, 2));
    // Both channels have a pending open call; a reply addressed to channel 2
    // must leave channel 1 blocked.
    let r = conn.dispatch_frame(MethodFrame { chan: 2, payload: Method::ChanOpenOk });
    assert!(r.is_ok());
    assert!(conn.channels[0].reply.is_none());
    assert!(conn.channels[1].reply.is_some());
    assert!(matches!(conn.channels[0].wait_for_response(), Err(AmqError::Timeout)));
    assert!(conn.channels[1].wait_for_response().is_ok());
    assert_eq!(conn.channels[1].state, ChanState::Open);
    assert_eq!(conn.channels[0].state, ChanState::Opening);
}

#[test]
fn frame_for_unknown_channel_is_reported_and_changes_nothing() {
    let mut conn = connected(2047);
    let mut t = Transport::new(vec![]);
    conn.create_channel(&mut t).unwrap();
    let r = conn.dispatch_frame(MethodFrame { chan: 9, payload: Method::ChanOpenOk });
    assert_eq!(r, Err(AmqError::ProtocolViolation));
    assert!(conn.channels[0].reply.is_none());
}

#[test]
fn frame_for_channel_zero_is_reported() {
    let mut conn = connected(2047);
    let r = conn.dispatch_frame(MethodFrame { chan: 0, payload: Method::ChanCloseOk });
    assert_eq!(r, Err(AmqError::ProtocolViolation));
}

#[test]
fn listener_routes_frames_and_counts_violations() {
    let mut conn = connected(2047);
    let mut t = Transport::new(vec![]);
    conn.create_channel(&mut t).unwrap();
    let mut inbound = Transport::new(vec![
        MethodFrame { chan: 1, payload: Method::ChanOpenOk },
        MethodFrame { chan: 9, payload: Method::ChanOpenOk },
    ]);
    let violations = conn.start_listener(&mut inbound);
    // One frame addressed to an unregistered id, reported and skipped.
    assert_eq!(violations, 1);
    assert_eq!(conn.state, ConnState::Closed);
    // The reply for channel 1 was delivered before the stream ended.
    assert!(conn.channels[0].wait_for_response().is_ok());
    assert_eq!(conn.channels[0].state, ChanState::Open);
}

#[test]
fn eof_wakes_blocked_waiter_with_connection_lost() {
    let mut conn = connected(2047);
    let mut t = Transport::new(vec![]);
    conn.create_channel(&mut t).unwrap();
    // The open call is pending when the transport hits end of stream.
    let mut inbound = Transport::new(vec![]);
    let violations = conn.start_listener(&mut inbound);
    assert_eq!(violations, 0);
    assert_eq!(conn.state, ConnState::Closed);
    assert!(matches!(conn.channels[0].wait_for_response(), Err(AmqError::ConnectionLost)));
    assert_eq!(conn.channels[0].state, ChanState::Closed);
}

#[test]
fn minimal_connection_handle_keeps_options() {
    let c = Connection::new(
        String::from("localhost"),
        5672,
        String::from("guest"),
        String::from("secret"),
    );
    assert_eq!(c.options.host, "localhost");
    assert_eq!(c.options.port, 5672);
    assert_eq!(c.options.login, "guest");
    assert_eq!(c.options.password, "secret");
    assert_eq!(c.options.vhost, "my_vhost");
}

#[test]
fn removing_a_closed_channel_releases_its_id() {
    let mut conn = connected(2);
    let mut t = Transport::new(vec![]);
    assert_eq!(conn.create_channel(&mut t), Ok(1));
    assert_eq!(conn.create_channel(&mut t), Ok(2));
    // Complete channel 1's open call, then close it.
    conn.dispatch_frame(MethodFrame { chan: 1, payload: Method::ChanOpenOk }).unwrap();
    conn.channels[0].wait_for_response().unwrap();
    let frame = conn.channels[0].close().unwrap();
    assert!(matches!(frame.payload, Method::ChanClose));
    conn.dispatch_frame(MethodFrame { chan: 1, payload: Method::ChanCloseOk }).unwrap();
    conn.channels[0].wait_for_response().unwrap();
    assert_eq!(conn.channels[0].state, ChanState::Closed);
    // Destroying it removes the registry entry and frees the id.
    assert!(conn.remove_channel(1));
    assert_eq!(conn.channels.len(), 1);
    assert_eq!(conn.channels[0].id, 2);
    assert_eq!(conn.create_channel(&mut t), Ok(1));
    // An id nothing is registered for is refused.
    assert!(!conn.remove_channel(9));
}

#[test]
fn listener_completes_one_channel_and_wakes_the_other() {
    let mut conn = connected(2047);
    let mut t = Transport::new(vec![]);
    conn.create_channel(&mut t).unwrap();
    conn.create_channel(&mut t).unwrap();
    // The stream carries channel 1's reply, then ends while channel 2 is
    // still blocked.
    let mut inbound = Transport::new(vec![MethodFrame { chan: 1, payload: Method::ChanOpenOk }]);
    assert_eq!(conn.start_listener(&mut inbound), 0);
    assert!(conn.channels[0].wait_for_response().is_ok());
    assert_eq!(conn.channels[0].state, ChanState::Open);
    assert!(matches!(
        conn.channels[1].wait_for_response(),
        Err(AmqError::ConnectionLost)
    ));
}

#[test]
fn zero_negotiated_chan_max_forbids_channels() {
    let mut conn = connected(0);
    let mut t = Transport::new(vec![]);
    assert_eq!(conn.create_channel(&mut t), Err(AmqError::ChannelLimitExceeded));
}

#[test]
fn create_channel_on_closed_connection_fails_with_connection_lost() {
    let mut conn = connected(2047);
    let mut inbound = Transport::new(vec![]);
    conn.start_listener(&mut inbound);
    assert_eq!(conn.state, ConnState::Closed);
    let mut t = Transport::new(vec![]);
    assert_eq!(conn.create_channel(&mut t), Err(AmqError::ConnectionLost));
}
