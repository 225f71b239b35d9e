use amqp_client::amq_channel::{AmqChannel, ChanState};
use amqp_client::error::AmqError;
use amqp_client::frame::Method;

#[test]
fn open_round_trip_reaches_open_state() {
    let mut ch = AmqChannel::new(5);
    assert_eq!(ch.state, ChanState::Opening);
    let frame = ch.open().unwrap();
    assert_eq!(frame.chan, 5);
    assert!(matches!(frame.payload, Method::ChanOpen));
    assert!(ch.handle_frame(Method::ChanOpenOk).is_ok());
    let reply = ch.wait_for_response().unwrap();
    assert!(matches!(reply, Method::ChanOpenOk));
    assert_eq!(ch.state, ChanState::Open);
    assert!(ch.pending.is_none());
}

#[test]
fn second_call_while_pending_fails_fast_and_keeps_waiter() {
    let mut ch = AmqChannel::new(1);
    ch.open().unwrap();
    // A flow call while the open call is pending must not discard the waiter.
    assert!(matches!(ch.flow(false), Err(AmqError::ProtocolViolation)));
    assert!(matches!(ch.close(), Err(AmqError::ProtocolViolation)));
    // The first call still completes normally.
    assert!(ch.handle_frame(Method::ChanOpenOk).is_ok());
    assert!(ch.wait_for_response().is_ok());
    assert_eq!(ch.state, ChanState::Open);
}

#[test]
fn flow_toggle_twice_sends_exactly_one_frame() {
    let mut ch = AmqChannel::new(2);
    ch.open().unwrap();
    ch.handle_frame(Method::ChanOpenOk).unwrap();
    ch.wait_for_response().unwrap();
    // The channel starts active; the first toggle to inactive sends a frame.
    let first = ch.flow(false).unwrap();
    let frame = first.expect("first toggle must send a ChanFlow frame");
    assert!(matches!(frame.payload, Method::ChanFlow { active: false }));
    ch.handle_frame(Method::ChanFlowOk { active: false }).unwrap();
    ch.wait_for_response().unwrap();
    assert!(!ch.active);
    // The second identical toggle sends nothing.
    assert!(ch.flow(false).unwrap().is_none());
    assert!(!ch.active);
}

#[test]
fn flow_to_current_state_is_a_no_op() {
    let mut ch = AmqChannel::new(3);
    ch.open().unwrap();
    ch.handle_frame(Method::ChanOpenOk).unwrap();
    ch.wait_for_response().unwrap();
    assert!(ch.active);
    assert!(ch.flow(true).unwrap().is_none());
    assert!(ch.pending.is_none());
}

#[test]
fn wait_without_reply_times_out_and_keeps_call_pending() {
    let mut ch = AmqChannel::new(4);
    ch.open().unwrap();
    assert!(matches!(ch.wait_for_response(), Err(AmqError::Timeout)));
    assert!(ch.pending.is_some());
    // A late reply still completes the call.
    ch.handle_frame(Method::ChanOpenOk).unwrap();
    assert!(ch.wait_for_response().is_ok());
}

#[test]
fn mismatched_reply_fails_that_call() {
    let mut ch = AmqChannel::new(6);
    ch.open().unwrap();
    // Delivery succeeds: the waiter validates, not the dispatcher.
    assert!(ch.handle_frame(Method::ChanFlowOk { active: true }).is_ok());
    assert!(matches!(ch.wait_for_response(), Err(AmqError::ProtocolViolation)));
    assert!(ch.pending.is_none());
    assert_eq!(ch.state, ChanState::Opening);
}

#[test]
fn peer_close_applies_async_transition() {
    let mut ch = AmqChannel::new(7);
    ch.open().unwrap();
    ch.handle_frame(Method::ChanOpenOk).unwrap();
    ch.wait_for_response().unwrap();
    assert!(ch.handle_frame(Method::ChanClose).is_ok());
    assert_eq!(ch.state, ChanState::Closed);
}

#[test]
fn unexpected_frame_with_no_pending_call_is_reported() {
    let mut ch = AmqChannel::new(8);
    ch.open().unwrap();
    ch.handle_frame(Method::ChanOpenOk).unwrap();
    ch.wait_for_response().unwrap();
    assert!(matches!(
        ch.handle_frame(Method::ChanFlowOk { active: true }),
        Err(AmqError::ProtocolViolation)
    ));
}

#[test]
fn operations_on_closed_channel_fail_with_channel_closed() {
    let mut ch = AmqChannel::new(9);
    ch.handle_frame(Method::ChanClose).unwrap();
    assert_eq!(ch.state, ChanState::Closed);
    assert!(matches!(ch.open(), Err(AmqError::ChannelClosed)));
    assert!(matches!(ch.flow(true), Err(AmqError::ChannelClosed)));
    assert!(matches!(ch.close(), Err(AmqError::ChannelClosed)));
}

#[test]
fn close_round_trip_releases_nothing_until_close_ok() {
    let mut ch = AmqChannel::new(10);
    ch.open().unwrap();
    ch.handle_frame(Method::ChanOpenOk).unwrap();
    ch.wait_for_response().unwrap();
    let frame = ch.close().unwrap();
    assert!(matches!(frame.payload, Method::ChanClose));
    assert_eq!(ch.state, ChanState::Closing);
    ch.handle_frame(Method::ChanCloseOk).unwrap();
    ch.wait_for_response().unwrap();
    assert_eq!(ch.state, ChanState::Closed);
}

#[test]
fn connection_lost_wakes_blocked_waiter() {
    let mut ch = AmqChannel::new(11);
    ch.open().unwrap();
    ch.connection_lost();
    assert!(matches!(ch.wait_for_response(), Err(AmqError::ConnectionLost)));
    assert_eq!(ch.state, ChanState::Closed);
}
