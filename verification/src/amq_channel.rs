//! Per-channel state: the open/close state machine, the flow sub-state, and
//! the single-slot pending-reply waiter.
//!
//! Every synchronous channel operation is split into its two halves: the
//! issuing half (`open`, `flow`, `close`) validates the state, records the
//! pending call and returns the frame to send; the completing half
//! (`wait_for_response`) consumes the reply the dispatch loop delivered
//! through `handle_frame` and applies the transition. At most one call may be
//! pending per channel at any instant: issuing a second call while one is
//! pending fails fast with `ProtocolViolation` and leaves the first waiter
//! untouched.

use vstd::prelude::*;
use crate::error::AmqError;
use crate::frame::{Method, MethodFrame};

verus! {

/// The open/close axis of a channel's state machine.
#[derive(Clone, Copy, Debug, PartialEq, Eq, Structural)]
pub enum ChanState {
    /// Created and registered; the channel-open call has not completed.
    Opening,
    /// Ready for use.
    Open,
    /// A close call is in flight.
    Closing,
    /// Terminal: no further operation is accepted.
    Closed,
}

/// Which synchronous call is currently awaiting its reply.
#[derive(Clone, Copy, Debug, PartialEq, Eq, Structural)]
pub enum PendingCall {
    /// `open` awaits `ChanOpenOk`.
    OpenCall,
    /// `flow` awaits `ChanFlowOk`; on completion the flow state becomes `active`.
    FlowCall { active: bool },
    /// `close` awaits `ChanCloseOk`.
    CloseCall,
}

/// What the dispatch loop put into the single-slot waiter.
#[derive(Debug)]
pub enum Reply {
    /// A frame addressed to this channel arrived while a call was pending.
    Delivered { payload: Method },
    /// The connection was lost; the pending call must fail, not hang.
    Lost,
}

/// One logical channel multiplexed over the connection.
#[derive(Debug)]
pub struct AmqChannel {
    /// The channel id; unique among the connection's registered channels.
    pub id: u16,
    /// Position on the open/close axis.
    pub state: ChanState,
    /// The flow sub-state; only meaningful while `Open`.
    pub active: bool,
    /// The call currently awaiting a reply, if any.
    pub pending: Option<PendingCall>,
    /// The single-slot waiter: what was delivered for the pending call.
    pub reply: Option<Reply>,
}

/// Result and next state of `open`.
pub open spec fn spec_open(ch: AmqChannel) -> (Result<MethodFrame, AmqError>, AmqChannel) {
    if ch.state is Closed {
        (Err(AmqError::ChannelClosed), ch)
    } else if !(ch.state is Opening) || ch.pending is Some {
        (Err(AmqError::ProtocolViolation), ch)
    } else {
        (
            Ok(MethodFrame { chan: ch.id, payload: Method::ChanOpen }),
            AmqChannel { pending: Some(PendingCall::OpenCall), ..ch },
        )
    }
}

/// Result and next state of `flow`.
pub open spec fn spec_flow(ch: AmqChannel, active: bool) -> (
    Result<Option<MethodFrame>, AmqError>,
    AmqChannel,
) {
    if ch.state is Closed {
        (Err(AmqError::ChannelClosed), ch)
    } else if !(ch.state is Open) {
        (Err(AmqError::ProtocolViolation), ch)
    } else if ch.active == active {
        (Ok(None), ch)
    } else if ch.pending is Some {
        (Err(AmqError::ProtocolViolation), ch)
    } else {
        (
            Ok(Some(MethodFrame { chan: ch.id, payload: Method::ChanFlow { active } })),
            AmqChannel { pending: Some(PendingCall::FlowCall { active }), ..ch },
        )
    }
}

/// Result and next state of `close`.
pub open spec fn spec_close(ch: AmqChannel) -> (Result<MethodFrame, AmqError>, AmqChannel) {
    if ch.state is Closed {
        (Err(AmqError::ChannelClosed), ch)
    } else if ch.pending is Some {
        (Err(AmqError::ProtocolViolation), ch)
    } else {
        (
            Ok(MethodFrame { chan: ch.id, payload: Method::ChanClose }),
            AmqChannel { state: ChanState::Closing, pending: Some(PendingCall::CloseCall), ..ch },
        )
    }
}

/// Result and next state of `handle_frame`.
pub open spec fn spec_handle(ch: AmqChannel, m: Method) -> (Result<(), AmqError>, AmqChannel) {
    if ch.pending is Some {
        if ch.reply is Some {
            (Err(AmqError::ProtocolViolation), ch)
        } else {
            (Ok(()), AmqChannel { reply: Some(Reply::Delivered { payload: m }), ..ch })
        }
    } else if m is ChanClose {
        (Ok(()), AmqChannel { state: ChanState::Closed, ..ch })
    } else {
        (Err(AmqError::ProtocolViolation), ch)
    }
}

/// Result and next state of `wait_for_response`.
pub open spec fn spec_wait(ch: AmqChannel) -> (Result<Method, AmqError>, AmqChannel) {
    match ch.reply {
        None => (Err(AmqError::Timeout), ch),
        Some(Reply::Lost) => (
            Err(AmqError::ConnectionLost),
            AmqChannel { state: ChanState::Closed, pending: None, reply: None, ..ch },
        ),
        Some(Reply::Delivered { payload }) => {
            let cleared = AmqChannel { pending: None, reply: None, ..ch };
            match ch.pending {
                None => (Err(AmqError::ProtocolViolation), cleared),
                Some(PendingCall::OpenCall) => if payload is ChanOpenOk {
                    (Ok(payload), AmqChannel { state: ChanState::Open, ..cleared })
                } else {
                    (Err(AmqError::ProtocolViolation), cleared)
                },
                Some(PendingCall::FlowCall { active }) => if payload is ChanFlowOk {
                    (Ok(payload), AmqChannel { active, ..cleared })
                } else {
                    (Err(AmqError::ProtocolViolation), cleared)
                },
                Some(PendingCall::CloseCall) => if payload is ChanCloseOk {
                    (Ok(payload), AmqChannel { state: ChanState::Closed, ..cleared })
                } else {
                    (Err(AmqError::ProtocolViolation), cleared)
                },
            }
        },
    }
}

/// Next state of `connection_lost`: a blocked waiter is force-completed.
pub open spec fn spec_lost(ch: AmqChannel) -> AmqChannel {
    if ch.pending is Some && ch.reply is None {
        AmqChannel { reply: Some(Reply::Lost), ..ch }
    } else {
        ch
    }
}

impl AmqChannel {
    /// Well-formedness: a reply can sit in the waiter only while a call is
    /// pending.
    pub open spec fn wf(&self) -> bool {
        self.reply is Some ==> self.pending is Some
    }

    /// A freshly created channel: `Opening`, flow active, nothing pending.
    pub fn new(id: u16) -> (ch: AmqChannel)
        ensures
            ch == (AmqChannel {
                id,
                state: ChanState::Opening,
                active: true,
                pending: None,
                reply: None,
            }),
            ch.wf(),
    {
        AmqChannel { id, state: ChanState::Opening, active: true, pending: None, reply: None }
    }

    /// Issue the channel-open call: valid once, while `Opening`, with nothing
    /// pending; returns the `ChanOpen` frame to send and leaves the channel
    /// awaiting `ChanOpenOk`.
    pub fn open(&mut self) -> (r: Result<MethodFrame, AmqError>)
        requires
            old(self).wf(),
        ensures
            final(self).wf(),
            r == spec_open(*old(self)).0,
            *final(self) == spec_open(*old(self)).1,
    {
        match self.state {
            ChanState::Closed => Err(AmqError::ChannelClosed),
            ChanState::Opening => {
                if self.pending.is_some() {
                    Err(AmqError::ProtocolViolation)
                } else {
                    self.pending = Some(PendingCall::OpenCall);
                    Ok(MethodFrame { chan: self.id, payload: Method::ChanOpen })
                }
            },
            _ => Err(AmqError::ProtocolViolation),
        }
    }

    /// Issue a flow toggle. A no-op returning `Ok(None)` when the channel is
    /// already in the requested flow state; otherwise returns the
    /// `ChanFlow` frame to send and leaves the channel awaiting `ChanFlowOk`.
    pub fn flow(&mut self, active: bool) -> (r: Result<Option<MethodFrame>, AmqError>)
        requires
            old(self).wf(),
        ensures
            final(self).wf(),
            r == spec_flow(*old(self), active).0,
            *final(self) == spec_flow(*old(self), active).1,
    {
        match self.state {
            ChanState::Closed => Err(AmqError::ChannelClosed),
            ChanState::Open => {
                if self.active == active {
                    Ok(None)
                } else if self.pending.is_some() {
                    Err(AmqError::ProtocolViolation)
                } else {
                    self.pending = Some(PendingCall::FlowCall { active });
                    Ok(Some(MethodFrame { chan: self.id, payload: Method::ChanFlow { active } }))
                }
            },
            _ => Err(AmqError::ProtocolViolation),
        }
    }

    /// Issue the close call: returns the `ChanClose` frame to send and leaves
    /// the channel `Closing`, awaiting `ChanCloseOk`.
    pub fn close(&mut self) -> (r: Result<MethodFrame, AmqError>)
        requires
            old(self).wf(),
        ensures
            final(self).wf(),
            r == spec_close(*old(self)).0,
            *final(self) == spec_close(*old(self)).1,
    {
        match self.state {
            ChanState::Closed => Err(AmqError::ChannelClosed),
            _ => {
                if self.pending.is_some() {
                    Err(AmqError::ProtocolViolation)
                } else {
                    self.state = ChanState::Closing;
                    self.pending = Some(PendingCall::CloseCall);
                    Ok(MethodFrame { chan: self.id, payload: Method::ChanClose })
                }
            },
        }
    }

    /// The sole entry point used by the dispatch loop. A frame arriving while
    /// a call is pending is delivered to the waiter; with no call pending, a
    /// peer-initiated `ChanClose` is applied as an async transition; any
    /// other combination is reported as a `ProtocolViolation`, never a crash.
    pub fn handle_frame(&mut self, method: Method) -> (r: Result<(), AmqError>)
        requires
            old(self).wf(),
        ensures
            final(self).wf(),
            r == spec_handle(*old(self), method).0,
            *final(self) == spec_handle(*old(self), method).1,
    {
        if self.pending.is_some() {
            if self.reply.is_some() {
                Err(AmqError::ProtocolViolation)
            } else {
                self.reply = Some(Reply::Delivered { payload: method });
                Ok(())
            }
        } else {
            match method {
                Method::ChanClose => {
                    self.state = ChanState::Closed;
                    Ok(())
                },
                _ => Err(AmqError::ProtocolViolation),
            }
        }
    }

    /// Consume the delivered reply and complete the pending call: a matching
    /// reply applies the transition and returns the method; a non-matching
    /// one fails that call with `ProtocolViolation`; a `Lost` waiter fails
    /// with `ConnectionLost`; an empty waiter means the deadline elapsed and
    /// fails with `Timeout`, leaving the call pending.
    pub fn wait_for_response(&mut self) -> (r: Result<Method, AmqError>)
        requires
            old(self).wf(),
        ensures
            final(self).wf(),
            r == spec_wait(*old(self)).0,
            *final(self) == spec_wait(*old(self)).1,
    {
        let reply = self.reply.take();
        match reply {
            None => Err(AmqError::Timeout),
            Some(Reply::Lost) => {
                self.state = ChanState::Closed;
                self.pending = None;
                Err(AmqError::ConnectionLost)
            },
            Some(Reply::Delivered { payload }) => {
                let pending = self.pending.take();
                match pending {
                    None => Err(AmqError::ProtocolViolation),
                    Some(PendingCall::OpenCall) => match payload {
                        Method::ChanOpenOk => {
                            self.state = ChanState::Open;
                            Ok(payload)
                        },
                        _ => Err(AmqError::ProtocolViolation),
                    },
                    Some(PendingCall::FlowCall { active }) => match payload {
                        Method::ChanFlowOk { active: _ } => {
                            self.active = active;
                            Ok(payload)
                        },
                        _ => Err(AmqError::ProtocolViolation),
                    },
                    Some(PendingCall::CloseCall) => match payload {
                        Method::ChanCloseOk => {
                            self.state = ChanState::Closed;
                            Ok(payload)
                        },
                        _ => Err(AmqError::ProtocolViolation),
                    },
                }
            },
        }
    }

    /// Force-complete a blocked waiter after the dispatch loop terminated:
    /// its next `wait_for_response` returns `ConnectionLost` instead of
    /// hanging.
    pub fn connection_lost(&mut self)
        requires
            old(self).wf(),
        ensures
            final(self).wf(),
            *final(self) == spec_lost(*old(self)),
    {
        if self.pending.is_some() && self.reply.is_none() {
            self.reply = Some(Reply::Lost);
        }
    }
}

/// A flow toggle to the state the channel is already in is a pure no-op: it
/// returns `Ok(None)`, so no frame is sent and the channel is unchanged.
pub proof fn lemma_flow_idempotent(ch: AmqChannel, active: bool)
    requires
        ch.state is Open,
        ch.active == active,
    ensures
        spec_flow(ch, active) == (Ok::<Option<MethodFrame>, AmqError>(None), ch),
{
}

/// Toggling flow and completing the call with `ChanFlowOk` updates the flow
/// state, and a second toggle to the same value then sends no frame: two
/// `flow(active)` calls in a row send exactly one `ChanFlow` frame.
pub proof fn lemma_flow_toggle_once(ch: AmqChannel, active: bool, reply: Method)
    requires
        ch.wf(),
        ch.state is Open,
        ch.active != active,
        ch.pending is None,
        reply is ChanFlowOk,
    ensures
        ({
            let (r1, ch1) = spec_flow(ch, active);
            let (r2, ch2) = spec_handle(ch1, reply);
            let (r3, ch3) = spec_wait(ch2);
            &&& r1 == Ok::<Option<MethodFrame>, AmqError>(
                Some(MethodFrame { chan: ch.id, payload: Method::ChanFlow { active } }),
            )
            &&& r2 == Ok::<(), AmqError>(())
            &&& r3 == Ok::<Method, AmqError>(reply)
            &&& ch3.active == active
            &&& spec_flow(ch3, active).0 == Ok::<Option<MethodFrame>, AmqError>(None)
            &&& spec_flow(ch3, active).1 == ch3
        }),
{
}

/// At most one call may be pending per channel: while one is pending, issuing
/// another call leaves the channel — including the first waiter — untouched,
/// and fails unless it is the no-op flow toggle.
pub proof fn lemma_single_in_flight(ch: AmqChannel, active: bool)
    requires
        ch.wf(),
        ch.pending is Some,
    ensures
        spec_open(ch).0 is Err && spec_open(ch).1 == ch,
        spec_close(ch).0 is Err && spec_close(ch).1 == ch,
        spec_flow(ch, active).1 == ch,
        ch.state is Open && ch.active == active ==> spec_flow(ch, active).0
            == Ok::<Option<MethodFrame>, AmqError>(None),
        !(ch.state is Open && ch.active == active) ==> spec_flow(ch, active).0 is Err,
{
}

/// A waiter blocked at the moment the connection is lost is woken with
/// `ConnectionLost`, never left hanging.
pub proof fn lemma_lost_wakes_waiter(ch: AmqChannel)
    requires
        ch.wf(),
        ch.pending is Some,
        ch.reply is None,
    ensures
        spec_wait(spec_lost(ch)).0 == Err::<Method, AmqError>(AmqError::ConnectionLost),
{
}

} // verus!
