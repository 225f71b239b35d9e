//! The composition root: connection options, the connection-level handshake,
//! the channel registry and the frame dispatch loop.
//!
//! `connect` drives the fixed negotiation sequence (Start/StartOk, Tune/TuneOk,
//! Open/OpenOk) on channel 0. `create_channel` allocates an id, registers a
//! channel and issues its open call. `start_listener` drains the inbound side
//! of the transport, routing each frame to the channel it addresses — an
//! unknown channel id is reported and skipped, never fatal — and on end of
//! stream marks the connection closed and wakes every blocked waiter with
//! `ConnectionLost`.

use vstd::prelude::*;
use vstd::string::StringExecFns;
use crate::amq_channel::{spec_handle, spec_lost, AmqChannel, ChanState, PendingCall, Reply};
use crate::error::AmqError;
use crate::frame::{Method, MethodFrame, Property, PROTOCOL_HEADER};
use crate::id_allocator::{alloc_id, alloc_next, alloc_ok, ids_in_use, IdAllocator};
use crate::transport::Transport;

verus! {

/// Lifecycle of a connection.
#[derive(Clone, Copy, Debug, PartialEq, Eq, Structural)]
pub enum ConnState {
    /// Constructed; the handshake has not run.
    Fresh,
    /// The handshake succeeded; channels may be created.
    Ready,
    /// The handshake failed or the dispatch loop terminated. Terminal.
    Closed,
}

/// Caller-supplied configuration, immutable once the connection is made.
#[derive(Clone, Debug)]
pub struct ConnectionOpts {
    pub host: String,
    pub port: u16,
    pub login: String,
    pub password: String,
    pub vhost: String,
}

/// The handle for channel 0, the connection-level control channel; its id is
/// never allocated to a logical channel.
#[derive(Debug)]
pub struct DefaultChan {}

/// A minimal connection handle: the caller's endpoint and credentials with
/// the fixed vhost of the minimal client. The full client is
/// [`AmqConnection`].
#[derive(Debug)]
pub struct Connection {
    pub options: ConnectionOpts,
}

impl Connection {
    /// Store the endpoint and credentials, selecting the fixed vhost.
    pub fn new(host: String, port: u16, login: String, password: String) -> (c: Connection)
        ensures
            c.options.host == host,
            c.options.port == port,
            c.options.login == login,
            c.options.password == password,
            c.options.vhost@ == "my_vhost"@,
    {
        Connection {
            options: ConnectionOpts {
                host,
                port,
                login,
                password,
                vhost: String::from_str("my_vhost"),
            },
        }
    }
}

/// The `StartOk` authentication response for mechanism PLAIN: a NUL, the
/// login, a NUL, the password.
pub open spec fn plain_response(login: Seq<char>, password: Seq<char>) -> Seq<char> {
    seq!['\0'] + login + seq!['\0'] + password
}

/// The fixed client-properties table sent in `StartOk`.
pub open spec fn is_client_properties(ps: Seq<Property>) -> bool {
    &&& ps.len() == 4
    &&& ps[0].key@ == "product"@ && ps[0].value@ == "simpleapp123123asd "@
    &&& ps[1].key@ == "platform"@ && ps[1].value@ == "Erlang/OTP 24.3.4"@
    &&& ps[2].key@ == "copyright"@ && ps[2].value@ == "param-pam-pamqweqwe"@
    &&& ps[3].key@ == "information"@ && ps[3].value@ == "Licensed under the MPL 2.0"@
}

/// What a well-formed `StartOk` answer holds: the client properties,
/// mechanism PLAIN, the credentials embedded verbatim in the PLAIN response,
/// and the locale.
pub open spec fn valid_start_ok(m: Method, login: Seq<char>, password: Seq<char>) -> bool {
    match m {
        Method::ConnStartOk { properties, mechanism, response, locale } => {
            &&& is_client_properties(properties@)
            &&& mechanism@ == "PLAIN"@
            &&& response@ == plain_response(login, password)
            &&& locale@ == "en_US"@
        },
        _ => false,
    }
}

/// What a well-formed `Open` holds: the configured vhost.
pub open spec fn valid_open(m: Method, vhost: Seq<char>) -> bool {
    match m {
        Method::ConnOpen { vhost: v } => v@ == vhost,
        _ => false,
    }
}

/// The handshake result for a given inbound script: `Ok` exactly when the
/// first three inbound methods are Start, Tune, OpenOk; a wrong method is a
/// `ProtocolViolation`, a missing one (end of stream) a `TransportError`.
pub open spec fn hs_result(inb: Seq<MethodFrame>) -> Result<(), AmqError> {
    if inb.len() == 0 {
        Err(AmqError::TransportError)
    } else if !(inb[0].payload is ConnStart) {
        Err(AmqError::ProtocolViolation)
    } else if inb.len() == 1 {
        Err(AmqError::TransportError)
    } else if !(inb[1].payload is ConnTune) {
        Err(AmqError::ProtocolViolation)
    } else if inb.len() == 2 {
        Err(AmqError::TransportError)
    } else if !(inb[2].payload is ConnOpenOk) {
        Err(AmqError::ProtocolViolation)
    } else {
        Ok(())
    }
}

/// How many frames the handshake sends for a given inbound script: none until
/// Start arrives, `StartOk` alone until Tune arrives, then `StartOk`,
/// `TuneOk` and `Open` together.
pub open spec fn hs_frames_sent(inb: Seq<MethodFrame>) -> int {
    if inb.len() == 0 || !(inb[0].payload is ConnStart) {
        0
    } else if inb.len() == 1 || !(inb[1].payload is ConnTune) {
        1
    } else {
        3
    }
}

/// How many inbound frames the handshake consumes before it stops.
pub open spec fn hs_consumed(inb: Seq<MethodFrame>) -> int {
    if inb.len() == 0 {
        0
    } else if !(inb[0].payload is ConnStart) || inb.len() == 1 {
        1
    } else if !(inb[1].payload is ConnTune) || inb.len() == 2 {
        2
    } else {
        3
    }
}

/// Whether some registered channel carries the id.
pub open spec fn has_chan(chs: Seq<AmqChannel>, id: u16) -> bool {
    exists|i: int| 0 <= i < chs.len() && chs[i].id == id
}

/// The index of the registered channel carrying the id (unique under the
/// connection invariant).
pub open spec fn chan_index(chs: Seq<AmqChannel>, id: u16) -> int {
    choose|i: int| 0 <= i < chs.len() && chs[i].id == id
}

/// Registry and channels after routing one frame, and whether routing
/// succeeded: the addressed channel handles the payload and every other
/// channel is untouched; a frame addressed to no registered channel changes
/// nothing and fails.
pub open spec fn spec_dispatch(chs: Seq<AmqChannel>, f: MethodFrame) -> (Seq<AmqChannel>, bool) {
    if has_chan(chs, f.chan) {
        let i = chan_index(chs, f.chan);
        let (r, ch2) = spec_handle(chs[i], f.payload);
        (chs.update(i, ch2), r is Ok)
    } else {
        (chs, false)
    }
}

/// The client connection: options, transport-facing handshake, channel
/// registry and id allocator.
pub struct AmqConnection {
    /// Caller-supplied configuration.
    pub options: ConnectionOpts,
    /// The registry of live channels; ids are pairwise distinct.
    pub channels: Vec<AmqChannel>,
    /// Issues channel ids up to the maximum negotiated in the handshake.
    pub id_allocator: IdAllocator,
    /// Lifecycle position.
    pub state: ConnState,
}

impl AmqConnection {
    /// Well-formedness: the allocator is sound, every registered channel is
    /// well-formed and holds an id the allocator has issued, ids are pairwise
    /// distinct, and no channel exists before the handshake completed.
    pub open spec fn wf(&self) -> bool {
        &&& self.id_allocator.wf()
        &&& forall|i: int| 0 <= i < self.channels@.len() ==> (#[trigger] self.channels@[i]).wf()
        &&& forall|i: int| 0 <= i < self.channels@.len() ==>
                ids_in_use(self.id_allocator@).contains((#[trigger] self.channels@[i]).id)
        &&& forall|i: int, j: int| 0 <= i < j < self.channels@.len() ==>
                (#[trigger] self.channels@[i]).id != (#[trigger] self.channels@[j]).id
        &&& self.state is Fresh ==> self.channels@.len() == 0
    }

    /// A fresh, unconnected client for the given endpoint and credentials.
    /// No channel id is available until the handshake negotiates a maximum.
    pub fn new(host: String, port: u16, login: String, password: String, vhost: String) -> (c:
        AmqConnection)
        ensures
            c.wf(),
            c.options.host == host,
            c.options.port == port,
            c.options.login == login,
            c.options.password == password,
            c.options.vhost == vhost,
            c.state is Fresh,
            c.channels@.len() == 0,
            c.id_allocator@.chan_max == 0,
    {
        AmqConnection {
            options: ConnectionOpts { host, port, login, password, vhost },
            channels: Vec::new(),
            id_allocator: IdAllocator::new(0),
            state: ConnState::Fresh,
        }
    }

    /// Drive the connection-level handshake over the transport: send the
    /// protocol header, require Start, answer StartOk with the credentials in
    /// the PLAIN response, require Tune, echo TuneOk and adopt the broker's
    /// channel maximum, send Open with the vhost, require OpenOk. Any wrong
    /// method fails with `ProtocolViolation` and sends nothing further; end
    /// of stream fails with `TransportError`; either failure closes the
    /// connection.
    pub fn connect(&mut self, t: &mut Transport) -> (r: Result<(), AmqError>)
        requires
            old(self).wf(),
        ensures
            final(self).wf(),
            final(self).options == old(self).options,
            final(self).channels == old(self).channels,
            !(old(self).state is Fresh) ==> r == Err::<(), AmqError>(AmqError::ProtocolViolation)
                && *final(self) == *old(self) && *final(t) == *old(t),
            old(self).state is Fresh ==> {
                let inb = old(t).inbound@;
                let sent0 = old(t).sent@;
                let n0 = sent0.len() as int;
                &&& r == hs_result(inb)
                &&& final(t).raw_sent@ == old(t).raw_sent@ + PROTOCOL_HEADER@
                &&& final(t).inbound@ == inb.skip(hs_consumed(inb))
                &&& final(t).sent@.len() == n0 + hs_frames_sent(inb)
                &&& final(t).sent@.subrange(0, n0) == sent0
                &&& hs_frames_sent(inb) == 0 ==> final(t).sent@ == sent0
                &&& hs_frames_sent(inb) >= 1 ==> final(t).sent@[n0].chan == 0
                    && valid_start_ok(
                    final(t).sent@[n0].payload,
                    old(self).options.login@,
                    old(self).options.password@,
                )
                &&& hs_frames_sent(inb) == 3 ==> {
                    &&& final(t).sent@[n0 + 1].chan == 0
                    &&& (inb[1].payload matches Method::ConnTune { chan_max, frame_max, heartbeat }
                        ==> final(t).sent@[n0 + 1].payload == (Method::ConnTuneOk {
                        chan_max,
                        frame_max,
                        heartbeat,
                    }) && final(self).id_allocator@.chan_max == chan_max)
                    &&& final(t).sent@[n0 + 2].chan == 0
                    &&& valid_open(final(t).sent@[n0 + 2].payload, old(self).options.vhost@)
                    &&& final(self).id_allocator@.next == 1
                    &&& final(self).id_allocator@.released.len() == 0
                }
                &&& hs_frames_sent(inb) < 3 ==> final(self).id_allocator == old(self).id_allocator
                &&& r is Ok ==> final(self).state is Ready
                &&& r is Err ==> final(self).state is Closed
            },
    {
        match self.state {
            ConnState::Fresh => {},
            _ => {
                return Err(AmqError::ProtocolViolation);
            },
        }
        t.send_raw(&PROTOCOL_HEADER);
        match t.receive_frame() {
            None => {
                self.state = ConnState::Closed;
                return Err(AmqError::TransportError);
            },
            Some(f) => match f.payload {
                Method::ConnStart { .. } => {},
                _ => {
                    self.state = ConnState::Closed;
                    return Err(AmqError::ProtocolViolation);
                },
            },
        }
        let start_ok = build_start_ok(&self.options.login, &self.options.password);
        t.send(MethodFrame { chan: 0, payload: start_ok });
        let ghost inb = old(t).inbound@;
        proof {
            assert(t.inbound@ =~= inb.skip(1));
        }
        let (chan_max, frame_max, heartbeat) = match t.receive_frame() {
            None => {
                self.state = ConnState::Closed;
                return Err(AmqError::TransportError);
            },
            Some(f) => match f.payload {
                Method::ConnTune { chan_max, frame_max, heartbeat } => (
                    chan_max,
                    frame_max,
                    heartbeat,
                ),
                _ => {
                    self.state = ConnState::Closed;
                    return Err(AmqError::ProtocolViolation);
                },
            },
        };
        proof {
            assert(t.inbound@ =~= inb.skip(2));
        }
        t.send(MethodFrame { chan: 0, payload: Method::ConnTuneOk { chan_max, frame_max, heartbeat } });
        self.id_allocator = IdAllocator::new(chan_max);
        let vhost = self.options.vhost.clone();
        t.send(MethodFrame { chan: 0, payload: Method::ConnOpen { vhost } });
        match t.receive_frame() {
            None => {
                self.state = ConnState::Closed;
                return Err(AmqError::TransportError);
            },
            Some(f) => match f.payload {
                Method::ConnOpenOk => {},
                _ => {
                    self.state = ConnState::Closed;
                    return Err(AmqError::ProtocolViolation);
                },
            },
        }
        proof {
            assert(t.inbound@ =~= inb.skip(3));
        }
        self.state = ConnState::Ready;
        Ok(())
    }

    /// Allocate an id, register a channel in `Opening`, and issue its open
    /// call: the `ChanOpen` frame goes out and the new channel awaits
    /// `ChanOpenOk` from the dispatch loop. Fails with
    /// `ChannelLimitExceeded` exactly when no id up to the negotiated
    /// maximum is free, with `ConnectionLost` on a closed connection, and
    /// with `ProtocolViolation` before the handshake.
    pub fn create_channel(&mut self, t: &mut Transport) -> (r: Result<u16, AmqError>)
        requires
            old(self).wf(),
        ensures
            final(self).wf(),
            final(self).options == old(self).options,
            final(self).state == old(self).state,
            old(self).state is Closed ==> r == Err::<u16, AmqError>(AmqError::ConnectionLost)
                && *final(self) == *old(self) && *final(t) == *old(t),
            old(self).state is Fresh ==> r == Err::<u16, AmqError>(AmqError::ProtocolViolation)
                && *final(self) == *old(self) && *final(t) == *old(t),
            old(self).state is Ready && !alloc_ok(old(self).id_allocator@) ==> r == Err::<
                u16,
                AmqError,
            >(AmqError::ChannelLimitExceeded) && final(self).channels == old(self).channels
                && *final(t) == *old(t),
            old(self).state is Ready && alloc_ok(old(self).id_allocator@) ==> {
                let id = alloc_id(old(self).id_allocator@);
                &&& r == Ok::<u16, AmqError>(id)
                &&& 1 <= id <= old(self).id_allocator@.chan_max
                &&& final(self).id_allocator@ == alloc_next(old(self).id_allocator@)
                &&& final(self).channels@.len() == old(self).channels@.len() + 1
                &&& final(self).channels@.subrange(0, old(self).channels@.len() as int)
                    == old(self).channels@
                &&& final(self).channels@.last() == (AmqChannel {
                    id,
                    state: ChanState::Opening,
                    active: true,
                    pending: Some(PendingCall::OpenCall),
                    reply: None,
                })
                &&& final(t).sent@ == old(t).sent@.push(
                    MethodFrame { chan: id, payload: Method::ChanOpen },
                )
                &&& final(t).inbound == old(t).inbound
                &&& final(t).raw_sent == old(t).raw_sent
            },
    {
        match self.state {
            ConnState::Ready => {},
            ConnState::Closed => {
                return Err(AmqError::ConnectionLost);
            },
            ConnState::Fresh => {
                return Err(AmqError::ProtocolViolation);
            },
        }
        let id = match self.id_allocator.allocate() {
            Ok(id) => id,
            Err(e) => {
                return Err(e);
            },
        };
        let mut ch = AmqChannel::new(id);
        match ch.open() {
            Ok(frame) => {
                t.send(frame);
                proof {
                    assert forall|i: int| 0 <= i < self.channels@.len() implies ids_in_use(
                        self.id_allocator@,
                    ).contains((#[trigger] self.channels@[i]).id) by {
                        assert(ids_in_use(old(self).id_allocator@).contains(self.channels@[i].id));
                    }
                }
                self.channels.push(ch);
                proof {
                    assert(self.channels@.subrange(0, old(self).channels@.len() as int)
                        =~= old(self).channels@);
                }
                Ok(id)
            },
            Err(e) => {
                proof {
                    assert(false);
                }
                Err(e)
            },
        }
    }

    /// Destroy a channel: remove it from the registry and return its id to
    /// the allocator's pool, as a completed close call — or connection loss —
    /// demands. Reports whether a channel with the id was registered; with
    /// none, nothing changes.
    pub fn remove_channel(&mut self, id: u16) -> (r: bool)
        requires
            old(self).wf(),
        ensures
            final(self).wf(),
            final(self).options == old(self).options,
            final(self).state == old(self).state,
            r == has_chan(old(self).channels@, id),
            !r ==> *final(self) == *old(self),
            r ==> final(self).channels@ == old(self).channels@.remove(
                chan_index(old(self).channels@, id),
            ),
            r ==> !has_chan(final(self).channels@, id),
            r ==> ids_in_use(final(self).id_allocator@) == ids_in_use(
                old(self).id_allocator@,
            ).remove(id),
    {
        match self.find_chan(id) {
            None => false,
            Some(i) => {
                proof {
                    let j = chan_index(self.channels@, id);
                    assert(0 <= j < self.channels@.len() && self.channels@[j].id == id);
                    assert(j == i as int);
                }
                self.channels.remove(i);
                proof {
                    assert forall|k: int| 0 <= k < self.channels@.len() implies (
                        #[trigger] self.channels@[k]) == if k < i as int {
                        old(self).channels@[k]
                    } else {
                        old(self).channels@[k + 1]
                    } by {}
                }
                let released = self.id_allocator.release(id);
                proof {
                    assert(ids_in_use(old(self).id_allocator@).contains(id));
                    assert(released);
                    assert forall|k: int| 0 <= k < self.channels@.len() implies ids_in_use(
                        self.id_allocator@,
                    ).contains((#[trigger] self.channels@[k]).id) by {
                        if k < i as int {
                            assert(old(self).channels@[k].id != id);
                        } else {
                            assert(old(self).channels@[k + 1].id != id);
                        }
                    }
                    assert(!has_chan(self.channels@, id)) by {
                        if has_chan(self.channels@, id) {
                            let k = chan_index(self.channels@, id);
                            assert(0 <= k < self.channels@.len() && self.channels@[k].id == id);
                            if k < i as int {
                                assert(old(self).channels@[k].id == id);
                            } else {
                                assert(old(self).channels@[k + 1].id == id);
                            }
                        }
                    }
                }
                true
            },
        }
    }

    /// The index of the registered channel with the given id, if any.
    fn find_chan(&self, id: u16) -> (r: Option<usize>)
        ensures
            r is Some <==> has_chan(self.channels@, id),
            r matches Some(i) ==> 0 <= i < self.channels@.len() && self.channels@[i as int].id
                == id,
    {
        let n = self.channels.len();
        let mut i: usize = 0;
        while i < n
            invariant
                n == self.channels@.len(),
                0 <= i <= n,
                forall|k: int| 0 <= k < i ==> (#[trigger] self.channels@[k]).id != id,
            decreases n - i,
        {
            if self.channels[i].id == id {
                return Some(i);
            }
            i = i + 1;
        }
        None
    }

    /// Route one inbound frame: the channel the frame addresses — and only
    /// that channel — handles it; a frame addressed to channel 0 or to an id
    /// with no registered channel is reported as a `ProtocolViolation` and
    /// changes nothing.
    pub fn dispatch_frame(&mut self, frame: MethodFrame) -> (r: Result<(), AmqError>)
        requires
            old(self).wf(),
        ensures
            final(self).wf(),
            final(self).options == old(self).options,
            final(self).id_allocator == old(self).id_allocator,
            final(self).state == old(self).state,
            final(self).channels@ == spec_dispatch(old(self).channels@, frame).0,
            r is Ok <==> spec_dispatch(old(self).channels@, frame).1,
            r is Err ==> r == Err::<(), AmqError>(AmqError::ProtocolViolation),
            final(self).channels@.len() == old(self).channels@.len(),
            forall|j: int| 0 <= j < old(self).channels@.len()
                && (#[trigger] old(self).channels@[j]).id != frame.chan
                ==> final(self).channels@[j] == old(self).channels@[j],
    {
        let MethodFrame { chan, payload } = frame;
        match self.find_chan(chan) {
            None => Err(AmqError::ProtocolViolation),
            Some(i) => {
                proof {
                    let j = chan_index(self.channels@, chan);
                    assert(0 <= j < self.channels@.len() && self.channels@[j].id == chan);
                    assert(j == i as int);
                }
                let target = &mut self.channels[i];
                let r = target.handle_frame(payload);
                proof {
                    assert(self.channels@ =~= spec_dispatch(old(self).channels@, frame).0);
                }
                r
            },
        }
    }
}

/// Routing a frame touches at most the channel it addresses: every channel
/// with a different id is exactly as it was.
pub proof fn lemma_dispatch_isolation(chs: Seq<AmqChannel>, f: MethodFrame, j: int)
    requires
        0 <= j < chs.len(),
        chs[j].id != f.chan,
    ensures
        spec_dispatch(chs, f).0.len() == chs.len(),
        spec_dispatch(chs, f).0[j] == chs[j],
{
    if has_chan(chs, f.chan) {
        let i = chan_index(chs, f.chan);
        assert(0 <= i < chs.len() && chs[i].id == f.chan);
        assert(i != j);
    }
}

/// Registry contents after routing a whole inbound script, paired with how
/// many frames were reported as violations (unknown channel id, or a frame
/// the addressed channel refused).
pub open spec fn spec_run(chs: Seq<AmqChannel>, frames: Seq<MethodFrame>) -> (
    Seq<AmqChannel>,
    int,
)
    decreases frames.len(),
{
    if frames.len() == 0 {
        (chs, 0)
    } else {
        let step = spec_dispatch(chs, frames[0]);
        let rest = spec_run(step.0, frames.drop_first());
        (rest.0, rest.1 + if step.1 { 0int } else { 1int })
    }
}

/// Every channel after the dispatch loop terminates: each blocked waiter is
/// force-completed with `Lost`.
pub open spec fn spec_wake_all(chs: Seq<AmqChannel>) -> Seq<AmqChannel> {
    chs.map_values(|ch: AmqChannel| spec_lost(ch))
}

/// The violation count of a run never exceeds the number of frames routed.
proof fn lemma_run_count(chs: Seq<AmqChannel>, frames: Seq<MethodFrame>)
    ensures
        0 <= spec_run(chs, frames).1 <= frames.len(),
    decreases frames.len(),
{
    if frames.len() > 0 {
        lemma_run_count(spec_dispatch(chs, frames[0]).0, frames.drop_first());
    }
}

impl AmqConnection {
    /// The dispatch loop body, run to the end of the inbound stream: each
    /// frame is routed to the channel it addresses; a frame nothing is
    /// registered for is counted as a reported `ProtocolViolation` and
    /// skipped, never fatal. At end of stream the connection is marked
    /// `Closed` and every blocked waiter across all channels is woken with
    /// `Lost`, so no caller stays suspended.
    pub fn start_listener(&mut self, t: &mut Transport) -> (violations: usize)
        requires
            old(self).wf(),
        ensures
            final(self).wf(),
            final(self).state is Closed,
            final(self).options == old(self).options,
            final(self).id_allocator == old(self).id_allocator,
            final(t).inbound@.len() == 0,
            final(t).sent == old(t).sent,
            final(t).raw_sent == old(t).raw_sent,
            final(self).channels@ == spec_wake_all(
                spec_run(old(self).channels@, old(t).inbound@).0,
            ),
            violations == spec_run(old(self).channels@, old(t).inbound@).1,
            forall|i: int| 0 <= i < final(self).channels@.len()
                && (#[trigger] final(self).channels@[i]).pending is Some
                ==> final(self).channels@[i].reply is Some,
            forall|i: int| 0 <= i < spec_run(old(self).channels@, old(t).inbound@).0.len()
                && (#[trigger] spec_run(old(self).channels@, old(t).inbound@).0[i]).pending
                    is Some && spec_run(old(self).channels@, old(t).inbound@).0[i].reply is None
                ==> final(self).channels@[i].reply == Some(Reply::Lost),
    {
        let ghost chs0 = self.channels@;
        let ghost inb0 = t.inbound@;
        let n0 = t.inbound.len();
        let mut violations: usize = 0;
        while t.has_inbound()
            invariant
                self.wf(),
                self.options == old(self).options,
                self.id_allocator == old(self).id_allocator,
                self.state == old(self).state,
                t.sent == old(t).sent,
                t.raw_sent == old(t).raw_sent,
                spec_run(chs0, inb0).0 == spec_run(self.channels@, t.inbound@).0,
                spec_run(chs0, inb0).1 == violations + spec_run(self.channels@, t.inbound@).1,
                violations <= inb0.len() - t.inbound@.len(),
                t.inbound@.len() <= inb0.len(),
                inb0.len() == n0,
            decreases t.inbound@.len(),
        {
            let ghost chs_b = self.channels@;
            let ghost inb_b = t.inbound@;
            proof {
                lemma_run_count(spec_dispatch(chs_b, inb_b[0]).0, inb_b.drop_first());
                assert(spec_run(chs_b, inb_b).0 == spec_run(
                    spec_dispatch(chs_b, inb_b[0]).0,
                    inb_b.drop_first(),
                ).0);
                assert(spec_run(chs_b, inb_b).1 == spec_run(
                    spec_dispatch(chs_b, inb_b[0]).0,
                    inb_b.drop_first(),
                ).1 + if spec_dispatch(chs_b, inb_b[0]).1 {
                    0int
                } else {
                    1int
                });
            }
            match t.receive_frame() {
                None => {
                    proof {
                        assert(false);
                    }
                },
                Some(frame) => {
                    match self.dispatch_frame(frame) {
                        Ok(_) => {},
                        Err(_) => {
                            violations = violations + 1;
                        },
                    }
                },
            }
        }
        proof {
            assert(spec_run(self.channels@, t.inbound@).0 == self.channels@);
            assert(spec_run(self.channels@, t.inbound@).1 == 0);
        }
        self.state = ConnState::Closed;
        let ghost chs_mid = self.channels@;
        let n = self.channels.len();
        let mut i: usize = 0;
        while i < n
            invariant
                n == self.channels@.len(),
                0 <= i <= n,
                chs_mid.len() == n,
                self.wf(),
                self.options == old(self).options,
                self.id_allocator == old(self).id_allocator,
                self.state is Closed,
                forall|k: int| 0 <= k < i ==> self.channels@[k] == spec_lost(#[trigger] chs_mid[k]),
                forall|k: int| i <= k < n ==> self.channels@[k] == #[trigger] chs_mid[k],
            decreases n - i,
        {
            let target = &mut self.channels[i];
            target.connection_lost();
            i = i + 1;
        }
        proof {
            assert(self.channels@ =~= spec_wake_all(chs_mid));
        }
        violations
    }
}

/// The fixed client-properties table sent in `StartOk`.
fn client_properties() -> (ps: Vec<Property>)
    ensures
        is_client_properties(ps@),
{
    let mut ps: Vec<Property> = Vec::new();
    ps.push(Property {
        key: String::from_str("product"),
        value: String::from_str("simpleapp123123asd "),
    });
    ps.push(Property {
        key: String::from_str("platform"),
        value: String::from_str("Erlang/OTP 24.3.4"),
    });
    ps.push(Property {
        key: String::from_str("copyright"),
        value: String::from_str("param-pam-pamqweqwe"),
    });
    ps.push(Property {
        key: String::from_str("information"),
        value: String::from_str("Licensed under the MPL 2.0"),
    });
    ps
}

/// Build the `StartOk` answer: client properties, mechanism PLAIN, the
/// credentials as `plain_response`, locale `en_US`.
fn build_start_ok(login: &String, password: &String) -> (m: Method)
    ensures
        valid_start_ok(m, login@, password@),
{
    let mut response = String::from_str("\0");
    response.append(login.as_str());
    response.append("\0");
    response.append(password.as_str());
    proof {
        reveal_strlit("\0");
        assert(response@ =~= plain_response(login@, password@));
    }
    Method::ConnStartOk {
        properties: client_properties(),
        mechanism: String::from_str("PLAIN"),
        response,
        locale: String::from_str("en_US"),
    }
}

} // verus!
