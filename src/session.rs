//! One client connection: the handshake, what each inbound frame does, the
//! outbound queue that the sender drains, the relay of hub deliveries, and
//! the orderly shutdown.
use vstd::prelude::*;
use crate::codec::{PixelUpdate, DecodeError, decode, decoded, encode, frame_of, lemma_round_trip};
use crate::canvas::{Canvas, applied, replay_of};
use crate::hub::{Hub, has_id, published};

verus! {

/// The subprotocol a client must offer in its handshake.
pub const SUBPROTOCOL: &'static str = "pixel-canvas";

/// A transport frame, inbound or outbound.
#[derive(Debug, PartialEq, Eq)]
pub enum Frame {
    Binary(Vec<u8>),
    Ping(Vec<u8>),
    Pong(Vec<u8>),
    Close,
}

/// What a frame carries, as a mathematical value.
pub enum FrameModel {
    Binary(Seq<u8>),
    Ping(Seq<u8>),
    Pong(Seq<u8>),
    Close,
}

impl View for Frame {
    type V = FrameModel;

    open spec fn view(&self) -> FrameModel {
        match self {
            Frame::Binary(b) => FrameModel::Binary(b@),
            Frame::Ping(b) => FrameModel::Ping(b@),
            Frame::Pong(b) => FrameModel::Pong(b@),
            Frame::Close => FrameModel::Close,
        }
    }
}

/// Where a connection stands.
#[derive(Clone, Copy, Debug, PartialEq, Eq, Structural)]
pub enum SessionState {
    /// The handshake has not completed; a refused handshake never leaves it.
    Connecting,
    /// Frames flow both ways.
    Open,
    /// The shutdown signal is up; the sender and the relay are winding down.
    Closing,
    /// The subscriber has left the hub and the transport is closed.
    Closed,
}

/// Why a connection was not opened.
#[derive(Clone, Copy, Debug, PartialEq, Eq, Structural)]
pub enum SessionError {
    /// The client did not offer the required subprotocol.
    MissingSubprotocol,
    /// The hub has no subscriber identifier left to give.
    HubFull,
}

/// The outbound frames that replay a canvas, one per painted cell.
pub open spec fn replay_frames(c: Seq<(u8, u8, u8)>) -> Seq<FrameModel> {
    replay_of(c).map_values(|u: PixelUpdate| FrameModel::Binary(frame_of(u)))
}

/// The outbound frames that relay delivered commands.
pub open spec fn relay_frames(us: Seq<PixelUpdate>) -> Seq<FrameModel> {
    us.map_values(|u: PixelUpdate| FrameModel::Binary(frame_of(u)))
}

/// A joining client decodes its replay frames, in order, to exactly the
/// replay of the canvas it joined.
pub proof fn lemma_replay_frames_decode(c: Seq<(u8, u8, u8)>)
    ensures
        replay_frames(c).len() == replay_of(c).len(),
        forall|j: int|
            0 <= j < replay_of(c).len() ==> #[trigger] replay_frames(c)[j] == FrameModel::Binary(
                frame_of(replay_of(c)[j]),
            ) && decoded(frame_of(replay_of(c)[j])) == Ok::<PixelUpdate, DecodeError>(replay_of(c)[j]),
{
    assert forall|j: int| 0 <= j < replay_of(c).len() implies #[trigger] replay_frames(c)[j]
        == FrameModel::Binary(frame_of(replay_of(c)[j])) && decoded(frame_of(replay_of(c)[j])) == Ok::<
        PixelUpdate,
        DecodeError,
    >(replay_of(c)[j]) by {
        lemma_round_trip(replay_of(c)[j]);
    }
}

/// The command a binary frame carries when it is to be painted: one that
/// decodes and lies on the canvas.
pub open spec fn accepted(b: Seq<u8>) -> Option<PixelUpdate> {
    match decoded(b) {
        Ok(u) => if u.in_bounds() {
            Some(u)
        } else {
            None
        },
        Err(_) => None,
    }
}

/// Whether a list of offered subprotocols holds the required one.
pub open spec fn offers(offered: Seq<String>) -> bool {
    exists|k: int| 0 <= k < offered.len() && (#[trigger] offered[k])@ == SUBPROTOCOL@
}

/// Whether the client offered the required subprotocol.
pub fn offers_subprotocol(offered: &Vec<String>) -> (r: bool)
    ensures
        r == offers(offered@),
{
    let want = SUBPROTOCOL.to_owned();
    let mut k: usize = 0;
    while k < offered.len()
        invariant
            k <= offered@.len(),
            want@ == SUBPROTOCOL@,
            forall|j: int| 0 <= j < k ==> offered@[j]@ != SUBPROTOCOL@,
        decreases offered@.len() - k,
    {
        if offered[k] == want {
            assert(offered@[k as int]@ == SUBPROTOCOL@);
            return true;
        }
        k = k + 1;
    }
    assert(!offers(offered@)) by {
        if offers(offered@) {
            let j = choose|j: int| 0 <= j < offered@.len() && (#[trigger] offered@[j])@ == SUBPROTOCOL@;
            assert(offered@[j]@ == SUBPROTOCOL@);
        }
    }
    false
}

/// The state of one client connection.
pub struct Session {
    state: SessionState,
    subscriber: u64,
    shutdown: bool,
    outbound: Vec<Frame>,
}

impl Session {
    pub closed spec fn state_of(&self) -> SessionState {
        self.state
    }

    /// The hub subscriber that feeds this connection.
    pub closed spec fn subscriber_of(&self) -> u64 {
        self.subscriber
    }

    /// Whether the shutdown signal has been raised.
    pub closed spec fn shutdown_of(&self) -> bool {
        self.shutdown
    }

    /// The frames waiting to be written, oldest first.
    pub closed spec fn outbound_of(&self) -> Seq<FrameModel> {
        self.outbound@.map_values(|f: Frame| f@)
    }

    /// Completes the handshake: with the required subprotocol offered, the
    /// connection registers a subscriber, queues the replay of the canvas and
    /// is open; otherwise it is refused and nothing changes.
    pub fn accept(offered: &Vec<String>, canvas: &Canvas, hub: &mut Hub) -> (r: Result<Session, SessionError>)
        requires
            canvas.wf(),
            old(hub).wf(),
        ensures
            final(hub).wf(),
            !offers(offered@) ==> r == Err::<Session, SessionError>(
                SessionError::MissingSubprotocol,
            ) && final(hub)@ == old(hub)@,
            offers(offered@) && !old(hub).can_register() ==> r
                == Err::<Session, SessionError>(SessionError::HubFull) && final(hub)@ == old(hub)@,
            offers(offered@) && old(hub).can_register() ==> r is Ok,
            r matches Ok(s) ==> {
                &&& s.wf()
                &&& s.state_of() == SessionState::Open
                &&& !s.shutdown_of()
                &&& !has_id(old(hub)@, s.subscriber_of())
                &&& final(hub)@ == old(hub)@.push((s.subscriber_of(), Seq::<PixelUpdate>::empty()))
                &&& s.outbound_of() == replay_frames(canvas@)
            },
    {
        if !offers_subprotocol(offered) {
            return Err(SessionError::MissingSubprotocol);
        }
        let id = match hub.register() {
            Some(id) => id,
            None => return Err(SessionError::HubFull),
        };
        let snap = canvas.snapshot();
        let cells = snap.replay();
        let mut outbound: Vec<Frame> = Vec::new();
        let mut k: usize = 0;
        while k < cells.len()
            invariant
                k <= cells@.len(),
                cells@ == replay_of(canvas@),
                replay_frames(canvas@).len() == cells@.len(),
                outbound@.len() == k,
                forall|j: int| 0 <= j < k ==> (#[trigger] outbound@[j])@ == replay_frames(canvas@)[j],
            decreases cells@.len() - k,
        {
            let f = Frame::Binary(encode(&cells[k]));
            outbound.push(f);
            k = k + 1;
        }
        assert(outbound@.map_values(|f: Frame| f@) =~= replay_frames(canvas@));
        Ok(Session { state: SessionState::Open, subscriber: id, shutdown: false, outbound })
    }
    pub closed spec fn wf(&self) -> bool {
        self.shutdown <==> (self.state == SessionState::Closing || self.state == SessionState::Closed)
    }

    /// Applies one inbound frame. While open: a binary frame that decodes to
    /// a command on the canvas paints its cell and is published to the hub,
    /// and any other binary frame is dropped; a ping queues a pong with the
    /// same payload; a close starts the shutdown. Otherwise nothing changes.
    pub fn on_frame(&mut self, f: Frame, canvas: &mut Canvas, hub: &mut Hub)
        requires
            old(self).wf(),
            old(canvas).wf(),
            old(hub).wf(),
        ensures
            final(self).wf(),
            final(canvas).wf(),
            final(hub).wf(),
            final(self).subscriber_of() == old(self).subscriber_of(),
            old(self).state_of() != SessionState::Open ==> *final(self) == *old(self) && final(canvas)@
                == old(canvas)@ && final(hub)@ == old(hub)@,
            old(self).state_of() == SessionState::Open ==> match f@ {
                FrameModel::Binary(b) => {
                    &&& *final(self) == *old(self)
                    &&& accepted(b) is Some ==> final(canvas)@ == applied(
                        old(canvas)@,
                        accepted(b)->Some_0,
                    ) && final(hub)@ == published(old(hub)@, accepted(b)->Some_0)
                    &&& accepted(b) is None ==> final(canvas)@ == old(canvas)@ && final(hub)@ == old(
                        hub,
                    )@
                },
                FrameModel::Ping(p) => {
                    &&& final(self).state_of() == SessionState::Open
                    &&& final(self).shutdown_of() == old(self).shutdown_of()
                    &&& final(self).outbound_of() == old(self).outbound_of().push(FrameModel::Pong(p))
                    &&& final(canvas)@ == old(canvas)@
                    &&& final(hub)@ == old(hub)@
                },
                FrameModel::Pong(_) => *final(self) == *old(self) && final(canvas)@ == old(canvas)@
                    && final(hub)@ == old(hub)@,
                FrameModel::Close => {
                    &&& final(self).state_of() == SessionState::Closing
                    &&& final(self).shutdown_of()
                    &&& final(self).outbound_of() == old(self).outbound_of().push(FrameModel::Close)
                    &&& final(canvas)@ == old(canvas)@
                    &&& final(hub)@ == old(hub)@
                },
            },
    {
        if self.state != SessionState::Open {
            return;
        }
        match f {
            Frame::Binary(b) => {
                match decode(b.as_slice()) {
                    Ok(u) => {
                        if u.is_in_bounds() {
                            canvas.set_pixel(&u);
                            hub.publish(&u);
                        }
                    },
                    Err(DecodeError::Truncated) => {},
                }
            },
            Frame::Ping(p) => {
                self.outbound.push(Frame::Pong(p));
                assert(self.outbound@.map_values(|f: Frame| f@) =~= old(self).outbound@.map_values(
                    |f: Frame| f@,
                ).push(FrameModel::Pong(p@)));
            },
            Frame::Pong(_) => {},
            Frame::Close => {
                self.begin_closing();
            },
        }
    }

    /// Starts the shutdown: raises the signal and queues a close frame. Used
    /// on a close from the client and on a transport failure.
    pub fn begin_closing(&mut self)
        requires
            old(self).wf(),
        ensures
            final(self).wf(),
            final(self).subscriber_of() == old(self).subscriber_of(),
            old(self).state_of() == SessionState::Open ==> final(self).state_of() == SessionState::Closing
                && final(self).shutdown_of() && final(self).outbound_of() == old(
                self,
            ).outbound_of().push(FrameModel::Close),
            old(self).state_of() != SessionState::Open ==> *final(self) == *old(self),
    {
        if self.state == SessionState::Open {
            self.state = SessionState::Closing;
            self.shutdown = true;
            self.outbound.push(Frame::Close);
            assert(self.outbound@.map_values(|f: Frame| f@) =~= old(self).outbound@.map_values(
                |f: Frame| f@,
            ).push(FrameModel::Close));
        }
    }

    /// The relay's step: moves what the hub delivered to this connection
    /// onto the outbound queue, encoded, in delivery order. Once the shutdown
    /// signal is up it does nothing.
    pub fn relay(&mut self, hub: &mut Hub)
        requires
            old(self).wf(),
            old(hub).wf(),
        ensures
            final(self).wf(),
            final(hub).wf(),
            final(self).state_of() == old(self).state_of(),
            final(self).shutdown_of() == old(self).shutdown_of(),
            final(self).subscriber_of() == old(self).subscriber_of(),
            old(self).shutdown_of() ==> *final(self) == *old(self) && final(hub)@ == old(hub)@,
            !old(self).shutdown_of() ==> {
                &&& !has_id(old(hub)@, old(self).subscriber_of()) ==> final(self).outbound_of() == old(
                    self,
                ).outbound_of() && final(hub)@ == old(hub)@
                &&& forall|k: int|
                    0 <= k < old(hub)@.len() && old(hub)@[k].0 == old(self).subscriber_of()
                        ==> final(self).outbound_of() == old(self).outbound_of() + relay_frames(
                        old(hub)@[k].1,
                    ) && final(hub)@ == old(hub)@.update(
                        k,
                        (old(self).subscriber_of(), Seq::<PixelUpdate>::empty()),
                    )
            },
    {
        if self.shutdown {
            return;
        }
        let delivered = hub.drain(self.subscriber);
        let ghost start = self.outbound@;
        let mut k: usize = 0;
        while k < delivered.len()
            invariant
                k <= delivered@.len(),
                self.wf(),
                !self.shutdown,
                self.state == old(self).state,
                self.subscriber == old(self).subscriber,
                start == old(self).outbound@,
                self.outbound@.len() == start.len() + k,
                forall|j: int| 0 <= j < start.len() ==> #[trigger] self.outbound@[j] == start[j],
                forall|j: int|
                    0 <= j < k ==> (#[trigger] self.outbound@[start.len() + j])@ == relay_frames(
                        delivered@,
                    )[j],
            decreases delivered@.len() - k,
        {
            self.outbound.push(Frame::Binary(encode(&delivered[k])));
            k = k + 1;
        }
        let ghost out = self.outbound@;
        let ghost mo = out.map_values(|f: Frame| f@);
        let ghost ms = start.map_values(|f: Frame| f@) + relay_frames(delivered@);
        assert forall|i: int| 0 <= i < out.len() implies #[trigger] mo[i] == ms[i] by {
            if i >= start.len() {
                assert(out[start.len() + (i - start.len())] == out[i]);
            } else {
                assert(out[i] == start[i]);
            }
        }
        assert(self.outbound@.map_values(|f: Frame| f@) =~= old(self).outbound@.map_values(
            |f: Frame| f@,
        ) + relay_frames(delivered@));
        if delivered.len() == 0 {
            assert(self.outbound_of() =~= old(self).outbound_of());
        }
    }

    /// The sender's step: the oldest frame waiting to be written, taken off
    /// the queue, or `None` when nothing waits.
    pub fn next_outbound(&mut self) -> (r: Option<Frame>)
        requires
            old(self).wf(),
        ensures
            final(self).wf(),
            final(self).state_of() == old(self).state_of(),
            final(self).shutdown_of() == old(self).shutdown_of(),
            final(self).subscriber_of() == old(self).subscriber_of(),
            old(self).outbound_of().len() == 0 ==> r is None && final(self).outbound_of() == old(
                self,
            ).outbound_of(),
            old(self).outbound_of().len() > 0 ==> r is Some && r->Some_0@ == old(self).outbound_of()[0]
                && final(self).outbound_of() == old(self).outbound_of().drop_first(),
    {
        if self.outbound.len() == 0 {
            None
        } else {
            let f = self.outbound.remove(0);
            assert(self.outbound@.map_values(|f: Frame| f@) =~= old(self).outbound@.map_values(
                |f: Frame| f@,
            ).drop_first());
            Some(f)
        }
    }

    /// Whether the sender is done: the shutdown signal is up and every queued
    /// frame, the close frame last, has been written.
    pub fn sender_done(&self) -> (r: bool)
        ensures
            r == (self.shutdown_of() && self.outbound_of().len() == 0),
    {
        self.shutdown && self.outbound.len() == 0
    }

    /// Ends the shutdown once the sender and the relay have stopped: the
    /// subscriber leaves the hub and the connection is closed.
    pub fn finish(&mut self, hub: &mut Hub)
        requires
            old(self).wf(),
            old(hub).wf(),
            old(self).state_of() == SessionState::Closing,
        ensures
            final(self).wf(),
            final(hub).wf(),
            final(self).state_of() == SessionState::Closed,
            final(self).subscriber_of() == old(self).subscriber_of(),
            final(self).outbound_of() == old(self).outbound_of(),
            !has_id(final(hub)@, old(self).subscriber_of()),
            has_id(old(hub)@, old(self).subscriber_of()) ==> exists|k: int|
                0 <= k < old(hub)@.len() && old(hub)@[k].0 == old(self).subscriber_of() && final(hub)@
                    == old(hub)@.remove(k),
    {
        hub.unregister(self.subscriber);
        self.state = SessionState::Closed;
    }

    /// Where the connection stands.
    pub fn state(&self) -> (r: SessionState)
        ensures
            r == self.state_of(),
    {
        self.state
    }

    /// Whether the shutdown signal is up.
    pub fn is_shutting_down(&self) -> (r: bool)
        ensures
            r == self.shutdown_of(),
    {
        self.shutdown
    }

    /// The hub subscriber that feeds this connection.
    pub fn subscriber(&self) -> (r: u64)
        ensures
            r == self.subscriber_of(),
    {
        self.subscriber
    }

    /// How many frames wait to be written.
    pub fn pending(&self) -> (r: usize)
        ensures
            r == self.outbound_of().len(),
    {
        self.outbound.len()
    }
}

} // verus!
