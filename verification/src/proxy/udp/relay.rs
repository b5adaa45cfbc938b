//! Relaying one direction of a UDP session.

use vstd::prelude::*;

use crate::metrics::MetricEvent;
use crate::proxy::tcp::Dir;

verus! {

/// The largest datagram that is received whole.
pub const DATAGRAM_SIZE: usize = 65_535;

/// How many datagrams of a client may wait for their relay; more are dropped.
pub const QUEUE_SIZE: usize = 256;

/// What happens to one direction.
pub enum RelayEvent {
    /// The proxy shuts down, or the session was torn down.
    Stopped,
    /// A datagram came in.
    Received(Vec<u8>),
    /// No datagram will come any more: the queue was closed, or receiving failed.
    ReceiveFailed,
    /// So many bytes of the datagram were sent.
    Sent(u64),
    /// Sending failed.
    SendFailed,
}

/// What to do next.
#[derive(Clone, Copy, Debug, PartialEq, Eq, Structural)]
pub enum RelayAction {
    /// Wait for a datagram, or to be stopped.
    Receive,
    /// Note that a datagram passed now, and send the one that is pending.
    Send,
    /// Stop relaying this direction.
    Stop,
    /// Nothing: the event was not one that is waited for.
    Ignore,
}

/// What one direction is doing.
enum RelayPhase {
    /// Waiting for a datagram.
    Receiving,
    /// Sending this datagram.
    Sending(Vec<u8>),
    /// Ended.
    Stopped,
}

/// One direction of a session.
pub struct UdpRelay {
    dir: Dir,
    phase: RelayPhase,
}

/// What one direction is doing, as a value.
pub enum RelayStage {
    Receiving,
    Sending(Seq<u8>),
    Stopped,
}

/// One direction as a value.
pub struct RelayView {
    pub dir: Dir,
    pub stage: RelayStage,
}

impl View for UdpRelay {
    type V = RelayView;

    closed spec fn view(&self) -> RelayView {
        RelayView {
            dir: self.dir,
            stage: match self.phase {
                RelayPhase::Receiving => RelayStage::Receiving,
                RelayPhase::Sending(datagram) => RelayStage::Sending(datagram@),
                RelayPhase::Stopped => RelayStage::Stopped,
            },
        }
    }
}

impl RelayView {
    /// The direction after an event.
    pub open spec fn after(self, event: RelayEvent) -> RelayView {
        RelayView {
            dir: self.dir,
            stage: match (self.stage, event) {
                (RelayStage::Receiving, RelayEvent::Received(datagram)) => RelayStage::Sending(
                    datagram@,
                ),
                (RelayStage::Receiving, RelayEvent::Stopped) => RelayStage::Stopped,
                (RelayStage::Receiving, RelayEvent::ReceiveFailed) => RelayStage::Stopped,
                (RelayStage::Sending(_), RelayEvent::Sent(_)) => RelayStage::Receiving,
                (RelayStage::Sending(_), RelayEvent::SendFailed) => RelayStage::Stopped,
                _ => self.stage,
            },
        }
    }

    /// Whether the event is one that the direction waits for.
    pub open spec fn expects(self, event: RelayEvent) -> bool {
        match self.stage {
            RelayStage::Receiving => event is Received || event is Stopped || event
                is ReceiveFailed,
            RelayStage::Sending(_) => event is Sent || event is SendFailed,
            RelayStage::Stopped => false,
        }
    }

    /// What to do on an event.
    pub open spec fn action(self, event: RelayEvent) -> RelayAction {
        if !self.expects(event) {
            RelayAction::Ignore
        } else {
            match self.after(event).stage {
                RelayStage::Receiving => RelayAction::Receive,
                RelayStage::Sending(_) => RelayAction::Send,
                RelayStage::Stopped => RelayAction::Stop,
            }
        }
    }

    /// What the event adds to the metrics: the bytes that were sent.
    pub open spec fn counted(self, event: RelayEvent) -> Option<MetricEvent> {
        match (self.stage, event) {
            (RelayStage::Sending(_), RelayEvent::Sent(n)) => Some(
                MetricEvent::Relayed(self.dir, n),
            ),
            _ => None,
        }
    }
}

impl UdpRelay {
    /// A direction that waits for its first datagram.
    pub fn new(dir: Dir) -> (r: UdpRelay)
        ensures
            r@ == (RelayView { dir, stage: RelayStage::Receiving }),
    {
        UdpRelay { dir, phase: RelayPhase::Receiving }
    }

    /// The datagram to send, while it is being sent.
    pub fn pending(&self) -> (r: Option<&Vec<u8>>)
        ensures
            match r {
                Some(datagram) => self@.stage == RelayStage::Sending(datagram@),
                None => !(self@.stage is Sending),
            },
    {
        match &self.phase {
            RelayPhase::Sending(datagram) => Some(datagram),
            _ => None,
        }
    }

    /// Take an event in. Returns what to do next and what to count.
    pub fn on_event(&mut self, event: RelayEvent) -> (r: (RelayAction, Option<MetricEvent>))
        ensures
            final(self)@ == old(self)@.after(event),
            r.0 == old(self)@.action(event),
            r.1 == old(self)@.counted(event),
    {
        match (&self.phase, event) {
            (RelayPhase::Receiving, RelayEvent::Received(datagram)) => {
                self.phase = RelayPhase::Sending(datagram);
                (RelayAction::Send, None)
            },
            (RelayPhase::Receiving, RelayEvent::Stopped) => {
                self.phase = RelayPhase::Stopped;
                (RelayAction::Stop, None)
            },
            (RelayPhase::Receiving, RelayEvent::ReceiveFailed) => {
                self.phase = RelayPhase::Stopped;
                (RelayAction::Stop, None)
            },
            (RelayPhase::Sending(_), RelayEvent::Sent(n)) => {
                self.phase = RelayPhase::Receiving;
                (RelayAction::Receive, Some(MetricEvent::Relayed(self.dir, n)))
            },
            (RelayPhase::Sending(_), RelayEvent::SendFailed) => {
                self.phase = RelayPhase::Stopped;
                (RelayAction::Stop, None)
            },
            _ => (RelayAction::Ignore, None),
        }
    }
}

// ── Laws ─────────────────────────────────────────────────────────────────────

/// Datagrams keep their boundaries: the one that is sent is the one that was last
/// received, whole, the empty one too; and no other is received before it is dealt with.
pub proof fn law_datagrams_pass_whole(v: RelayView, event: RelayEvent)
    ensures
        v.action(event) == RelayAction::Send ==> {
            &&& event matches RelayEvent::Received(datagram) && v.after(event).stage
                == RelayStage::Sending(datagram@)
        },
        v.stage is Sending && event is Received ==> v.after(event) == v && v.action(event)
            == RelayAction::Ignore,
        v.stage is Receiving && event is Received ==> v.action(event) == RelayAction::Send,
{
}

/// A direction that has stopped stays stopped and counts nothing more.
pub proof fn law_stopped_relay_stays_stopped(v: RelayView, event: RelayEvent)
    requires
        v.stage is Stopped,
    ensures
        v.after(event) == v,
        v.counted(event) is None,
{
}

/// What one direction does on each event: what is received is sent next, as it is; once
/// sent, as many bytes count for its direction as were sent; a failure or a stop ends it.
pub proof fn law_relay_steps(v: RelayView, event: RelayEvent)
    ensures
        v.after(event).dir == v.dir,
        v.stage is Receiving ==> {
            &&& event matches RelayEvent::Received(datagram) ==> v.after(event).stage
                == RelayStage::Sending(datagram@) && v.action(event) == RelayAction::Send
            &&& event is Stopped || event is ReceiveFailed ==> v.after(event).stage is Stopped
                && v.action(event) == RelayAction::Stop
            &&& event is Sent || event is SendFailed ==> v.after(event) == v && v.action(event)
                == RelayAction::Ignore
            &&& v.counted(event) is None
        },
        v.stage is Sending ==> {
            &&& event matches RelayEvent::Sent(n) ==> v.after(event).stage is Receiving && v.action(
                event,
            ) == RelayAction::Receive && v.counted(event) == Some(MetricEvent::Relayed(v.dir, n))
            &&& event is SendFailed ==> v.after(event).stage is Stopped && v.action(event)
                == RelayAction::Stop
            &&& event is Stopped || event is ReceiveFailed ==> v.after(event) == v && v.action(
                event,
            ) == RelayAction::Ignore
            &&& !(event is Sent) ==> v.counted(event) is None
        },
        v.stage is Stopped ==> v.action(event) == RelayAction::Ignore,
{
}

/// No datagram is too large to be received whole, as its length is a number of sixteen
/// bits; and a client's burst of 256 datagrams can wait.
pub proof fn law_any_datagram_fits(len: u16)
    ensures
        len <= DATAGRAM_SIZE,
        DATAGRAM_SIZE == u16::MAX,
        QUEUE_SIZE == 256,
{
}

} // verus!
