//! The concentrator side of the bridge: what to do with what the
//! concentrators say, and when to send a downlink in which receive window.

use crate::link_packet::LinkPacket;
use crate::notice::LogLevel;
use vstd::prelude::*;

verus! {

/// Seconds to wait for a concentrator to acknowledge a downlink, per window.
pub const DOWNLINK_TIMEOUT_SECS: u64 = 5;

/// Nominal budget, in seconds, for handling one uplink.
pub const UPLINK_TIMEOUT_SECS: u64 = 6;

/// The two windows in which a device listens after it has sent.
#[derive(Clone, Copy, Debug, PartialEq, Eq, Structural)]
pub enum Window {
    Rx1,
    Rx2,
}

impl Window {
    /// The number by which a pull response names the window.
    pub fn number(&self) -> (n: u8)
        ensures
            n == match self {
                Window::Rx1 => 1u8,
                Window::Rx2 => 2u8,
            },
    {
        match self {
            Window::Rx1 => 1,
            Window::Rx2 => 2,
        }
    }
}

/// How the dispatch of a pull response ended.
#[derive(Clone, Copy, Debug, PartialEq, Eq, Structural)]
pub enum DispatchOutcome {
    /// The concentrator took the downlink.
    Success,
    /// The concentrator acknowledged with the error `NONE`: no error.
    AckNone,
    /// The concentrator found the downlink too early for its window.
    AckTooEarly,
    /// The concentrator found the downlink too late for its window.
    AckTooLate,
    /// Anything else: another acknowledged error, no answer in time, a
    /// transport error.
    Failed,
}

/// What arrived from the concentrators.
#[derive(Clone, Copy, Debug, PartialEq, Eq, Structural)]
pub enum UdpEvent {
    /// A frame that is no packet-forwarder frame.
    UnableToParseUdpFrame,
    /// A concentrator reported in for the first time.
    NewClient,
    /// A known concentrator reported in from a new address.
    UpdateClient,
    /// A concentrator heard a frame: lifted into a packet, or `None` where
    /// it could not be lifted.
    PacketReceived(Option<LinkPacket>),
    /// A downlink was meant for a concentrator that nobody knows.
    NoClientWithMac,
    /// A frame handed through as it came.
    RawPacket,
}

/// What the gateway is told.
#[derive(Clone, Copy, Debug, PartialEq, Eq, Structural)]
pub enum GatewayEvent {
    /// The shutdown signal fired.
    Shutdown,
    /// Something arrived from the concentrators.
    Udp(UdpEvent),
    /// The downlink queue gave a packet, or `None` because it is closed.
    Downlink(Option<LinkPacket>),
    /// The dispatch that was asked for has ended.
    Dispatched(DispatchOutcome),
}

/// Something worth a line in the log, and nothing more.
#[derive(Clone, Copy, Debug, PartialEq, Eq, Structural)]
pub enum GatewayNotice {
    /// A frame could not be parsed and was dropped.
    UnparsedFrame,
    /// A concentrator is new.
    NewClient,
    /// A concentrator has a new address.
    UpdatedClient,
    /// A LongFi frame was dropped.
    LongFi,
    /// A frame could not be lifted into a packet and was dropped.
    NotLifted,
    /// A downlink was meant for a concentrator that nobody knows.
    UnknownMac,
    /// The downlink queue is closed.
    ClosedDownlinks,
    /// The dispatch in the first window failed for good; the downlink is lost.
    Rx1Failed,
    /// The dispatch in the second window failed; the downlink is lost.
    Rx2Failed,
    /// The end of a dispatch was reported that nobody had asked for.
    UnexpectedOutcome,
}

/// How loud each notice is.
pub open spec fn notice_level(notice: GatewayNotice) -> LogLevel {
    match notice {
        GatewayNotice::UnparsedFrame => LogLevel::Info,
        GatewayNotice::NewClient => LogLevel::Info,
        GatewayNotice::UpdatedClient => LogLevel::Info,
        GatewayNotice::LongFi => LogLevel::Info,
        GatewayNotice::NotLifted => LogLevel::Debug,
        GatewayNotice::UnknownMac => LogLevel::Warn,
        GatewayNotice::ClosedDownlinks => LogLevel::Debug,
        GatewayNotice::Rx1Failed => LogLevel::Debug,
        GatewayNotice::Rx2Failed => LogLevel::Debug,
        GatewayNotice::UnexpectedOutcome => LogLevel::Debug,
    }
}

impl GatewayNotice {
    /// How loud the notice is.
    pub fn level(&self) -> (level: LogLevel)
        ensures
            level == notice_level(*self),
    {
        match self {
            GatewayNotice::UnparsedFrame => LogLevel::Info,
            GatewayNotice::NewClient => LogLevel::Info,
            GatewayNotice::UpdatedClient => LogLevel::Info,
            GatewayNotice::LongFi => LogLevel::Info,
            GatewayNotice::UnknownMac => LogLevel::Warn,
            _ => LogLevel::Debug,
        }
    }
}

/// A pull response to submit, and how long to wait for its acknowledgement.
#[derive(Clone, Copy, Debug, PartialEq, Eq, Structural)]
pub struct Dispatch {
    /// The concentrator that is to send.
    pub gateway_mac: u64,
    /// The window that the pull response is formed for.
    pub window: Window,
    /// Seconds to wait for the acknowledgement.
    pub timeout_secs: u64,
}

/// What the gateway wants done.
#[derive(Clone, Copy, Debug, PartialEq, Eq, Structural)]
pub enum GatewayAction {
    /// Return: the shutdown signal was seen.
    Stop,
    /// Put the packet on the uplink queue, waiting for room if need be.
    Enqueue(LinkPacket),
    /// Submit the pull response, await its end, and report back.
    Dispatch(Dispatch),
    /// Log the notice and go on.
    Note(GatewayNotice),
    /// Nothing is to be done.
    Nothing,
    /// A dispatch is in flight: the event was not taken and is to be told
    /// again.
    Busy,
}

/// The downlink whose dispatch is in flight, and the window it was sent for.
#[derive(Clone, Copy, Debug, PartialEq, Eq, Structural)]
pub struct Pending {
    pub packet: LinkPacket,
    pub window: Window,
}

/// The dispatch of `packet` in `window`.
pub open spec fn dispatch_of(packet: LinkPacket, window: Window) -> Dispatch {
    Dispatch { gateway_mac: packet.gateway_mac, window, timeout_secs: DOWNLINK_TIMEOUT_SECS }
}

/// What is done with something that arrived from the concentrators: a
/// lifted LoRaWAN frame is queued, everything else is dropped.
pub open spec fn udp_action(event: UdpEvent) -> GatewayAction {
    match event {
        UdpEvent::UnableToParseUdpFrame => GatewayAction::Note(GatewayNotice::UnparsedFrame),
        UdpEvent::NewClient => GatewayAction::Note(GatewayNotice::NewClient),
        UdpEvent::UpdateClient => GatewayAction::Note(GatewayNotice::UpdatedClient),
        UdpEvent::PacketReceived(Some(packet)) => if packet.longfi {
            GatewayAction::Note(GatewayNotice::LongFi)
        } else {
            GatewayAction::Enqueue(packet)
        },
        UdpEvent::PacketReceived(None) => GatewayAction::Note(GatewayNotice::NotLifted),
        UdpEvent::NoClientWithMac => GatewayAction::Note(GatewayNotice::UnknownMac),
        UdpEvent::RawPacket => GatewayAction::Nothing,
    }
}

/// Whether a dispatch missed its window.
pub open spec fn missed_window(outcome: DispatchOutcome) -> bool {
    outcome is AckTooEarly || outcome is AckTooLate
}

/// Whether a dispatch got the downlink on its way.
pub open spec fn delivered(outcome: DispatchOutcome) -> bool {
    outcome is Success || outcome is AckNone
}

/// What follows the end of the dispatch `pending`. Only a first window that
/// was missed, for a downlink that has a second, leads to another dispatch.
pub open spec fn after_dispatch(pending: Pending, outcome: DispatchOutcome) -> (
    Option<Pending>,
    GatewayAction,
) {
    match pending.window {
        Window::Rx1 => if delivered(outcome) {
            (None, GatewayAction::Nothing)
        } else if missed_window(outcome) {
            if pending.packet.rx2_window {
                (
                    Some(Pending { packet: pending.packet, window: Window::Rx2 }),
                    GatewayAction::Dispatch(dispatch_of(pending.packet, Window::Rx2)),
                )
            } else {
                (None, GatewayAction::Nothing)
            }
        } else {
            (None, GatewayAction::Note(GatewayNotice::Rx1Failed))
        },
        Window::Rx2 => if delivered(outcome) {
            (None, GatewayAction::Nothing)
        } else {
            (None, GatewayAction::Note(GatewayNotice::Rx2Failed))
        },
    }
}

/// The gateway after an event, and what it wants done. While a dispatch is
/// in flight nothing but its end is taken.
pub open spec fn gateway_step(state: Option<Pending>, event: GatewayEvent) -> (
    Option<Pending>,
    GatewayAction,
) {
    match state {
        Some(pending) => match event {
            GatewayEvent::Dispatched(outcome) => after_dispatch(pending, outcome),
            _ => (state, GatewayAction::Busy),
        },
        None => match event {
            GatewayEvent::Shutdown => (None, GatewayAction::Stop),
            GatewayEvent::Udp(udp) => (None, udp_action(udp)),
            GatewayEvent::Downlink(Some(packet)) => (
                Some(Pending { packet, window: Window::Rx1 }),
                GatewayAction::Dispatch(dispatch_of(packet, Window::Rx1)),
            ),
            GatewayEvent::Downlink(None) => (
                None,
                GatewayAction::Note(GatewayNotice::ClosedDownlinks),
            ),
            GatewayEvent::Dispatched(_) => (
                None,
                GatewayAction::Note(GatewayNotice::UnexpectedOutcome),
            ),
        },
    }
}

/// The gateway after `events`, taken first to last.
pub open spec fn gateway_after(state: Option<Pending>, events: Seq<GatewayEvent>) -> Option<
    Pending,
>
    decreases events.len(),
{
    if events.len() == 0 {
        state
    } else {
        gateway_step(gateway_after(state, events.drop_last()), events.last()).0
    }
}

/// The gateway: the dispatch in flight, if any.
#[derive(Debug, PartialEq, Eq)]
pub struct Gateway {
    awaiting: Option<Pending>,
}

impl View for Gateway {
    type V = Option<Pending>;

    closed spec fn view(&self) -> Option<Pending> {
        self.awaiting
    }
}

impl Gateway {
    /// A gateway with no dispatch in flight.
    pub fn new() -> (gateway: Gateway)
        ensures
            gateway@ is None,
    {
        Gateway { awaiting: None }
    }

    /// The dispatch in flight, if any.
    pub fn awaiting(&self) -> (pending: Option<Pending>)
        ensures
            pending == self@,
    {
        self.awaiting
    }

    /// Decides what is done with something that arrived from the
    /// concentrators.
    pub fn handle_udp_event(&self, event: UdpEvent) -> (action: GatewayAction)
        ensures
            action == udp_action(event),
    {
        match event {
            UdpEvent::UnableToParseUdpFrame => GatewayAction::Note(GatewayNotice::UnparsedFrame),
            UdpEvent::NewClient => GatewayAction::Note(GatewayNotice::NewClient),
            UdpEvent::UpdateClient => GatewayAction::Note(GatewayNotice::UpdatedClient),
            UdpEvent::PacketReceived(lifted) => match lifted {
                Some(packet) => {
                    if packet.is_longfi() {
                        GatewayAction::Note(GatewayNotice::LongFi)
                    } else {
                        GatewayAction::Enqueue(packet)
                    }
                },
                None => GatewayAction::Note(GatewayNotice::NotLifted),
            },
            UdpEvent::NoClientWithMac => GatewayAction::Note(GatewayNotice::UnknownMac),
            UdpEvent::RawPacket => GatewayAction::Nothing,
        }
    }

    /// Takes a downlink off the queue and asks for its dispatch in the first
    /// window.
    pub fn handle_downlink(&mut self, downlink: LinkPacket) -> (action: GatewayAction)
        ensures
            (final(self)@, action) == gateway_step(
                old(self)@,
                GatewayEvent::Downlink(Some(downlink)),
            ),
    {
        if self.awaiting.is_some() {
            return GatewayAction::Busy;
        }
        self.awaiting = Some(Pending { packet: downlink, window: Window::Rx1 });
        GatewayAction::Dispatch(
            Dispatch {
                gateway_mac: downlink.gateway_mac,
                window: Window::Rx1,
                timeout_secs: DOWNLINK_TIMEOUT_SECS,
            },
        )
    }

    /// Takes the end of the dispatch in flight: a first window that was
    /// missed is followed by the second, where the downlink has one; every
    /// other end is final.
    pub fn handle_dispatched(&mut self, outcome: DispatchOutcome) -> (action: GatewayAction)
        ensures
            (final(self)@, action) == gateway_step(old(self)@, GatewayEvent::Dispatched(outcome)),
    {
        let pending = match self.awaiting {
            Some(pending) => pending,
            None => {
                return GatewayAction::Note(GatewayNotice::UnexpectedOutcome);
            },
        };
        self.awaiting = None;
        let done = match outcome {
            DispatchOutcome::Success => true,
            DispatchOutcome::AckNone => true,
            _ => false,
        };
        if done {
            return GatewayAction::Nothing;
        }
        match pending.window {
            Window::Rx1 => match outcome {
                DispatchOutcome::Failed => GatewayAction::Note(GatewayNotice::Rx1Failed),
                _ => {
                    if pending.packet.rx2_window {
                        self.awaiting =
                        Some(Pending { packet: pending.packet, window: Window::Rx2 });
                        GatewayAction::Dispatch(
                            Dispatch {
                                gateway_mac: pending.packet.gateway_mac,
                                window: Window::Rx2,
                                timeout_secs: DOWNLINK_TIMEOUT_SECS,
                            },
                        )
                    } else {
                        GatewayAction::Nothing
                    }
                },
            },
            Window::Rx2 => GatewayAction::Note(GatewayNotice::Rx2Failed),
        }
    }

    /// Handles one event.
    pub fn step(&mut self, event: GatewayEvent) -> (action: GatewayAction)
        ensures
            (final(self)@, action) == gateway_step(old(self)@, event),
    {
        match event {
            GatewayEvent::Dispatched(outcome) => self.handle_dispatched(outcome),
            GatewayEvent::Downlink(Some(downlink)) => self.handle_downlink(downlink),
            _ => {
                if self.awaiting.is_some() {
                    return GatewayAction::Busy;
                }
                match event {
                    GatewayEvent::Shutdown => GatewayAction::Stop,
                    GatewayEvent::Udp(udp) => self.handle_udp_event(udp),
                    _ => GatewayAction::Note(GatewayNotice::ClosedDownlinks),
                }
            },
        }
    }

    /// Handles the events in order, up to and with the first that is
    /// answered by `Stop`. Gives the action for each event that was handled.
    pub fn run(&mut self, events: &Vec<GatewayEvent>) -> (actions: Vec<GatewayAction>)
        ensures
            actions@.len() <= events@.len(),
            final(self)@ == gateway_after(old(self)@, events@.take(actions@.len() as int)),
            forall|i: int|
                0 <= i < actions@.len() ==> #[trigger] actions@[i] == gateway_step(
                    gateway_after(old(self)@, events@.take(i)),
                    events@[i],
                ).1,
            forall|i: int| 0 <= i < actions@.len() - 1 ==> !((#[trigger] actions@[i]) is Stop),
            actions@.len() < events@.len() ==> actions@.len() > 0 && actions@.last() is Stop,
    {
        let ghost start = self@;
        let mut actions: Vec<GatewayAction> = Vec::new();
        let mut i: usize = 0;
        let mut halted = false;
        while i < events.len() && !halted
            invariant
                i <= events@.len(),
                actions@.len() == i,
                self@ == gateway_after(start, events@.take(i as int)),
                forall|j: int|
                    0 <= j < i ==> #[trigger] actions@[j] == gateway_step(
                        gateway_after(start, events@.take(j)),
                        events@[j],
                    ).1,
                forall|j: int| 0 <= j < i - 1 ==> !((#[trigger] actions@[j]) is Stop),
                i > 0 ==> halted == (actions@.last() is Stop),
                halted ==> i > 0,
            decreases events@.len() - i,
        {
            proof {
                assert(events@.take(i + 1).drop_last() == events@.take(i as int));
                assert(events@.take(i + 1).last() == events@[i as int]);
            }
            let action = self.step(events[i]);
            halted =
            match action {
                GatewayAction::Stop => true,
                _ => false,
            };
            actions.push(action);
            i += 1;
        }
        actions
    }
}

/// The second window is tried only for a downlink that has one, and only
/// when the end of its dispatch in the first window says that the window
/// was missed: never after a success, an acknowledgement without error, or
/// any other failure.
pub proof fn lemma_rx2_only_after_missed_rx1(state: Option<Pending>, event: GatewayEvent)
    ensures
        ({
            &&& gateway_step(state, event).1 matches GatewayAction::Dispatch(dispatch)
            &&& dispatch.window is Rx2
        }) ==> ({
            &&& state matches Some(pending)
            &&& pending.window is Rx1
            &&& pending.packet.rx2_window
            &&& gateway_step(state, event).1 == GatewayAction::Dispatch(
                dispatch_of(pending.packet, Window::Rx2),
            )
            &&& event matches GatewayEvent::Dispatched(outcome)
            &&& missed_window(outcome)
        }),
        ({
            &&& state matches Some(pending)
            &&& pending.window is Rx1
            &&& event matches GatewayEvent::Dispatched(outcome)
            &&& delivered(outcome)
        }) ==> gateway_step(state, event) == (None::<Pending>, GatewayAction::Nothing),
{
}

/// Whatever the end of a dispatch in the second window, nothing more is
/// tried for that downlink.
pub proof fn lemma_rx2_is_final(pending: Pending, outcome: DispatchOutcome)
    requires
        pending.window is Rx2,
    ensures
        after_dispatch(pending, outcome).0 is None,
        !(after_dispatch(pending, outcome).1 is Dispatch),
{
}

/// A downlink is first tried in the first window, at the concentrator that
/// it names, and an action that is a dispatch always waits
/// `DOWNLINK_TIMEOUT_SECS` for the acknowledgement of the dispatch that is
/// then in flight.
pub proof fn lemma_dispatch_targets(state: Option<Pending>, event: GatewayEvent)
    ensures
        ({
            &&& state is None
            &&& event matches GatewayEvent::Downlink(Some(packet))
        }) ==> gateway_step(state, event).1 == GatewayAction::Dispatch(
            dispatch_of(event->Downlink_0->0, Window::Rx1),
        ),
        gateway_step(state, event).1 matches GatewayAction::Dispatch(dispatch) ==> ({
            &&& dispatch.timeout_secs == DOWNLINK_TIMEOUT_SECS
            &&& gateway_step(state, event).0 matches Some(pending)
            &&& pending.window == dispatch.window
            &&& pending.packet.gateway_mac == dispatch.gateway_mac
        }),
{
}

/// A LongFi frame is never put on the uplink queue.
pub proof fn lemma_longfi_never_queued(state: Option<Pending>, event: GatewayEvent)
    ensures
        gateway_step(state, event).1 matches GatewayAction::Enqueue(packet) ==> ({
            &&& !packet.longfi
            &&& state is None
            &&& event == GatewayEvent::Udp(UdpEvent::PacketReceived(Some(packet)))
        }),
{
}

} // verus!
