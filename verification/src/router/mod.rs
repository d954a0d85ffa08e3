//! The router side of the bridge.

use crate::error::Error;
use crate::link_packet::LinkPacket;
use crate::notice::LogLevel;
use crate::router::routing::{
    addresses_ok, apply_all, apply_response, is_walk, lemma_targets_do_not_depend_on_walk,
    lemma_walk_without_match, no_match, skipped_rows, targets_in_order, ResponseView,
    RoutingInformation, RoutingKey, RoutingResponse, RoutingTable, RoutingView, TableView,
    UpdateReport,
};
use vstd::prelude::*;

pub mod filter;
pub mod routing;

verus! {

/// Seconds allowed for connecting to a router or to the control plane.
pub const CONNECT_TIMEOUT: u64 = 10;

/// Whether `http::Uri` takes `bytes` for a URI.
pub uninterp spec fn uri_parses(bytes: Seq<u8>) -> bool;

/// Asks `http::Uri::try_from`, on a slice of bytes, whether they are a URI.
/// It parses a copy of the bytes and reads nothing else, so the answer is
/// settled by the bytes; which bytes it takes is not stated here.
#[verifier::external_body]
fn is_uri(bytes: &[u8]) -> (ok: bool)
    ensures
        ok == uri_parses(bytes@),
{
    http::Uri::try_from(bytes).is_ok()
}

/// A router that uplinks can be sent to. The connection is made on first
/// use, within `CONNECT_TIMEOUT` seconds.
#[derive(Debug, PartialEq, Eq)]
pub struct RouterClient {
    uri: Vec<u8>,
}

impl View for RouterClient {
    type V = Seq<u8>;

    closed spec fn view(&self) -> Seq<u8> {
        self.uri@
    }
}

impl Clone for RouterClient {
    fn clone(&self) -> (c: Self)
        ensures
            c@ == self@,
    {
        proof {
            use_type_invariant(self);
        }
        RouterClient { uri: self.uri.clone() }
    }
}

impl RouterClient {
    #[verifier::type_invariant]
    spec fn sound(self) -> bool {
        uri_parses(self.uri@)
    }

    /// Seconds allowed for connecting to the router.
    pub fn connect_timeout(&self) -> (secs: u64)
        ensures
            secs == CONNECT_TIMEOUT,
    {
        CONNECT_TIMEOUT
    }

    /// The address of the router, which is a URI.
    pub fn uri(&self) -> (uri: &Vec<u8>)
        ensures
            uri@ == self@,
            uri_parses(self@),
    {
        proof {
            use_type_invariant(self);
        }
        &self.uri
    }
}

/// The addresses of a list of routers, in order.
pub open spec fn uris(clients: Seq<RouterClient>) -> Seq<Seq<u8>> {
    clients.map_values(|c: RouterClient| c@)
}

/// Describes the client for the router at `uri`. Fails if and only if `uri`
/// is not a URI.
pub fn mk_router_client(uri: &[u8]) -> (r: Result<RouterClient, Error>)
    ensures
        match r {
            Ok(client) => uri_parses(uri@) && client@ == uri@,
            Err(e) => !uri_parses(uri@) && e == Error::UriError,
        },
{
    if is_uri(uri) {
        Ok(RouterClient { uri: crate::router::filter::copy_bytes(uri) })
    } else {
        Err(Error::UriError)
    }
}

/// The control plane that feeds the routing table. The connection is made
/// on first use, within `CONNECT_TIMEOUT` seconds.
#[derive(Debug, PartialEq, Eq)]
pub struct ValidatorClient {
    uri: Vec<u8>,
}

impl View for ValidatorClient {
    type V = Seq<u8>;

    closed spec fn view(&self) -> Seq<u8> {
        self.uri@
    }
}

impl Clone for ValidatorClient {
    fn clone(&self) -> (c: Self)
        ensures
            c@ == self@,
    {
        proof {
            use_type_invariant(self);
        }
        ValidatorClient { uri: self.uri.clone() }
    }
}

impl ValidatorClient {
    #[verifier::type_invariant]
    spec fn sound(self) -> bool {
        uri_parses(self.uri@)
    }

    /// Seconds allowed for connecting to the control plane.
    pub fn connect_timeout(&self) -> (secs: u64)
        ensures
            secs == CONNECT_TIMEOUT,
    {
        CONNECT_TIMEOUT
    }

    /// The address of the control plane, which is a URI.
    pub fn uri(&self) -> (uri: &Vec<u8>)
        ensures
            uri@ == self@,
            uri_parses(self@),
    {
        proof {
            use_type_invariant(self);
        }
        &self.uri
    }
}

/// Describes the client for the control plane at `uri`. Fails if and only
/// if `uri` is not a URI.
pub fn mk_validator_client(uri: &[u8]) -> (r: Result<ValidatorClient, Error>)
    ensures
        match r {
            Ok(client) => uri_parses(uri@) && client@ == uri@,
            Err(e) => !uri_parses(uri@) && e == Error::UriError,
        },
{
    if is_uri(uri) {
        Ok(ValidatorClient { uri: crate::router::filter::copy_bytes(uri) })
    } else {
        Err(Error::UriError)
    }
}

/// The height from which the routing feed is asked for.
pub const ROUTING_START_HEIGHT: u64 = 1;

/// The request that opens the routing feed.
#[derive(Debug, PartialEq, Eq)]
pub struct RoutingRequest {
    pub validator: ValidatorClient,
    pub height: u64,
}

/// What the routing feed gave when it was asked for its next message.
#[derive(Debug, PartialEq, Eq)]
pub enum RoutingMessage {
    /// A routing update.
    Update(RoutingResponse),
    /// The feed ended.
    Closed,
    /// The feed broke.
    Failed,
}

/// What the router is told.
#[derive(Debug, PartialEq, Eq)]
pub enum RouterEvent {
    /// The shutdown signal fired.
    Shutdown,
    /// The routing feed gave something.
    Routing(RoutingMessage),
    /// The uplink queue gave a packet, or `None` because it is closed.
    Uplink(Option<LinkPacket>),
    /// The signed envelope that was asked for is there, or could not be made.
    Envelope(bool),
}

/// Why the router cannot go on.
#[derive(Clone, Copy, Debug, PartialEq, Eq, Structural)]
pub enum StreamFault {
    /// The routing feed ended.
    Closed,
    /// The routing feed broke.
    Failed,
}

/// Something worth a line in the log, and nothing more.
#[derive(Clone, Copy, Debug, PartialEq, Eq, Structural)]
pub enum RouterNotice {
    /// An uplink said nothing of where it wants to go, and was dropped.
    NoRoutingData,
    /// No envelope could be made for an uplink, which was dropped.
    FailedUplink,
    /// The uplink queue is closed.
    ClosedUplinks,
    /// An envelope was reported that nobody had asked for.
    UnexpectedEnvelope,
    /// A router did not take an uplink.
    UplinkError,
    /// A downlink could not be put on the downlink queue.
    PushFailed,
}

impl RouterNotice {
    /// Every notice of the router is for debugging.
    pub fn level(&self) -> (level: LogLevel)
        ensures
            level == LogLevel::Debug,
    {
        LogLevel::Debug
    }
}

/// What the router wants done.
#[derive(Debug, PartialEq, Eq)]
pub enum RouterAction {
    /// Return: the shutdown signal was seen.
    Stop,
    /// Give up: the routing feed is gone.
    Fatal(StreamFault),
    /// Nothing but to log what the update did.
    Updated(UpdateReport),
    /// Make the signed envelope for this uplink, once, and report back.
    Sign(LinkPacket),
    /// Send the envelope to each target, each in a task of its own. A
    /// downlink that comes back goes to the concentrator `gateway_mac`.
    FanOut { gateway_mac: u64, targets: Vec<RouterClient> },
    /// Log the notice and go on.
    Note(RouterNotice),
    /// An envelope is awaited: the event was not taken and is to be told
    /// again.
    Busy,
}

/// A routing message as plain values.
pub enum RoutingMessageView {
    Update(ResponseView),
    Closed,
    Failed,
}

/// An event as plain values.
pub enum RouterEventView {
    Shutdown,
    Routing(RoutingMessageView),
    Uplink(Option<LinkPacket>),
    Envelope(bool),
}

/// An action as plain values.
pub enum RouterActionView {
    Stop,
    Fatal(StreamFault),
    Updated { height: u64, stale: bool, skipped: Seq<(u32, Error)> },
    Sign(LinkPacket),
    FanOut { gateway_mac: u64, targets: Seq<Seq<u8>> },
    Note(RouterNotice),
    Busy,
}

impl View for RoutingMessage {
    type V = RoutingMessageView;

    open spec fn view(&self) -> RoutingMessageView {
        match self {
            RoutingMessage::Update(response) => RoutingMessageView::Update(response@),
            RoutingMessage::Closed => RoutingMessageView::Closed,
            RoutingMessage::Failed => RoutingMessageView::Failed,
        }
    }
}

impl View for RouterEvent {
    type V = RouterEventView;

    open spec fn view(&self) -> RouterEventView {
        match self {
            RouterEvent::Shutdown => RouterEventView::Shutdown,
            RouterEvent::Routing(message) => RouterEventView::Routing(message@),
            RouterEvent::Uplink(packet) => RouterEventView::Uplink(*packet),
            RouterEvent::Envelope(built) => RouterEventView::Envelope(*built),
        }
    }
}

impl View for RouterAction {
    type V = RouterActionView;

    open spec fn view(&self) -> RouterActionView {
        match self {
            RouterAction::Stop => RouterActionView::Stop,
            RouterAction::Fatal(fault) => RouterActionView::Fatal(*fault),
            RouterAction::Updated(report) => RouterActionView::Updated {
                height: report.height,
                stale: report.stale,
                skipped: report.skipped@,
            },
            RouterAction::Sign(packet) => RouterActionView::Sign(*packet),
            RouterAction::FanOut { gateway_mac, targets } => RouterActionView::FanOut {
                gateway_mac: *gateway_mac,
                targets: uris(targets@),
            },
            RouterAction::Note(notice) => RouterActionView::Note(*notice),
            RouterAction::Busy => RouterActionView::Busy,
        }
    }
}

/// The router as plain values.
pub struct RouterView {
    pub validator: Seq<u8>,
    pub table: TableView,
    pub default_clients: Seq<Seq<u8>>,
    pub awaiting: Option<LinkPacket>,
}

/// The routers by default where the table names none.
pub open spec fn with_fallback(found: Seq<Seq<u8>>, default_clients: Seq<Seq<u8>>) -> Seq<Seq<u8>> {
    if found.len() == 0 {
        default_clients
    } else {
        found
    }
}

/// Whether `targets` are the routers that an uplink with this routing part
/// goes to: none unless it names a key; else those of the matching entries,
/// the table walked in some order, or the default routers where that leaves
/// nobody.
pub open spec fn targets_ok(
    entries: Map<u32, RoutingView>,
    default_clients: Seq<Seq<u8>>,
    routing: Option<RoutingInformation>,
    targets: Seq<Seq<u8>>,
) -> bool {
    match routing {
        Some(RoutingInformation { data: Some(key) }) => exists|order: Seq<u32>| #[trigger]
            is_walk(entries, order) && targets == with_fallback(
                targets_in_order(entries, order, key),
                default_clients,
            ),
        _ => targets.len() == 0,
    }
}

/// The router after an event. While an envelope is awaited only its
/// arrival changes anything.
pub open spec fn next_state(s: RouterView, e: RouterEventView) -> RouterView {
    match s.awaiting {
        Some(_) => match e {
            RouterEventView::Envelope(_) => RouterView { awaiting: None, ..s },
            _ => s,
        },
        None => match e {
            RouterEventView::Routing(RoutingMessageView::Update(response)) => RouterView {
                table: apply_response(s.table, response),
                ..s
            },
            RouterEventView::Uplink(Some(packet)) => if packet.routing is Some {
                RouterView { awaiting: Some(packet), ..s }
            } else {
                s
            },
            _ => s,
        },
    }
}

/// Whether `a` is what the router in state `s` answers to `e`.
pub open spec fn action_ok(s: RouterView, e: RouterEventView, a: RouterActionView) -> bool {
    match s.awaiting {
        Some(packet) => match e {
            RouterEventView::Envelope(true) => {
                &&& a matches RouterActionView::FanOut { gateway_mac, targets }
                &&& gateway_mac == packet.gateway_mac
                &&& targets_ok(s.table.entries, s.default_clients, packet.routing, targets)
            },
            RouterEventView::Envelope(false) => a == RouterActionView::Note(
                RouterNotice::FailedUplink,
            ),
            _ => a == RouterActionView::Busy,
        },
        None => match e {
            RouterEventView::Shutdown => a == RouterActionView::Stop,
            RouterEventView::Routing(RoutingMessageView::Update(response)) => a
                == (RouterActionView::Updated {
                height: response.height,
                stale: response.height <= s.table.height,
                skipped: skipped_rows(response.routings),
            }),
            RouterEventView::Routing(RoutingMessageView::Closed) => a == RouterActionView::Fatal(
                StreamFault::Closed,
            ),
            RouterEventView::Routing(RoutingMessageView::Failed) => a == RouterActionView::Fatal(
                StreamFault::Failed,
            ),
            RouterEventView::Uplink(None) => a == RouterActionView::Note(
                RouterNotice::ClosedUplinks,
            ),
            RouterEventView::Uplink(Some(packet)) => if packet.routing is Some {
                a == RouterActionView::Sign(packet)
            } else {
                a == RouterActionView::Note(RouterNotice::NoRoutingData)
            },
            RouterEventView::Envelope(_) => a == RouterActionView::Note(
                RouterNotice::UnexpectedEnvelope,
            ),
        },
    }
}

/// Whether every router that an action names has a URI for its address.
pub open spec fn names_uris(a: RouterActionView) -> bool {
    a matches RouterActionView::FanOut { targets, .. } ==> addresses_ok(targets)
}

/// Whether an action ends the run.
pub open spec fn halts(a: RouterActionView) -> bool {
    a is Stop || a is Fatal
}

/// Whether the router in state `s` ends its run on `e`.
pub open spec fn stops(s: RouterView, e: RouterEventView) -> bool {
    s.awaiting is None && (e is Shutdown || e == RouterEventView::Routing(
        RoutingMessageView::Closed,
    ) || e == RouterEventView::Routing(RoutingMessageView::Failed))
}

/// The router after `events`, taken first to last.
pub open spec fn state_after(s: RouterView, events: Seq<RouterEventView>) -> RouterView
    decreases events.len(),
{
    if events.len() == 0 {
        s
    } else {
        next_state(state_after(s, events.drop_last()), events.last())
    }
}

/// The events as plain values.
pub open spec fn event_views(events: Seq<RouterEvent>) -> Seq<RouterEventView> {
    events.map_values(|e: RouterEvent| e@)
}

/// The router: the routing table, the routers by default, and the uplink
/// whose envelope is being made, if any.
#[derive(Debug)]
pub struct Router {
    validator: ValidatorClient,
    table: RoutingTable,
    default_clients: Vec<RouterClient>,
    awaiting: Option<LinkPacket>,
}

impl View for Router {
    type V = RouterView;

    closed spec fn view(&self) -> RouterView {
        RouterView {
            validator: self.validator@,
            table: self.table@,
            default_clients: uris(self.default_clients@),
            awaiting: self.awaiting,
        }
    }
}

/// The addresses as plain values.
pub open spec fn blobs(addresses: Seq<Vec<u8>>) -> Seq<Seq<u8>> {
    addresses.map_values(|a: Vec<u8>| a@)
}

fn copy_clients(clients: &Vec<RouterClient>) -> (out: Vec<RouterClient>)
    ensures
        uris(out@) == uris(clients@),
        addresses_ok(uris(out@)),
{
    let mut out: Vec<RouterClient> = Vec::new();
    for i in 0..clients.len()
        invariant
            out@.len() == i,
            forall|j: int| 0 <= j < i ==> (#[trigger] out@[j])@ == clients@[j]@,
            forall|j: int| 0 <= j < i ==> uri_parses((#[trigger] out@[j])@),
    {
        let client = clients[i].clone();
        proof {
            use_type_invariant(&client);
        }
        out.push(client);
    }
    assert(uris(out@) =~= uris(clients@));
    out
}

impl Router {
    /// A router with an empty table at height 0. Fails if and only if the
    /// control plane's address or one of the default routers' is not a URI.
    pub fn new(validator: &[u8], routers: &Vec<Vec<u8>>) -> (r: Result<Router, Error>)
        ensures
            match r {
                Ok(router) => {
                    &&& uri_parses(validator@)
                    &&& addresses_ok(blobs(routers@))
                    &&& router@ == RouterView {
                        validator: validator@,
                        table: TableView { height: 0, entries: Map::empty() },
                        default_clients: blobs(routers@),
                        awaiting: None,
                    }
                },
                Err(e) => e == Error::UriError && !(uri_parses(validator@) && addresses_ok(
                    blobs(routers@),
                )),
            },
    {
        let validator_client = match mk_validator_client(validator) {
            Ok(client) => client,
            Err(e) => {
                return Err(e);
            },
        };
        let mut default_clients: Vec<RouterClient> = Vec::new();
        for i in 0..routers.len()
            invariant
                default_clients@.len() == i,
                forall|j: int| 0 <= j < i ==> uri_parses(#[trigger] blobs(routers@)[j]),
                forall|j: int| 0 <= j < i ==> (#[trigger] default_clients@[j])@ == routers@[j]@,
        {
            match mk_router_client(routers[i].as_slice()) {
                Ok(client) => default_clients.push(client),
                Err(e) => {
                    assert(!uri_parses(blobs(routers@)[i as int]));
                    return Err(e);
                },
            }
        }
        let router = Router {
            validator: validator_client,
            table: RoutingTable::new(),
            default_clients,
            awaiting: None,
        };
        assert(router@.default_clients =~= blobs(routers@));
        assert(router@.table == TableView { height: 0, entries: Map::empty() });
        Ok(router)
    }

    /// The request that opens the routing feed: to the control plane, from
    /// `ROUTING_START_HEIGHT`.
    pub fn routing_stream(&self) -> (request: RoutingRequest)
        ensures
            request.validator@ == self@.validator,
            request.height == ROUTING_START_HEIGHT,
    {
        RoutingRequest { validator: self.validator.clone(), height: ROUTING_START_HEIGHT }
    }

    /// The height of the last routing message that was applied.
    pub fn routing_height(&self) -> (height: u64)
        ensures
            height == self@.table.height,
    {
        self.table.height()
    }

    /// The routers by default.
    pub fn default_clients(&self) -> (clients: &Vec<RouterClient>)
        ensures
            uris(clients@) == self@.default_clients,
    {
        &self.default_clients
    }

    /// Applies one routing message to the table.
    pub fn handle_routing_update(&mut self, routing_response: &RoutingResponse) -> (report:
        UpdateReport)
        ensures
            final(self)@ == (RouterView {
                table: apply_response(old(self)@.table, routing_response@),
                ..old(self)@
            }),
            report.height == routing_response.height,
            report.stale == (routing_response.height <= old(self)@.table.height),
            report.skipped@ == skipped_rows(routing_response@.routings),
    {
        self.table.update(routing_response)
    }

    /// The routers that an uplink goes to. Each has a URI for its address.
    pub fn router_clients_for_uplink(&self, uplink: &LinkPacket) -> (targets: Vec<RouterClient>)
        ensures
            targets_ok(self@.table.entries, self@.default_clients, uplink.routing, uris(targets@)),
            addresses_ok(uris(targets@)),
            uplink.routing matches Some(RoutingInformation { data: Some(key) }) && no_match(
                self@.table.entries,
                key,
            ) ==> uris(targets@) == self@.default_clients,
    {
        match uplink.routing {
            Some(RoutingInformation { data: Some(key) }) => {
                let found = self.table.clients_for(&key);
                if found.len() == 0 {
                    copy_clients(&self.default_clients)
                } else {
                    found
                }
            },
            _ => Vec::new(),
        }
    }

    /// Takes an uplink off the queue: one that says nothing of where it
    /// wants to go is dropped; for any other, one envelope is asked for.
    pub fn handle_uplink(&mut self, uplink: LinkPacket) -> (action: RouterAction)
        ensures
            final(self)@ == next_state(old(self)@, RouterEventView::Uplink(Some(uplink))),
            action_ok(old(self)@, RouterEventView::Uplink(Some(uplink)), action@),
    {
        if self.awaiting.is_some() {
            RouterAction::Busy
        } else if uplink.routing.is_none() {
            RouterAction::Note(RouterNotice::NoRoutingData)
        } else {
            self.awaiting = Some(uplink);
            RouterAction::Sign(uplink)
        }
    }

    /// Takes the news of an envelope: if it was made, the uplink fans out to
    /// its routers; if not, the uplink is dropped.
    pub fn handle_envelope(&mut self, built: bool) -> (action: RouterAction)
        ensures
            final(self)@ == next_state(old(self)@, RouterEventView::Envelope(built)),
            action_ok(old(self)@, RouterEventView::Envelope(built), action@),
            names_uris(action@),
    {
        match self.awaiting {
            Some(uplink) => {
                self.awaiting = None;
                if built {
                    let targets = self.router_clients_for_uplink(&uplink);
                    RouterAction::FanOut { gateway_mac: uplink.gateway_mac, targets }
                } else {
                    RouterAction::Note(RouterNotice::FailedUplink)
                }
            },
            None => RouterAction::Note(RouterNotice::UnexpectedEnvelope),
        }
    }

    /// Handles one event.
    pub fn step(&mut self, event: &RouterEvent) -> (action: RouterAction)
        ensures
            final(self)@ == next_state(old(self)@, event@),
            action_ok(old(self)@, event@, action@),
            names_uris(action@),
    {
        match event {
            RouterEvent::Envelope(built) => self.handle_envelope(*built),
            RouterEvent::Uplink(Some(uplink)) => self.handle_uplink(*uplink),
            _ => {
                if self.awaiting.is_some() {
                    return RouterAction::Busy;
                }
                match event {
                    RouterEvent::Shutdown => RouterAction::Stop,
                    RouterEvent::Routing(RoutingMessage::Update(response)) => {
                        RouterAction::Updated(self.handle_routing_update(response))
                    },
                    RouterEvent::Routing(RoutingMessage::Closed) => RouterAction::Fatal(
                        StreamFault::Closed,
                    ),
                    RouterEvent::Routing(RoutingMessage::Failed) => RouterAction::Fatal(
                        StreamFault::Failed,
                    ),
                    _ => RouterAction::Note(RouterNotice::ClosedUplinks),
                }
            },
        }
    }
}

impl Router {
    /// Handles the events in order, up to and with the first that ends the
    /// run: the shutdown signal, or the loss of the routing feed. Gives the
    /// action for each event that was handled.
    pub fn run(&mut self, events: &Vec<RouterEvent>) -> (actions: Vec<RouterAction>)
        ensures
            actions@.len() <= events@.len(),
            final(self)@ == state_after(
                old(self)@,
                event_views(events@).take(actions@.len() as int),
            ),
            forall|i: int|
                0 <= i < actions@.len() ==> action_ok(
                    state_after(old(self)@, event_views(events@).take(i)),
                    event_views(events@)[i],
                    (#[trigger] actions@[i])@,
                ),
            forall|i: int| 0 <= i < actions@.len() - 1 ==> !halts((#[trigger] actions@[i])@),
            forall|i: int| 0 <= i < actions@.len() ==> names_uris((#[trigger] actions@[i])@),
            actions@.len() < events@.len() ==> actions@.len() > 0 && halts(actions@.last()@),
    {
        let ghost start = self@;
        let ghost all = event_views(events@);
        let mut actions: Vec<RouterAction> = Vec::new();
        let mut i: usize = 0;
        let mut halted = false;
        while i < events.len() && !halted
            invariant
                all == event_views(events@),
                i <= events@.len(),
                actions@.len() == i,
                self@ == state_after(start, all.take(i as int)),
                forall|j: int|
                    0 <= j < i ==> action_ok(
                        state_after(start, all.take(j)),
                        all[j],
                        (#[trigger] actions@[j])@,
                    ),
                forall|j: int| 0 <= j < i - 1 ==> !halts((#[trigger] actions@[j])@),
                forall|j: int| 0 <= j < i ==> names_uris((#[trigger] actions@[j])@),
                i > 0 ==> halted == halts(actions@.last()@),
                halted ==> i > 0,
            decreases events@.len() - i,
        {
            proof {
                assert(all.take(i + 1).drop_last() == all.take(i as int));
                assert(all.take(i + 1).last() == events@[i as int]@);
            }
            let action = self.step(&events[i]);
            halted =
            match action {
                RouterAction::Stop => true,
                RouterAction::Fatal(_) => true,
                _ => false,
            };
            actions.push(action);
            i += 1;
        }
        actions
    }
}

/// What a router answered to an uplink.
#[derive(Clone, Copy, Debug, PartialEq, Eq, Structural)]
pub enum RouteReply {
    /// It took the uplink and has a downlink for the device.
    Downlink { rx2_window: bool },
    /// It took the uplink and has nothing to say.
    Empty,
    /// The call failed.
    Failed,
}

/// What a fan-out task does with a router's answer.
#[derive(Clone, Copy, Debug, PartialEq, Eq, Structural)]
pub enum TaskAction {
    /// Put the downlink on the downlink queue.
    Push(LinkPacket),
    /// Nothing is left to do.
    Finish,
    /// Log the notice; nothing else is left to do.
    Note(RouterNotice),
}

/// What a fan-out task does with a router's answer: a downlink goes back to
/// the concentrator that heard the uplink, a failure is logged.
pub open spec fn task_action(gateway_mac: u64, reply: RouteReply) -> TaskAction {
    match reply {
        RouteReply::Downlink { rx2_window } => TaskAction::Push(
            LinkPacket { gateway_mac, longfi: false, routing: None, rx2_window },
        ),
        RouteReply::Empty => TaskAction::Finish,
        RouteReply::Failed => TaskAction::Note(RouterNotice::UplinkError),
    }
}

/// Decides what a fan-out task does with a router's answer.
pub fn handle_route_reply(gateway_mac: u64, reply: RouteReply) -> (action: TaskAction)
    ensures
        action == task_action(gateway_mac, reply),
{
    match reply {
        RouteReply::Downlink { rx2_window } => TaskAction::Push(
            LinkPacket { gateway_mac, longfi: false, routing: None, rx2_window },
        ),
        RouteReply::Empty => TaskAction::Finish,
        RouteReply::Failed => TaskAction::Note(RouterNotice::UplinkError),
    }
}

/// What a fan-out task logs once it has tried to put its downlink on the
/// queue: something only where the queue did not take it.
pub fn handle_push(delivered: bool) -> (notice: Option<RouterNotice>)
    ensures
        notice == if delivered {
            None
        } else {
            Some(RouterNotice::PushFailed)
        },
{
    if delivered {
        None
    } else {
        Some(RouterNotice::PushFailed)
    }
}

/// The number of fan-out tasks that an action starts.
pub open spec fn tasks(a: RouterActionView) -> nat {
    match a {
        RouterActionView::FanOut { targets, .. } => targets.len(),
        _ => 0,
    }
}

/// The number of signed envelopes that an action asks for.
pub open spec fn envelopes(a: RouterActionView) -> nat {
    if a is Sign {
        1
    } else {
        0
    }
}

/// The routing messages as events, in order.
pub open spec fn update_events(responses: Seq<ResponseView>) -> Seq<RouterEventView> {
    responses.map_values(
        |r: ResponseView| RouterEventView::Routing(RoutingMessageView::Update(r)),
    )
}

/// The number of envelopes that a run of actions asks for.
pub open spec fn envelopes_asked(actions: Seq<RouterActionView>) -> nat
    decreases actions.len(),
{
    if actions.len() == 0 {
        0
    } else {
        envelopes_asked(actions.drop_last()) + envelopes(actions.last())
    }
}

/// The number of uplinks that a run of events takes off the queue.
pub open spec fn uplinks_given(events: Seq<RouterEventView>) -> nat
    decreases events.len(),
{
    if events.len() == 0 {
        0
    } else {
        uplinks_given(events.drop_last()) + if events.last() matches RouterEventView::Uplink(
            Some(_),
        ) {
            1nat
        } else {
            0nat
        }
    }
}

/// An action ends the run exactly where the state and the event say so.
pub proof fn lemma_halts_where_it_stops(s: RouterView, e: RouterEventView, a: RouterActionView)
    requires
        action_ok(s, e, a),
    ensures
        halts(a) == stops(s, e),
{
}

/// A run of routing messages does to the router's table what the messages
/// do to a table, and nothing else to the router.
pub proof fn lemma_updates_reach_table(s: RouterView, responses: Seq<ResponseView>)
    requires
        s.awaiting is None,
    ensures
        state_after(s, update_events(responses)) == (RouterView {
            table: apply_all(s.table, responses),
            ..s
        }),
    decreases responses.len(),
{
    if responses.len() > 0 {
        lemma_updates_reach_table(s, responses.drop_last());
        assert(update_events(responses).drop_last() == update_events(responses.drop_last()));
    }
}

/// An uplink that says nothing of where it wants to go starts no fan-out
/// task and asks for no envelope: it is dropped with a notice, and the
/// router is as before.
pub proof fn lemma_no_routing_no_tasks(s: RouterView, uplink: LinkPacket, a: RouterActionView)
    requires
        uplink.routing is None,
        s.awaiting is None,
        action_ok(s, RouterEventView::Uplink(Some(uplink)), a),
    ensures
        a == RouterActionView::Note(RouterNotice::NoRoutingData),
        tasks(a) == 0,
        envelopes(a) == 0,
        next_state(s, RouterEventView::Uplink(Some(uplink))) == s,
{
}

/// An uplink whose routing part names no key reaches nobody, not even the
/// default routers.
pub proof fn lemma_no_key_no_tasks(s: RouterView, uplink: LinkPacket, a: RouterActionView)
    requires
        s.awaiting == Some(uplink),
        uplink.routing == Some(RoutingInformation { data: None }),
        action_ok(s, RouterEventView::Envelope(true), a),
    ensures
        tasks(a) == 0,
{
}

/// An uplink whose key no entry subscribes to goes to the default routers,
/// and to them alone.
pub proof fn lemma_no_match_goes_to_default(
    s: RouterView,
    uplink: LinkPacket,
    key: RoutingKey,
    a: RouterActionView,
)
    requires
        s.awaiting == Some(uplink),
        uplink.routing == Some(RoutingInformation { data: Some(key) }),
        no_match(s.table.entries, key),
        action_ok(s, RouterEventView::Envelope(true), a),
    ensures
        a == (RouterActionView::FanOut {
            gateway_mac: uplink.gateway_mac,
            targets: s.default_clients,
        }),
{
    let targets = a->FanOut_targets;
    let order = choose|order: Seq<u32>| #[trigger]
        is_walk(s.table.entries, order) && targets == with_fallback(
            targets_in_order(s.table.entries, order, key),
            s.default_clients,
        );
    lemma_walk_without_match(s.table.entries, order, key);
}

/// The routers that an uplink goes to, and how often each is named, are
/// settled by the table, the default routers and the uplink.
pub proof fn lemma_targets_are_settled(
    entries: Map<u32, RoutingView>,
    default_clients: Seq<Seq<u8>>,
    routing: Option<RoutingInformation>,
    first: Seq<Seq<u8>>,
    second: Seq<Seq<u8>>,
)
    requires
        targets_ok(entries, default_clients, routing, first),
        targets_ok(entries, default_clients, routing, second),
    ensures
        first.to_multiset() == second.to_multiset(),
        first.len() == second.len(),
{
    match routing {
        Some(RoutingInformation { data: Some(key) }) => {
            let a = choose|order: Seq<u32>| #[trigger]
                is_walk(entries, order) && first == with_fallback(
                    targets_in_order(entries, order, key),
                    default_clients,
                );
            let b = choose|order: Seq<u32>| #[trigger]
                is_walk(entries, order) && second == with_fallback(
                    targets_in_order(entries, order, key),
                    default_clients,
                );
            lemma_targets_do_not_depend_on_walk(entries, a, b, key);
        },
        _ => {
            assert(first =~= second);
        },
    }
}

/// One event asks for at most one envelope, and only an uplink that is
/// taken off the queue asks for one. Fanning out asks for none, however
/// many routers it reaches, and none is asked for while one is awaited.
pub proof fn lemma_one_envelope_per_uplink(s: RouterView, e: RouterEventView, a: RouterActionView)
    requires
        action_ok(s, e, a),
    ensures
        envelopes(a) <= 1,
        envelopes(a) == 1 ==> ({
            &&& s.awaiting is None
            &&& e matches RouterEventView::Uplink(Some(uplink))
            &&& uplink.routing is Some
            &&& a == RouterActionView::Sign(uplink)
            &&& next_state(s, e).awaiting == Some(uplink)
        }),
        s.awaiting is Some ==> envelopes(a) == 0,
        a is FanOut ==> envelopes(a) == 0,
{
}

/// However a run goes, it asks for no more envelopes than it takes uplinks
/// off the queue.
pub proof fn lemma_envelopes_bounded_by_uplinks(
    s: RouterView,
    events: Seq<RouterEventView>,
    actions: Seq<RouterActionView>,
)
    requires
        actions.len() == events.len(),
        forall|i: int|
            0 <= i < actions.len() ==> action_ok(
                state_after(s, events.take(i)),
                events[i],
                #[trigger] actions[i],
            ),
    ensures
        envelopes_asked(actions) <= uplinks_given(events),
    decreases events.len(),
{
    if events.len() > 0 {
        let n = events.len() - 1;
        let front_events = events.drop_last();
        let front_actions = actions.drop_last();
        assert forall|i: int| 0 <= i < front_actions.len() implies action_ok(
            state_after(s, front_events.take(i)),
            front_events[i],
            #[trigger] front_actions[i],
        ) by {
            assert(front_events.take(i) == events.take(i));
            assert(front_actions[i] == actions[i]);
        }
        lemma_envelopes_bounded_by_uplinks(s, front_events, front_actions);
        assert(actions.last() == actions[n]);
        lemma_one_envelope_per_uplink(state_after(s, events.take(n)), events[n], actions[n]);
    }
}

} // verus!
