use lora_bridge::gateway::{
    Dispatch, DispatchOutcome, Gateway, GatewayAction, GatewayEvent, GatewayNotice, Pending,
    UdpEvent, Window, DOWNLINK_TIMEOUT_SECS, UPLINK_TIMEOUT_SECS,
};
use lora_bridge::link_packet::LinkPacket;
use lora_bridge::notice::LogLevel;

fn downlink(gateway_mac: u64, rx2_window: bool) -> LinkPacket {
    LinkPacket { gateway_mac, longfi: false, routing: None, rx2_window }
}

fn rx1(gateway_mac: u64) -> GatewayAction {
    GatewayAction::Dispatch(Dispatch { gateway_mac, window: Window::Rx1, timeout_secs: 5 })
}

fn rx2(gateway_mac: u64) -> GatewayAction {
    GatewayAction::Dispatch(Dispatch { gateway_mac, window: Window::Rx2, timeout_secs: 5 })
}

#[test]
fn timeouts_are_as_documented() {
    assert_eq!(DOWNLINK_TIMEOUT_SECS, 5);
    assert_eq!(UPLINK_TIMEOUT_SECS, 6);
}

#[test]
fn windows_are_numbered_from_one() {
    assert_eq!(Window::Rx1.number(), 1);
    assert_eq!(Window::Rx2.number(), 2);
}

#[test]
fn udp_events_are_logged_or_queued() {
    let gateway = Gateway::new();
    let packet = LinkPacket { gateway_mac: 1, longfi: false, routing: None, rx2_window: false };
    assert_eq!(
        gateway.handle_udp_event(UdpEvent::UnableToParseUdpFrame),
        GatewayAction::Note(GatewayNotice::UnparsedFrame)
    );
    assert_eq!(
        gateway.handle_udp_event(UdpEvent::NewClient),
        GatewayAction::Note(GatewayNotice::NewClient)
    );
    assert_eq!(
        gateway.handle_udp_event(UdpEvent::UpdateClient),
        GatewayAction::Note(GatewayNotice::UpdatedClient)
    );
    assert_eq!(
        gateway.handle_udp_event(UdpEvent::PacketReceived(Some(packet))),
        GatewayAction::Enqueue(packet)
    );
    assert_eq!(
        gateway.handle_udp_event(UdpEvent::PacketReceived(None)),
        GatewayAction::Note(GatewayNotice::NotLifted)
    );
    assert_eq!(
        gateway.handle_udp_event(UdpEvent::NoClientWithMac),
        GatewayAction::Note(GatewayNotice::UnknownMac)
    );
    assert_eq!(gateway.handle_udp_event(UdpEvent::RawPacket), GatewayAction::Nothing);
}

#[test]
fn longfi_frame_is_dropped() {
    let mut gateway = Gateway::new();
    let packet = LinkPacket { gateway_mac: 1, longfi: true, routing: None, rx2_window: false };
    let actions = gateway.run(&vec![GatewayEvent::Udp(UdpEvent::PacketReceived(Some(packet)))]);
    assert_eq!(actions, vec![GatewayAction::Note(GatewayNotice::LongFi)]);
    assert!(!actions.iter().any(|a| matches!(a, GatewayAction::Enqueue(_))));
    assert!(packet.is_longfi());
}

#[test]
fn notices_have_their_levels() {
    assert_eq!(GatewayNotice::UnparsedFrame.level(), LogLevel::Info);
    assert_eq!(GatewayNotice::NewClient.level(), LogLevel::Info);
    assert_eq!(GatewayNotice::UpdatedClient.level(), LogLevel::Info);
    assert_eq!(GatewayNotice::LongFi.level(), LogLevel::Info);
    assert_eq!(GatewayNotice::NotLifted.level(), LogLevel::Debug);
    assert_eq!(GatewayNotice::UnknownMac.level(), LogLevel::Warn);
    assert_eq!(GatewayNotice::ClosedDownlinks.level(), LogLevel::Debug);
    assert_eq!(GatewayNotice::Rx1Failed.level(), LogLevel::Debug);
    assert_eq!(GatewayNotice::Rx2Failed.level(), LogLevel::Debug);
    assert_eq!(GatewayNotice::UnexpectedOutcome.level(), LogLevel::Debug);
}

#[test]
fn downlink_goes_out_in_the_first_window() {
    let mut gateway = Gateway::new();
    assert_eq!(gateway.awaiting(), None);
    assert_eq!(gateway.handle_downlink(downlink(0xaabb, true)), rx1(0xaabb));
    assert_eq!(
        gateway.awaiting(),
        Some(Pending { packet: downlink(0xaabb, true), window: Window::Rx1 })
    );
    assert_eq!(gateway.handle_dispatched(DispatchOutcome::Success), GatewayAction::Nothing);
    assert_eq!(gateway.awaiting(), None);
}

#[test]
fn rx1_success_is_never_followed_by_rx2() {
    for outcome in [DispatchOutcome::Success, DispatchOutcome::AckNone] {
        for rx2_window in [false, true] {
            let mut gateway = Gateway::new();
            let actions = gateway.run(&vec![
                GatewayEvent::Downlink(Some(downlink(3, rx2_window))),
                GatewayEvent::Dispatched(outcome),
            ]);
            assert_eq!(actions, vec![rx1(3), GatewayAction::Nothing]);
            assert_eq!(gateway.awaiting(), None);
        }
    }
}

#[test]
fn rx1_too_late_then_rx2_success() {
    let mut gateway = Gateway::new();
    let actions = gateway.run(&vec![
        GatewayEvent::Downlink(Some(downlink(3, true))),
        GatewayEvent::Dispatched(DispatchOutcome::AckTooLate),
        GatewayEvent::Dispatched(DispatchOutcome::Success),
    ]);
    assert_eq!(actions, vec![rx1(3), rx2(3), GatewayAction::Nothing]);
    assert_eq!(gateway.awaiting(), None);
}

#[test]
fn rx2_is_tried_once_whatever_comes_of_it() {
    for second in [
        DispatchOutcome::Success,
        DispatchOutcome::AckNone,
        DispatchOutcome::AckTooEarly,
        DispatchOutcome::AckTooLate,
        DispatchOutcome::Failed,
    ] {
        for first in [DispatchOutcome::AckTooEarly, DispatchOutcome::AckTooLate] {
            let mut gateway = Gateway::new();
            let actions = gateway.run(&vec![
                GatewayEvent::Downlink(Some(downlink(9, true))),
                GatewayEvent::Dispatched(first),
                GatewayEvent::Dispatched(second),
            ]);
            let dispatches =
                actions.iter().filter(|a| matches!(a, GatewayAction::Dispatch(_))).count();
            assert_eq!(dispatches, 2);
            assert_eq!(actions[1], rx2(9));
            let last = match second {
                DispatchOutcome::Success | DispatchOutcome::AckNone => GatewayAction::Nothing,
                _ => GatewayAction::Note(GatewayNotice::Rx2Failed),
            };
            assert_eq!(actions[2], last);
            assert_eq!(gateway.awaiting(), None);
        }
    }
}

#[test]
fn missed_rx1_without_second_window_ends_there() {
    let mut gateway = Gateway::new();
    let actions = gateway.run(&vec![
        GatewayEvent::Downlink(Some(downlink(3, false))),
        GatewayEvent::Dispatched(DispatchOutcome::AckTooEarly),
    ]);
    assert_eq!(actions, vec![rx1(3), GatewayAction::Nothing]);
    assert_eq!(gateway.awaiting(), None);
}

#[test]
fn other_rx1_error_is_not_retried() {
    let mut gateway = Gateway::new();
    let actions = gateway.run(&vec![
        GatewayEvent::Downlink(Some(downlink(3, true))),
        GatewayEvent::Dispatched(DispatchOutcome::Failed),
    ]);
    assert_eq!(actions, vec![rx1(3), GatewayAction::Note(GatewayNotice::Rx1Failed)]);
    assert_eq!(gateway.awaiting(), None);
}

#[test]
fn nothing_else_is_taken_while_a_dispatch_is_in_flight() {
    let mut gateway = Gateway::new();
    assert_eq!(gateway.step(GatewayEvent::Downlink(Some(downlink(3, true)))), rx1(3));
    let pending = gateway.awaiting();
    assert_eq!(gateway.step(GatewayEvent::Shutdown), GatewayAction::Busy);
    assert_eq!(gateway.step(GatewayEvent::Udp(UdpEvent::NewClient)), GatewayAction::Busy);
    assert_eq!(gateway.step(GatewayEvent::Downlink(Some(downlink(4, true)))), GatewayAction::Busy);
    assert_eq!(gateway.step(GatewayEvent::Downlink(None)), GatewayAction::Busy);
    assert_eq!(gateway.awaiting(), pending);
    assert_eq!(gateway.step(GatewayEvent::Dispatched(DispatchOutcome::AckNone)), GatewayAction::Nothing);
    assert_eq!(gateway.step(GatewayEvent::Shutdown), GatewayAction::Stop);
}

#[test]
fn closed_downlink_queue_is_not_fatal() {
    let mut gateway = Gateway::new();
    let packet = LinkPacket { gateway_mac: 1, longfi: false, routing: None, rx2_window: false };
    let actions = gateway.run(&vec![
        GatewayEvent::Downlink(None),
        GatewayEvent::Udp(UdpEvent::PacketReceived(Some(packet))),
    ]);
    assert_eq!(
        actions,
        vec![GatewayAction::Note(GatewayNotice::ClosedDownlinks), GatewayAction::Enqueue(packet)]
    );
}

#[test]
fn unexpected_outcome_is_noted() {
    let mut gateway = Gateway::new();
    assert_eq!(
        gateway.step(GatewayEvent::Dispatched(DispatchOutcome::Success)),
        GatewayAction::Note(GatewayNotice::UnexpectedOutcome)
    );
    assert_eq!(gateway.awaiting(), None);
}

#[test]
fn run_ends_with_shutdown() {
    let mut gateway = Gateway::new();
    let actions = gateway.run(&vec![
        GatewayEvent::Udp(UdpEvent::RawPacket),
        GatewayEvent::Shutdown,
        GatewayEvent::Udp(UdpEvent::NewClient),
    ]);
    assert_eq!(actions, vec![GatewayAction::Nothing, GatewayAction::Stop]);
    assert_eq!(gateway.run(&vec![]), vec![]);
}
