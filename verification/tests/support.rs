//! Tests for the queues, the legacy accumulator, and the helper parsers.

use serial_gateway::inbound::{route_inbound, InboundRoute};
use serial_gateway::legacy::{LegacyAccumulator, LegacyEvent};
use serial_gateway::mac::{from_hex_digit, hex_digit_checked, parse_mac};
use serial_gateway::ota::{ota_write, OtaWriteQueue};
use serial_gateway::outbound::OutboundQueue;
use serial_gateway::relay::{
    apply_relay_packet, expire_relay_timers, parse_relay_command, soonest_deadline,
    RelayCommandError,
};

#[test]
fn outbound_queue_bounds_at_two() {
    let mut q = OutboundQueue::new();
    assert_eq!(q.len(), 0);
    assert!(q.enqueue(b"one"));
    assert!(q.enqueue(b"two"));
    assert!(!q.enqueue(b"three"));
    assert_eq!(q.len(), 2);
    assert_eq!(q.dequeue().unwrap(), b"one");
    assert!(q.enqueue(b"three"));
    assert_eq!(q.dequeue().unwrap(), b"two");
    assert_eq!(q.dequeue().unwrap(), b"three");
    assert!(q.dequeue().is_none());
}

#[test]
fn ota_queue_bounds_at_four() {
    let mut q = OtaWriteQueue::new();
    for i in 0..4u8 {
        assert!(ota_write(&mut q, vec![i]));
    }
    assert!(!ota_write(&mut q, vec![9]));
    assert_eq!(q.next_chunk().unwrap(), vec![0]);
    assert!(ota_write(&mut q, vec![9]));
    assert_eq!(q.next_chunk().unwrap(), vec![1]);
    assert_eq!(q.next_chunk().unwrap(), vec![2]);
    assert_eq!(q.next_chunk().unwrap(), vec![3]);
    assert_eq!(q.next_chunk().unwrap(), vec![9]);
    assert!(q.next_chunk().is_none());
}

#[test]
fn legacy_accumulator_delivers_newline_terminated_messages() {
    let mut acc = LegacyAccumulator::new(vec![0; 64]);
    let (consumed, event) = acc.feed(b"hel");
    assert_eq!((consumed, event), (3, None));
    let (consumed, event) = acc.feed(b"lo\nwor");
    assert_eq!((consumed, event), (3, Some(LegacyEvent::MessageReady)));
    assert_eq!(acc.take_message(), b"hello\n");
    let (consumed, event) = acc.feed(b"wor");
    assert_eq!((consumed, event), (3, None));
    let (consumed, event) = acc.feed(b"ld\n");
    assert_eq!((consumed, event), (3, Some(LegacyEvent::MessageReady)));
    assert_eq!(acc.take_message(), b"world\n");
}

#[test]
fn legacy_accumulator_exhaustion_is_reported() {
    let mut acc = LegacyAccumulator::new(vec![0; 4]);
    let (consumed, event) = acc.feed(b"abcdefg");
    assert_eq!(consumed, 4);
    assert_eq!(event, Some(LegacyEvent::BufferExhausted));
}

#[test]
fn inbound_topics_route_to_their_handlers() {
    let prefix = "iot/acme/pcb/unit1";
    assert_eq!(route_inbound("iot/acme/pcb/unit1/ctrl", prefix), InboundRoute::Ctrl);
    assert_eq!(route_inbound("iot/acme/pcb/unit1/rpc/tcp", prefix), InboundRoute::RpcTcp);
    assert_eq!(route_inbound("iot/acme/pcb/unit1/echo", prefix), InboundRoute::Echo);
    assert_eq!(route_inbound("iot/acme/pcb/unit1/uart", prefix), InboundRoute::Other);
    assert_eq!(route_inbound("iot/other/pcb/unit1/ctrl", prefix), InboundRoute::Other);
    assert_eq!(route_inbound("iot/acme/pcb/unit1/ctrl2", prefix), InboundRoute::Other);
    assert_eq!(route_inbound("", prefix), InboundRoute::Other);
}

#[test]
fn hex_digits_have_their_values() {
    assert_eq!(from_hex_digit(b'0'), 0);
    assert_eq!(from_hex_digit(b'9'), 9);
    assert_eq!(from_hex_digit(b'a'), 10);
    assert_eq!(from_hex_digit(b'f'), 15);
    assert_eq!(from_hex_digit(b'A'), 10);
    assert_eq!(from_hex_digit(b'F'), 15);
    assert_eq!(hex_digit_checked(b'g'), None);
    assert_eq!(hex_digit_checked(b':'), None);
}

#[test]
fn mac_text_parses_to_bytes() {
    let mac = parse_mac("aa:bb:cc:00:11:22");
    assert_eq!(mac, [0xAA, 0xBB, 0xCC, 0x00, 0x11, 0x22]);
    let mac = parse_mac("0F:10:9f:A0:01:fE");
    assert_eq!(mac, [0x0F, 0x10, 0x9F, 0xA0, 0x01, 0xFE]);
}

#[test]
fn relay_command_parses_hex_pairs() {
    assert_eq!(parse_relay_command(b"05ff"), Ok([Some(5), Some(255), None, None]));
    assert_eq!(
        parse_relay_command(b"00010203"),
        Ok([Some(0), Some(1), Some(2), Some(3)])
    );
    // Extra pairs past the four outputs are ignored.
    assert_eq!(
        parse_relay_command(b"0001020304"),
        Ok([Some(0), Some(1), Some(2), Some(3)])
    );
}

#[test]
fn relay_command_skips_malformed_pairs() {
    // An incomplete trailing pair leaves that output untouched.
    assert_eq!(parse_relay_command(b"05f"), Ok([Some(5), None, None, None]));
    // A non-hexadecimal pair is skipped, later pairs still count.
    assert_eq!(parse_relay_command(b"zz10"), Ok([None, Some(16), None, None]));
    // Signs are handled as integer parsing of the pair's text would.
    assert_eq!(parse_relay_command(b"+5-0"), Ok([Some(5), Some(0), None, None]));
    assert_eq!(parse_relay_command(b"-1"), Ok([None, None, None, None]));
}

#[test]
fn relay_packet_drives_outputs_and_timers() {
    let timers = [None, None, Some(400u64), Some(50u64)];
    let command = [Some(0u8), Some(255u8), Some(5u8), None];
    let (timers, levels) = apply_relay_packet(timers, 100, command);
    assert_eq!(timers, [None, Some(u64::MAX), Some(105), Some(50)]);
    assert_eq!(levels, [Some(true), Some(false), Some(false), None]);
}

#[test]
fn relay_timers_release_expired_outputs() {
    let timers = [Some(105u64), Some(u64::MAX), None, Some(200u64)];
    let (timers, levels) = expire_relay_timers(timers, 106);
    assert_eq!(timers, [None, Some(u64::MAX), None, Some(200)]);
    assert_eq!(levels, [Some(true), Some(false), None, Some(false)]);
}

#[test]
fn soonest_deadline_picks_the_minimum() {
    assert_eq!(soonest_deadline(&[Some(105), None, Some(90), Some(u64::MAX)]), 90);
    assert_eq!(soonest_deadline(&[None, None, None, None]), u64::MAX);
}

#[test]
fn relay_command_rejects_non_utf8_payloads() {
    assert_eq!(
        parse_relay_command(&[0xFF, 0xFE]),
        Err(RelayCommandError::InvalidUtf8)
    );
}
