use kiwi_measurements::CommonMeasurement;
use kiwi_measurements::SingleMeasurement;
use kiwi_measurements::SINGLE_MEASUREMENT_SIZE;
use plotly_client::pipeline::BatchOutcome;
use plotly_client::pipeline::IngestPipeline;
use plotly_client::pipeline::SocketEvent;
use plotly_client::pipeline::SocketMode;
use plotly_client::pipeline::SocketPhase;
use plotly_client::wire::DecodeFailure;

fn record(timestamp: u64, x: f32) -> SingleMeasurement {
    SingleMeasurement {
        measurement: CommonMeasurement::Accel(x, 2.0 * x, -x),
        timestamp,
    }
}

fn encode(m: &SingleMeasurement) -> Vec<u8> {
    let bytes: [u8; SINGLE_MEASUREMENT_SIZE] = m.clone().into();
    bytes.to_vec()
}

fn crc16_xmodem(data: &[u8]) -> u16 {
    let mut crc: u16 = 0;
    for &b in data {
        crc ^= (b as u16) << 8;
        for _ in 0..8 {
            if crc & 0x8000 != 0 {
                crc = (crc << 1) ^ 0x1021;
            } else {
                crc <<= 1;
            }
        }
    }
    crc
}

fn receiving_pipeline(now: u64) -> IngestPipeline {
    let mut p = IngestPipeline::new(SocketMode::Unicast, 100_000, true, now);
    p.on_socket_event(SocketEvent::BindOk, now);
    assert_eq!(p.phase, SocketPhase::Receiving);
    p
}

#[test]
fn batch_window_publishes_records_in_arrival_order() {
    let mut p = receiving_pipeline(0);
    let m1 = record(10, 1.0);
    let m2 = record(40, 2.0);
    let m3 = record(70, 3.0);
    assert!(matches!(
        p.on_datagram(&encode(&m1), 10_000).batch,
        BatchOutcome::Continue
    ));
    assert!(matches!(
        p.on_datagram(&encode(&m2), 40_000).batch,
        BatchOutcome::Continue
    ));
    assert!(matches!(
        p.on_datagram(&encode(&m3), 70_000).batch,
        BatchOutcome::Continue
    ));
    match p.on_timer(100_000) {
        BatchOutcome::Publish(payload) => {
            let expected = serde_json::to_string(&vec![m1, m2, m3]).unwrap();
            assert_eq!(payload, expected);
        }
        other => panic!("expected a publish, got {:?}", other),
    }
    assert_eq!(p.phase, SocketPhase::Receiving);
    assert!(matches!(p.on_timer(200_000), BatchOutcome::Idle));
}

#[test]
fn short_datagram_is_dropped_and_the_next_valid_one_delivered() {
    let mut p = receiving_pipeline(0);
    let bytes = encode(&record(1, 1.0));
    let out = p.on_datagram(&bytes[..10], 10_000);
    assert_eq!(out.drop_reason, Some(DecodeFailure::Length));
    let m = record(2, 2.0);
    let out = p.on_datagram(&encode(&m), 20_000);
    assert_eq!(out.drop_reason, None);
    match p.on_timer(100_000) {
        BatchOutcome::Publish(payload) => {
            assert_eq!(payload, serde_json::to_string(&vec![m]).unwrap());
        }
        other => panic!("expected a publish, got {:?}", other),
    }
}

#[test]
fn corrupted_datagram_fails_the_checksum() {
    let mut p = receiving_pipeline(0);
    let mut bytes = encode(&record(3, 1.5));
    bytes[5] ^= 0xff;
    let out = p.on_datagram(&bytes, 10_000);
    assert_eq!(out.drop_reason, Some(DecodeFailure::Crc));
}

#[test]
fn unknown_type_code_is_rejected_after_the_checksum() {
    let mut p = receiving_pipeline(0);
    let mut bytes = vec![0u8; SINGLE_MEASUREMENT_SIZE];
    bytes[0] = 0x02;
    bytes[1] = 0x01;
    let crc = crc16_xmodem(&bytes[..SINGLE_MEASUREMENT_SIZE - 2]);
    bytes[SINGLE_MEASUREMENT_SIZE - 2..].copy_from_slice(&crc.to_le_bytes());
    let out = p.on_datagram(&bytes, 10_000);
    assert_eq!(out.drop_reason, Some(DecodeFailure::Tag));
}

#[test]
fn empty_window_is_the_idle_signal_that_rebinds() {
    let mut p = receiving_pipeline(0);
    assert!(matches!(p.on_timer(100_000), BatchOutcome::Idle));
    assert_eq!(p.phase, SocketPhase::Unbound);
}

#[test]
fn idle_policy_off_merely_restarts_the_window() {
    let mut p = IngestPipeline::new(SocketMode::Unicast, 100_000, false, 0);
    p.on_socket_event(SocketEvent::BindOk, 0);
    assert!(matches!(p.on_timer(100_000), BatchOutcome::Continue));
    assert_eq!(p.phase, SocketPhase::Receiving);
}

#[test]
fn bind_failure_then_success_reaches_receiving() {
    let mut p = IngestPipeline::new(SocketMode::Unicast, 100_000, true, 0);
    p.on_socket_event(SocketEvent::BindFailed, 0);
    assert_eq!(p.phase, SocketPhase::ErrorBackoff);
    p.on_socket_event(SocketEvent::BackoffElapsed, 1_000_000);
    assert_eq!(p.phase, SocketPhase::Unbound);
    p.on_socket_event(SocketEvent::BindOk, 1_000_001);
    assert_eq!(p.phase, SocketPhase::Receiving);
}

#[test]
fn multicast_bind_passes_through_the_group_join() {
    let mut p = IngestPipeline::new(SocketMode::Multicast, 100_000, true, 0);
    p.on_socket_event(SocketEvent::BindOk, 0);
    assert_eq!(p.phase, SocketPhase::JoiningGroup);
    p.on_socket_event(SocketEvent::JoinFailed, 1);
    assert_eq!(p.phase, SocketPhase::ErrorBackoff);
    p.on_socket_event(SocketEvent::BackoffElapsed, 1_000_000);
    p.on_socket_event(SocketEvent::BindOk, 1_000_001);
    assert_eq!(p.phase, SocketPhase::JoiningGroup);
    p.on_socket_event(SocketEvent::JoinOk, 1_000_002);
    assert_eq!(p.phase, SocketPhase::Receiving);
}

#[test]
fn receive_error_abandons_the_socket_and_its_batch() {
    let mut p = receiving_pipeline(0);
    let out = p.on_datagram(&encode(&record(5, 1.0)), 10_000);
    assert!(out.drop_reason.is_none());
    p.on_socket_event(SocketEvent::RecvError, 20_000);
    assert_eq!(p.phase, SocketPhase::ErrorBackoff);
    p.on_socket_event(SocketEvent::BackoffElapsed, 1_000_000);
    p.on_socket_event(SocketEvent::BindOk, 1_000_001);
    assert_eq!(p.phase, SocketPhase::Receiving);
    assert!(matches!(p.on_timer(1_200_000), BatchOutcome::Idle));
}

#[test]
fn datagram_that_overruns_the_window_closes_it() {
    let mut p = receiving_pipeline(0);
    let m = record(9, 4.0);
    let out = p.on_datagram(&encode(&m), 150_000);
    match out.batch {
        BatchOutcome::Publish(payload) => {
            assert_eq!(payload, serde_json::to_string(&vec![m]).unwrap());
        }
        other => panic!("expected a publish, got {:?}", other),
    }
    assert_eq!(p.phase, SocketPhase::Receiving);
}
