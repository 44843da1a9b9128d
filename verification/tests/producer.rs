use module_runtime::gateway_host_schema::{GatewayPacket, OtaStatus};
use module_runtime::ota::common::{
    OtaDataPacket, OtaError, OtaInitPacket, OtaPacket, OtaStatusPacket, Outgoing,
};
use module_runtime::ota::producer::OtaProducer;

fn session(block_count: u16) -> OtaInitPacket {
    OtaInitPacket { binary_size: 200, binary_sha256: [1; 32], block_size: 96, block_count }
}

fn block(index: u16) -> OtaDataPacket {
    OtaDataPacket { index, data: heapless::Vec::from_slice(&[index as u8; 4]).unwrap() }
}

fn report(indexes: &[u16], valid_up_to_index: u16) -> OtaPacket {
    OtaPacket::Status(OtaStatusPacket {
        received_indexes: heapless::Vec::from_slice(indexes).unwrap(),
        valid_up_to_index,
    })
}

fn snapshot(in_progress: bool, not_acked: &[u16], last_acked: u16) -> OtaStatus {
    OtaStatus { in_progress, not_acked: heapless::Vec::from_slice(not_acked).unwrap(), last_acked }
}

fn downloading(block_count: u16) -> OtaProducer {
    let mut producer = OtaProducer::new(session(block_count), 3);
    assert_eq!(producer.init_download(Ok(OtaPacket::InitAck)), Ok(GatewayPacket::OtaInitAck));
    producer
}

fn send(producer: &mut OtaProducer, index: u16) {
    assert_eq!(
        producer.prepare_data(block(index)),
        Ok(Outgoing { destination: 3, packet: OtaPacket::Data(block(index)) })
    );
    assert_eq!(producer.continue_download(index, Ok(())), Ok(()));
}

#[test]
fn new_producer_waits_for_the_handshake() {
    let producer = OtaProducer::new(session(3), 3);
    assert!(!producer.is_done());
    assert_eq!(producer.get_status(), snapshot(false, &[], 0));
    assert_eq!(
        producer.prepare_init(),
        Ok(Outgoing { destination: 3, packet: OtaPacket::Init(session(3)) })
    );
}

#[test]
fn handshake_opens_the_session() {
    let producer = downloading(3);
    assert_eq!(producer.get_status(), snapshot(true, &[], 0));
    assert!(!producer.is_done());
}

#[test]
fn failed_handshake_changes_nothing() {
    let mut producer = OtaProducer::new(session(3), 3);
    assert_eq!(producer.init_download(Err(OtaError::Receive)), Err(OtaError::Receive));
    assert_eq!(producer.init_download(Err(OtaError::Transmit)), Err(OtaError::Transmit));
    assert_eq!(producer.get_status(), snapshot(false, &[], 0));
    assert_eq!(producer.prepare_data(block(0)), Err(OtaError::NotStarted));
}

#[test]
fn handshake_while_downloading_is_refused() {
    let mut producer = downloading(3);
    send(&mut producer, 0);
    assert_eq!(producer.prepare_init(), Err(OtaError::AlreadyStarted));
    assert_eq!(producer.init_download(Ok(OtaPacket::InitAck)), Err(OtaError::AlreadyStarted));
    assert_eq!(producer.get_status(), snapshot(true, &[0], 0));
}

#[test]
fn handshake_after_done_starts_clean() {
    let mut producer = downloading(1);
    send(&mut producer, 0);
    assert_eq!(producer.process_response(report(&[], 7)), Ok(GatewayPacket::OtaStatus(snapshot(true, &[0], 7))));
    assert_eq!(producer.abort_download(Ok(OtaPacket::AbortAck)), Ok(GatewayPacket::OtaAbortAck));
    assert!(producer.is_done());
    assert!(producer.prepare_init().is_ok());
    assert_eq!(producer.init_download(Ok(OtaPacket::InitAck)), Ok(GatewayPacket::OtaInitAck));
    assert_eq!(producer.get_status(), snapshot(true, &[], 0));
    send(&mut producer, 0);
    assert_eq!(producer.process_response(report(&[0], 0)), Ok(GatewayPacket::OtaDoneAck));
}

#[test]
fn unexpected_handshake_answer() {
    let mut producer = OtaProducer::new(session(3), 3);
    assert_eq!(producer.init_download(Ok(report(&[], 0))), Err(OtaError::InvalidPacketType));
    assert_eq!(producer.init_download(Ok(OtaPacket::Done)), Err(OtaError::InvalidPacketType));
    assert_eq!(producer.get_status(), snapshot(false, &[], 0));
}

#[test]
fn data_outside_a_session_is_refused() {
    let mut producer = OtaProducer::new(session(3), 3);
    assert_eq!(producer.prepare_data(block(0)), Err(OtaError::NotStarted));
    assert_eq!(producer.continue_download(0, Ok(())), Err(OtaError::NotStarted));
    assert_eq!(producer.get_status(), snapshot(false, &[], 0));
}

#[test]
fn sent_blocks_are_unconfirmed_once() {
    let mut producer = downloading(10);
    send(&mut producer, 0);
    send(&mut producer, 2);
    send(&mut producer, 1);
    send(&mut producer, 2);
    assert_eq!(producer.get_status(), snapshot(true, &[0, 2, 1], 0));
}

#[test]
fn failed_transmission_is_not_entered() {
    let mut producer = downloading(10);
    assert_eq!(producer.continue_download(4, Err(OtaError::Transmit)), Err(OtaError::Transmit));
    assert_eq!(producer.continue_download(4, Err(OtaError::Serialize)), Err(OtaError::Serialize));
    assert_eq!(producer.get_status(), snapshot(true, &[], 0));
}

#[test]
fn too_many_outstanding_is_surfaced() {
    let mut producer = downloading(1000);
    for index in 0..128u16 {
        send(&mut producer, index);
    }
    assert_eq!(producer.prepare_data(block(128)), Err(OtaError::TooManyOutstanding));
    assert_eq!(producer.continue_download(128, Ok(())), Err(OtaError::TooManyOutstanding));
    assert_eq!(producer.get_status().not_acked.len(), 128);
    send(&mut producer, 5);
    assert_eq!(producer.get_status().not_acked.len(), 128);
    let r = producer.process_response(report(&[0], 0));
    assert!(matches!(r, Ok(GatewayPacket::OtaStatus(_))));
    send(&mut producer, 128);
    assert_eq!(producer.get_status().not_acked.len(), 128);
}

#[test]
fn status_retires_by_swap_remove() {
    let mut producer = downloading(10);
    for index in 0..5u16 {
        send(&mut producer, index);
    }
    assert_eq!(
        producer.process_response(report(&[1, 7], 3)),
        Ok(GatewayPacket::OtaStatus(snapshot(true, &[0, 4, 2, 3], 3)))
    );
    assert_eq!(
        producer.process_response(report(&[0, 1, 4, 3], 1)),
        Ok(GatewayPacket::OtaStatus(snapshot(true, &[2], 1)))
    );
    assert_eq!(producer.get_status(), snapshot(true, &[2], 1));
}

#[test]
fn status_names_no_index_that_stays() {
    let mut producer = downloading(100);
    for index in 0..40u16 {
        send(&mut producer, index);
    }
    let acked: Vec<u16> = (5..37).collect();
    producer.process_response(report(&acked, 0)).unwrap();
    let left = producer.get_status().not_acked;
    assert_eq!(left.len(), 8);
    for index in &acked {
        assert!(!left.contains(index));
    }
    for index in (0..5).chain(37..40) {
        assert!(left.contains(&index));
    }
}

#[test]
fn terminal_test_needs_the_last_block() {
    let mut producer = downloading(3);
    send(&mut producer, 0);
    send(&mut producer, 1);
    assert_eq!(
        producer.process_response(report(&[0, 1], 1)),
        Ok(GatewayPacket::OtaStatus(snapshot(true, &[], 1)))
    );
    assert!(!producer.is_done());
    send(&mut producer, 2);
    assert_eq!(producer.process_response(report(&[0, 1, 2], 2)), Ok(GatewayPacket::OtaDoneAck));
    assert!(producer.is_done());
    assert_eq!(producer.get_status(), snapshot(false, &[], 2));
}

#[test]
fn terminal_test_with_whole_blocks() {
    let whole = OtaInitPacket { binary_size: 192, binary_sha256: [1; 32], block_size: 96, block_count: 2 };
    let mut producer = OtaProducer::new(whole, 3);
    producer.init_download(Ok(OtaPacket::InitAck)).unwrap();
    assert_eq!(producer.continue_download(0, Ok(())), Ok(()));
    assert_eq!(producer.continue_download(1, Ok(())), Ok(()));
    assert_eq!(producer.process_response(report(&[0, 1], 1)), Ok(GatewayPacket::OtaDoneAck));
    assert!(producer.is_done());
}

#[test]
fn responses_in_the_wrong_state() {
    let mut producer = OtaProducer::new(session(3), 3);
    assert_eq!(producer.process_response(report(&[], 0)), Err(OtaError::InvalidPacketType));
    assert_eq!(producer.process_response(OtaPacket::Init(session(3))), Err(OtaError::InvalidPacketType));
    assert_eq!(producer.process_response(OtaPacket::Data(block(0))), Err(OtaError::InvalidPacketType));
    assert_eq!(producer.process_response(OtaPacket::Done), Err(OtaError::InvalidPacketType));
    assert_eq!(producer.process_response(OtaPacket::Abort), Err(OtaError::InvalidPacketType));
    assert_eq!(producer.process_response(OtaPacket::InitAck), Ok(GatewayPacket::OtaInitAck));
    assert_eq!(producer.process_response(OtaPacket::InitAck), Err(OtaError::InvalidPacketType));
    assert_eq!(producer.get_status(), snapshot(true, &[], 0));
}

#[test]
fn done_ack_and_abort_ack_end_the_session() {
    let mut producer = downloading(3);
    assert_eq!(producer.process_response(OtaPacket::DoneAck), Ok(GatewayPacket::OtaDoneAck));
    assert!(producer.is_done());
    let mut producer = downloading(3);
    assert_eq!(producer.process_response(OtaPacket::AbortAck), Ok(GatewayPacket::OtaAbortAck));
    assert!(producer.is_done());
}

#[test]
fn raw_response_that_is_no_packet() {
    let mut producer = downloading(3);
    assert_eq!(producer.process_response_raw(Err(OtaError::Deserialize)), Err(OtaError::Deserialize));
    assert_eq!(producer.process_response_raw(Err(OtaError::Receive)), Err(OtaError::Deserialize));
    assert_eq!(producer.process_response_raw(Ok(OtaPacket::DoneAck)), Ok(GatewayPacket::OtaDoneAck));
    assert!(producer.is_done());
}

#[test]
fn done_exchange() {
    let mut producer = downloading(2);
    send(&mut producer, 0);
    send(&mut producer, 1);
    assert_eq!(producer.prepare_done(), Outgoing { destination: 3, packet: OtaPacket::Done });
    assert_eq!(producer.done_download(Err(OtaError::Receive)), Err(OtaError::Receive));
    assert!(!producer.is_done());
    assert_eq!(
        producer.done_download(Ok(report(&[0], 0))),
        Ok(GatewayPacket::OtaStatus(snapshot(true, &[1], 0)))
    );
    assert_eq!(producer.done_download(Ok(OtaPacket::DoneAck)), Ok(GatewayPacket::OtaDoneAck));
    assert!(producer.is_done());
}

#[test]
fn abort_exchange() {
    let mut producer = downloading(2);
    send(&mut producer, 0);
    assert_eq!(producer.prepare_abort(), Outgoing { destination: 3, packet: OtaPacket::Abort });
    assert_eq!(producer.abort_download(Err(OtaError::Deserialize)), Err(OtaError::Deserialize));
    assert_eq!(producer.get_status(), snapshot(true, &[0], 0));
    assert_eq!(producer.abort_download(Ok(OtaPacket::AbortAck)), Ok(GatewayPacket::OtaAbortAck));
    assert!(producer.is_done());
    assert_eq!(producer.get_status(), snapshot(false, &[0], 0));
}
