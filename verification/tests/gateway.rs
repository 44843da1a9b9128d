use module_runtime::gateway::{Gateway, GatewayError, GatewayStep};
use module_runtime::gateway_host_schema::{
    GatewayPacket, HostPacket, OtaData, OtaInitRequest, OtaStatus,
};
use module_runtime::ota::common::{
    OtaDataPacket, OtaError, OtaInitPacket, OtaPacket, OtaStatusPacket, Outgoing,
};

fn request() -> OtaInitRequest {
    OtaInitRequest {
        destination_address: 3,
        binary_size: 200,
        binary_sha256: [2; 32],
        block_size: 96,
        block_count: 3,
    }
}

fn init_packet() -> OtaInitPacket {
    OtaInitPacket { binary_size: 200, binary_sha256: [2; 32], block_size: 96, block_count: 3 }
}

fn host_block(index: u16) -> HostPacket {
    HostPacket::OtaData(OtaData { index, data: heapless::Vec::from_slice(&[index as u8; 8]).unwrap() })
}

fn air_block(index: u16) -> OtaPacket {
    OtaPacket::Data(OtaDataPacket { index, data: heapless::Vec::from_slice(&[index as u8; 8]).unwrap() })
}

fn report(indexes: &[u16], valid_up_to_index: u16) -> OtaPacket {
    OtaPacket::Status(OtaStatusPacket {
        received_indexes: heapless::Vec::from_slice(indexes).unwrap(),
        valid_up_to_index,
    })
}

fn snapshot(in_progress: bool, not_acked: &[u16], last_acked: u16) -> GatewayPacket {
    GatewayPacket::OtaStatus(OtaStatus {
        in_progress,
        not_acked: heapless::Vec::from_slice(not_acked).unwrap(),
        last_acked,
    })
}

fn reply_of(step: Result<GatewayStep, GatewayError>) -> Option<GatewayPacket> {
    match step {
        Ok(GatewayStep::Reply(reply)) => reply,
        _ => panic!("a reply is due"),
    }
}

fn open(gateway: &mut Gateway) {
    match gateway.process_host_message(HostPacket::OtaInit(request())) {
        Ok(GatewayStep::Init(candidate, outgoing)) => {
            assert_eq!(outgoing, Outgoing { destination: 3, packet: OtaPacket::Init(init_packet()) });
            assert_eq!(
                gateway.init_download(candidate, Ok(OtaPacket::InitAck)),
                Ok(Some(GatewayPacket::OtaInitAck))
            );
        }
        _ => panic!("a handshake is due"),
    }
}

fn send(gateway: &mut Gateway, index: u16) {
    match gateway.process_host_message(host_block(index)) {
        Ok(GatewayStep::Data(i, outgoing)) => {
            assert_eq!(i, index);
            assert_eq!(outgoing, Outgoing { destination: 3, packet: air_block(index) });
            assert_eq!(gateway.continue_download(i, Ok(())), Ok(None));
        }
        _ => panic!("a block is due"),
    }
}

#[test]
fn ping_is_answered() {
    let gateway = Gateway::new();
    assert_eq!(
        reply_of(gateway.process_host_message(HostPacket::PingRequest)),
        Some(GatewayPacket::PingResponse)
    );
}

#[test]
fn idle_gateway_reports_no_session() {
    let mut gateway = Gateway::new();
    assert_eq!(
        reply_of(gateway.process_host_message(HostPacket::OtaGetStatus)),
        Some(snapshot(false, &[], 0))
    );
    assert_eq!(
        reply_of(gateway.process_host_message(HostPacket::OtaDoneRequest)),
        Some(GatewayPacket::OtaDoneAck)
    );
    assert_eq!(
        reply_of(gateway.process_host_message(HostPacket::OtaAbortRequest)),
        Some(GatewayPacket::OtaAbortAck)
    );
    assert!(matches!(
        gateway.process_host_message(host_block(0)),
        Err(GatewayError::Ota(OtaError::NotStarted))
    ));
    assert_eq!(gateway.continue_download(0, Ok(())), Err(GatewayError::Ota(OtaError::NotStarted)));
    assert_eq!(gateway.done_download(Ok(OtaPacket::DoneAck)), Ok(Some(GatewayPacket::OtaDoneAck)));
    assert_eq!(gateway.abort_download(Ok(OtaPacket::AbortAck)), Ok(Some(GatewayPacket::OtaAbortAck)));
    assert_eq!(gateway.process_peer_message(Ok(report(&[0], 0))), Ok(None));
}

#[test]
fn failed_handshake_leaves_no_session() {
    let mut gateway = Gateway::new();
    match gateway.process_host_message(HostPacket::OtaInit(request())) {
        Ok(GatewayStep::Init(candidate, _)) => {
            assert_eq!(
                gateway.init_download(candidate, Err(OtaError::Receive)),
                Err(GatewayError::Ota(OtaError::Receive))
            );
        }
        _ => panic!("a handshake is due"),
    }
    assert_eq!(
        reply_of(gateway.process_host_message(HostPacket::OtaGetStatus)),
        Some(snapshot(false, &[], 0))
    );
    assert!(matches!(
        gateway.process_host_message(host_block(0)),
        Err(GatewayError::Ota(OtaError::NotStarted))
    ));
}

#[test]
fn init_during_download_is_refused() {
    let mut gateway = Gateway::new();
    open(&mut gateway);
    send(&mut gateway, 0);
    assert!(matches!(
        gateway.process_host_message(HostPacket::OtaInit(request())),
        Err(GatewayError::Ota(OtaError::AlreadyStarted))
    ));
    assert_eq!(
        reply_of(gateway.process_host_message(HostPacket::OtaGetStatus)),
        Some(snapshot(true, &[0], 0))
    );
    send(&mut gateway, 1);
    assert_eq!(
        gateway.process_peer_message(Ok(report(&[0, 1], 1))),
        Ok(Some(snapshot(true, &[], 1)))
    );
}

#[test]
fn init_after_done_is_accepted() {
    let mut gateway = Gateway::new();
    open(&mut gateway);
    match gateway.process_host_message(HostPacket::OtaAbortRequest) {
        Ok(GatewayStep::Abort(outgoing)) => {
            assert_eq!(outgoing, Outgoing { destination: 3, packet: OtaPacket::Abort });
        }
        _ => panic!("an abort is due"),
    }
    assert_eq!(gateway.abort_download(Ok(OtaPacket::AbortAck)), Ok(Some(GatewayPacket::OtaAbortAck)));
    assert!(matches!(
        gateway.process_host_message(host_block(0)),
        Err(GatewayError::Ota(OtaError::NotStarted))
    ));
    open(&mut gateway);
    send(&mut gateway, 0);
}

#[test]
fn peer_messages_are_reported() {
    let mut gateway = Gateway::new();
    open(&mut gateway);
    send(&mut gateway, 0);
    send(&mut gateway, 1);
    send(&mut gateway, 2);
    assert_eq!(
        gateway.process_peer_message(Err(OtaError::Deserialize)),
        Err(GatewayError::Ota(OtaError::Deserialize))
    );
    assert_eq!(
        gateway.process_peer_message(Ok(OtaPacket::Done)),
        Err(GatewayError::Ota(OtaError::InvalidPacketType))
    );
    assert_eq!(gateway.process_peer_message(Ok(report(&[0], 0))), Ok(Some(snapshot(true, &[2, 1], 0))));
    assert_eq!(gateway.process_peer_message(Ok(report(&[0, 1, 2], 2))), Ok(Some(GatewayPacket::OtaDoneAck)));
    assert_eq!(
        reply_of(gateway.process_host_message(HostPacket::OtaGetStatus)),
        Some(snapshot(false, &[], 2))
    );
}

#[test]
fn done_request_goes_on_the_air() {
    let mut gateway = Gateway::new();
    open(&mut gateway);
    send(&mut gateway, 0);
    match gateway.process_host_message(HostPacket::OtaDoneRequest) {
        Ok(GatewayStep::Done(outgoing)) => {
            assert_eq!(outgoing, Outgoing { destination: 3, packet: OtaPacket::Done });
        }
        _ => panic!("a done request is due"),
    }
    assert_eq!(
        gateway.done_download(Err(OtaError::Receive)),
        Err(GatewayError::Ota(OtaError::Receive))
    );
    assert_eq!(gateway.done_download(Ok(report(&[], 0))), Ok(Some(snapshot(true, &[0], 0))));
    assert_eq!(gateway.done_download(Ok(OtaPacket::DoneAck)), Ok(Some(GatewayPacket::OtaDoneAck)));
}

#[test]
fn failed_block_is_reported() {
    let mut gateway = Gateway::new();
    open(&mut gateway);
    assert_eq!(
        gateway.continue_download(0, Err(OtaError::Transmit)),
        Err(GatewayError::Ota(OtaError::Transmit))
    );
    assert_eq!(
        reply_of(gateway.process_host_message(HostPacket::OtaGetStatus)),
        Some(snapshot(true, &[], 0))
    );
}
