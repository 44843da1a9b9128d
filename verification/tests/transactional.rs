use module_runtime::lora::{LoRaPacket, LoRaPacketType, ModuleLoRa};
use module_runtime::ota::common::err;
use module_runtime::ota::common::{
    contains, lora_transmit, lora_transmit_until_response, packet_tag, position, Attempt,
    LinkConfig, OtaError, OtaPacket, TransmitUntilResponse, PACKET_VARIANTS,
};

#[test]
fn default_link_config() {
    assert_eq!(
        LinkConfig::new(),
        LinkConfig { receive_window_ms: 5000, retries: 10, retry_backoff_ms: 100 }
    );
}

#[test]
fn answer_ends_the_exchange() {
    let mut exchange = lora_transmit_until_response(10);
    assert_eq!(exchange.attempt_finished(Attempt::Response(OtaPacket::InitAck)), Some(Ok(OtaPacket::InitAck)));
    assert_eq!(exchange, TransmitUntilResponse { attempts_left: 10, last_error: None });
}

#[test]
fn failures_are_retried_to_the_last_attempt() {
    let mut exchange = lora_transmit_until_response(3);
    assert_eq!(exchange.attempt_finished(Attempt::ReceiveFailed), None);
    assert_eq!(exchange, TransmitUntilResponse { attempts_left: 2, last_error: Some(OtaError::Receive) });
    assert_eq!(exchange.attempt_finished(Attempt::TransmitFailed), None);
    assert_eq!(exchange, TransmitUntilResponse { attempts_left: 1, last_error: Some(OtaError::Transmit) });
    assert_eq!(exchange.attempt_finished(Attempt::DecodeFailed), Some(Err(OtaError::Deserialize)));
    assert_eq!(exchange, TransmitUntilResponse { attempts_left: 0, last_error: Some(OtaError::Deserialize) });
}

#[test]
fn answer_after_failures() {
    let mut exchange = lora_transmit_until_response(2);
    assert_eq!(exchange.attempt_finished(Attempt::DecodeFailed), None);
    assert_eq!(exchange.attempt_finished(Attempt::Response(OtaPacket::DoneAck)), Some(Ok(OtaPacket::DoneAck)));
}

#[test]
fn single_attempt_reports_its_error() {
    let mut exchange = lora_transmit_until_response(1);
    assert_eq!(exchange.attempt_finished(Attempt::TransmitFailed), Some(Err(OtaError::Transmit)));
}

#[test]
fn one_shot_frame() {
    let lora = ModuleLoRa { address: 1 };
    let frame = lora_transmit(&lora, 3, &[1, 2, 3]).unwrap();
    let parsed = LoRaPacket::parse(&frame).unwrap();
    assert_eq!(parsed.destination, 3);
    assert_eq!(parsed.source, 1);
    assert_eq!(parsed.packet_type, LoRaPacketType::OTA);
    assert_eq!(parsed.payload.as_slice(), &[1, 2, 3]);
}

#[test]
fn one_shot_frame_of_too_long_a_packet() {
    let lora = ModuleLoRa { address: 1 };
    assert!(lora_transmit(&lora, 3, &[0; 119]).is_ok());
    assert_eq!(lora_transmit(&lora, 3, &[0; 120]), Err(OtaError::Serialize));
}

#[test]
fn outside_errors_become_protocol_errors() {
    assert_eq!(err::deserialize(postcard::Error::DeserializeBadVarint), OtaError::Deserialize);
    assert_eq!(err::serialize(postcard::Error::SerializeBufferFull), OtaError::Serialize);
    assert_eq!(err::transmit(lora_phy::mod_params::RadioError::Busy), OtaError::Transmit);
    assert_eq!(err::receive(lora_phy::mod_params::RadioError::ReceiveTimeout), OtaError::Receive);
}

#[test]
fn contains_and_position() {
    assert!(contains(&[4, 5, 6], 5));
    assert!(!contains(&[4, 5, 6], 7));
    assert!(!contains(&[], 0));
    assert_eq!(position(&[4, 5, 6, 5], 5), Some(1));
    assert_eq!(position(&[4, 5, 6], 4), Some(0));
    assert_eq!(position(&[4, 5, 6], 9), None);
}

#[test]
fn tag_of_a_payload() {
    assert_eq!(PACKET_VARIANTS, 8);
    assert_eq!(packet_tag(&[]), Err(OtaError::Deserialize));
    assert_eq!(packet_tag(&[0, 1, 2]), Ok(0));
    assert_eq!(packet_tag(&[7]), Ok(7));
    assert_eq!(packet_tag(&[8]), Err(OtaError::InvalidPacketType));
    assert_eq!(packet_tag(&[0x80, 0x01]), Err(OtaError::InvalidPacketType));
}

#[test]
fn tags_follow_the_codec() {
    let done: heapless::Vec<u8, 8> = postcard::to_vec(&4u32).unwrap();
    assert_eq!(packet_tag(&done), Ok(4));
    let unknown: heapless::Vec<u8, 8> = postcard::to_vec(&200u32).unwrap();
    assert_eq!(packet_tag(&unknown), Err(OtaError::InvalidPacketType));
}
