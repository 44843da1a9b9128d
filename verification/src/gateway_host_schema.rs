//! What the host and the gateway say to each other over the serial link.

use crate::bounded::{block_bytes, pending_items};
use crate::ota::common::{OtaDataPacketView, OtaInitPacket};
use vstd::prelude::*;

verus! {

/// The host asks for a session with the node at `destination_address`.
#[derive(Debug, Clone, Copy, PartialEq)]
pub struct OtaInitRequest {
    pub destination_address: usize,
    pub binary_size: u32,
    pub binary_sha256: [u8; 32],
    pub block_size: u16,
    pub block_count: u16,
}

impl OtaInitRequest {
    /// The session parameters that the request asks for.
    pub open spec fn params(self) -> OtaInitPacket {
        OtaInitPacket {
            binary_size: self.binary_size,
            binary_sha256: self.binary_sha256,
            block_size: self.block_size,
            block_count: self.block_count,
        }
    }
}

/// One block of the image, from the host.
#[derive(Debug, PartialEq, Eq)]
pub struct OtaData {
    pub index: u16,
    pub data: heapless::Vec<u8, 96>,
}

impl View for OtaData {
    type V = OtaDataPacketView;

    open spec fn view(&self) -> OtaDataPacketView {
        OtaDataPacketView { index: self.index, data: block_bytes(self.data) }
    }
}

/// A snapshot of the producer, for the host.
#[derive(Debug, PartialEq, Eq)]
pub struct OtaStatus {
    pub in_progress: bool,
    pub not_acked: heapless::Vec<u16, 128>,
    pub last_acked: u16,
}

/// A snapshot of the producer as a mathematical value.
pub struct OtaStatusView {
    pub in_progress: bool,
    pub not_acked: Seq<u16>,
    pub last_acked: u16,
}

impl View for OtaStatus {
    type V = OtaStatusView;

    open spec fn view(&self) -> OtaStatusView {
        OtaStatusView {
            in_progress: self.in_progress,
            not_acked: pending_items(self.not_acked),
            last_acked: self.last_acked,
        }
    }
}

/// What the host sends.
#[derive(Debug, PartialEq)]
pub enum HostPacket {
    PingRequest,
    OtaGetStatus,
    OtaInit(OtaInitRequest),
    OtaData(OtaData),
    OtaDoneRequest,
    OtaAbortRequest,
}

/// What the host sends, as a mathematical value.
pub enum HostPacketView {
    PingRequest,
    OtaGetStatus,
    OtaInit(OtaInitRequest),
    OtaData(OtaDataPacketView),
    OtaDoneRequest,
    OtaAbortRequest,
}

impl View for HostPacket {
    type V = HostPacketView;

    open spec fn view(&self) -> HostPacketView {
        match self {
            HostPacket::PingRequest => HostPacketView::PingRequest,
            HostPacket::OtaGetStatus => HostPacketView::OtaGetStatus,
            HostPacket::OtaInit(init) => HostPacketView::OtaInit(*init),
            HostPacket::OtaData(data) => HostPacketView::OtaData(data@),
            HostPacket::OtaDoneRequest => HostPacketView::OtaDoneRequest,
            HostPacket::OtaAbortRequest => HostPacketView::OtaAbortRequest,
        }
    }
}

/// What the gateway sends.
#[derive(Debug, PartialEq)]
pub enum GatewayPacket {
    PingResponse,
    OtaInitAck,
    OtaStatus(OtaStatus),
    OtaDoneAck,
    OtaAbortAck,
}

/// What the gateway sends, as a mathematical value.
pub enum GatewayPacketView {
    PingResponse,
    OtaInitAck,
    OtaStatus(OtaStatusView),
    OtaDoneAck,
    OtaAbortAck,
}

impl View for GatewayPacket {
    type V = GatewayPacketView;

    open spec fn view(&self) -> GatewayPacketView {
        match self {
            GatewayPacket::PingResponse => GatewayPacketView::PingResponse,
            GatewayPacket::OtaInitAck => GatewayPacketView::OtaInitAck,
            GatewayPacket::OtaStatus(status) => GatewayPacketView::OtaStatus(status@),
            GatewayPacket::OtaDoneAck => GatewayPacketView::OtaDoneAck,
            GatewayPacket::OtaAbortAck => GatewayPacketView::OtaAbortAck,
        }
    }
}

} // verus!
