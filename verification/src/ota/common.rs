//! Wire schema of the protocol, and the sending of one packet: once, or
//! again and again until the peer answers.

use crate::bounded::{block_bytes, payload_from_slice, window_items};
use crate::lora::{LoRaPacket, LoRaPacketType, LoRaPacketView, ModuleLoRa};
use vstd::prelude::*;

pub mod err;

verus! {

/// What can go wrong in the protocol.
#[derive(Debug, Clone, Copy, PartialEq, Eq, Structural)]
pub enum OtaError {
    Deserialize,
    Serialize,
    Transmit,
    Receive,
    InvalidPacketType,
    AlreadyStarted,
    NotStarted,
    MemoryWriteFailed,
    /// As many blocks are unconfirmed as the producer can keep track of.
    TooManyOutstanding,
}

/// Session parameters, sent by the producer.
#[derive(Debug, Clone, Copy, PartialEq, Eq)]
pub struct OtaInitPacket {
    pub binary_size: u32,
    pub binary_sha256: [u8; 32],
    pub block_size: u16,
    pub block_count: u16,
}

/// One block of the image, sent by the producer.
#[derive(Debug, PartialEq, Eq)]
pub struct OtaDataPacket {
    pub index: u16,
    pub data: heapless::Vec<u8, 96>,
}

/// What the consumer has written, sent by the consumer. The window repeats
/// indexes that earlier packets reported, so that a lost packet costs no
/// retransmission.
#[derive(Debug, PartialEq, Eq)]
pub struct OtaStatusPacket {
    pub received_indexes: heapless::Vec<u16, 32>,
    pub valid_up_to_index: u16,
}

/// A protocol packet.
#[derive(Debug, PartialEq, Eq)]
pub enum OtaPacket {
    Init(OtaInitPacket),
    InitAck,
    Data(OtaDataPacket),
    Status(OtaStatusPacket),
    Done,
    DoneAck,
    Abort,
    AbortAck,
}

/// A block as a mathematical value.
pub struct OtaDataPacketView {
    pub index: u16,
    pub data: Seq<u8>,
}

/// A status report as a mathematical value.
pub struct OtaStatusPacketView {
    pub received_indexes: Seq<u16>,
    pub valid_up_to_index: u16,
}

/// A protocol packet as a mathematical value.
pub enum OtaPacketView {
    Init(OtaInitPacket),
    InitAck,
    Data(OtaDataPacketView),
    Status(OtaStatusPacketView),
    Done,
    DoneAck,
    Abort,
    AbortAck,
}

impl View for OtaDataPacket {
    type V = OtaDataPacketView;

    open spec fn view(&self) -> OtaDataPacketView {
        OtaDataPacketView { index: self.index, data: block_bytes(self.data) }
    }
}

impl View for OtaStatusPacket {
    type V = OtaStatusPacketView;

    open spec fn view(&self) -> OtaStatusPacketView {
        OtaStatusPacketView {
            received_indexes: window_items(self.received_indexes),
            valid_up_to_index: self.valid_up_to_index,
        }
    }
}

impl View for OtaPacket {
    type V = OtaPacketView;

    open spec fn view(&self) -> OtaPacketView {
        match self {
            OtaPacket::Init(init) => OtaPacketView::Init(*init),
            OtaPacket::InitAck => OtaPacketView::InitAck,
            OtaPacket::Data(data) => OtaPacketView::Data(data@),
            OtaPacket::Status(status) => OtaPacketView::Status(status@),
            OtaPacket::Done => OtaPacketView::Done,
            OtaPacket::DoneAck => OtaPacketView::DoneAck,
            OtaPacket::Abort => OtaPacketView::Abort,
            OtaPacket::AbortAck => OtaPacketView::AbortAck,
        }
    }
}

impl OtaPacketView {
    /// The tag that begins the encoding of a packet: the place of its
    /// variant.
    pub open spec fn tag(self) -> u8 {
        match self {
            OtaPacketView::Init(_) => 0,
            OtaPacketView::InitAck => 1,
            OtaPacketView::Data(_) => 2,
            OtaPacketView::Status(_) => 3,
            OtaPacketView::Done => 4,
            OtaPacketView::DoneAck => 5,
            OtaPacketView::Abort => 6,
            OtaPacketView::AbortAck => 7,
        }
    }
}

/// The number of packet variants; every tag is below it.
pub const PACKET_VARIANTS: u8 = 8;

/// Every packet has a tag below the number of variants.
pub proof fn lemma_tag_known(packet: OtaPacketView)
    ensures
        packet.tag() < PACKET_VARIANTS,
{
}

/// The tag of the packet in a frame's payload, before the codec reads the
/// rest: a payload that begins with no known tag is answered with
/// `InvalidPacketType`, and one without a byte with `Deserialize`.
pub fn packet_tag(payload: &[u8]) -> (r: Result<u8, OtaError>)
    ensures
        r == (if payload@.len() == 0 {
            Err::<u8, OtaError>(OtaError::Deserialize)
        } else if payload@[0] < PACKET_VARIANTS {
            Ok::<u8, OtaError>(payload@[0])
        } else {
            Err::<u8, OtaError>(OtaError::InvalidPacketType)
        }),
{
    if payload.len() == 0 {
        Err(OtaError::Deserialize)
    } else if payload[0] < PACKET_VARIANTS {
        Ok(payload[0])
    } else {
        Err(OtaError::InvalidPacketType)
    }
}

/// A packet and the node that it is for.
#[derive(Debug, PartialEq, Eq)]
pub struct Outgoing {
    pub destination: usize,
    pub packet: OtaPacket,
}

/// A packet and the node that it is for, as a mathematical value.
pub struct OutgoingView {
    pub destination: usize,
    pub packet: OtaPacketView,
}

impl View for Outgoing {
    type V = OutgoingView;

    open spec fn view(&self) -> OutgoingView {
        OutgoingView { destination: self.destination, packet: self.packet@ }
    }
}

/// Whether `item` is among `items`.
pub fn contains(items: &[u16], item: u16) -> (r: bool)
    ensures
        r == items@.contains(item),
{
    let mut i: usize = 0;
    while i < items.len()
        invariant
            i <= items@.len(),
            forall|k: int| 0 <= k < i ==> items@[k] != item,
        decreases items.len() - i,
    {
        if items[i] == item {
            return true;
        }
        i = i + 1;
    }
    false
}

/// The first place of `item` among `items`.
pub fn position(items: &[u16], item: u16) -> (r: Option<usize>)
    ensures
        r is Some <==> items@.contains(item),
        r is Some ==> r->Some_0 < items@.len() && items@[r->Some_0 as int] == item && forall|
            k: int,
        | 0 <= k < r->Some_0 ==> items@[k] != item,
{
    let mut i: usize = 0;
    while i < items.len()
        invariant
            i <= items@.len(),
            forall|k: int| 0 <= k < i ==> items@[k] != item,
        decreases items.len() - i,
    {
        if items[i] == item {
            return Some(i);
        }
        i = i + 1;
    }
    None
}

/// The tuning of the link.
#[derive(Debug, Clone, Copy, PartialEq, Eq, Structural)]
pub struct LinkConfig {
    /// Longest wait for the answer to one attempt, in milliseconds.
    pub receive_window_ms: u64,
    /// Attempts that a transactional send makes.
    pub retries: usize,
    /// Pause after a failed attempt, in milliseconds.
    pub retry_backoff_ms: u64,
}

impl LinkConfig {
    /// Five seconds to receive, ten attempts, a tenth of a second between
    /// them.
    pub fn new() -> (config: LinkConfig)
        ensures
            config == (LinkConfig { receive_window_ms: 5000, retries: 10, retry_backoff_ms: 100 }),
    {
        LinkConfig { receive_window_ms: 5000, retries: 10, retry_backoff_ms: 100 }
    }
}

/// Frames an encoded packet for `destination`, to be sent once. It fails
/// with `Serialize` exactly when the encoding is longer than a frame's
/// payload.
pub fn lora_transmit(lora: &ModuleLoRa, destination: usize, encoded: &[u8]) -> (r: Result<
    Vec<u8>,
    OtaError,
>)
    ensures
        r is Ok <==> encoded@.len() <= 119,
        r is Ok ==> r->Ok_0@ == (LoRaPacketView {
            source: lora.address,
            destination,
            packet_type: LoRaPacketType::OTA,
            payload: encoded@,
        }).bytes(),
        r is Err ==> r == Err::<Vec<u8>, OtaError>(OtaError::Serialize),
{
    let mut p = LoRaPacket::new(destination, LoRaPacketType::OTA);
    match payload_from_slice(encoded) {
        Some(payload) => {
            p.payload = payload;
        },
        None => {
            return Err(OtaError::Serialize);
        },
    }
    match lora.transmit(&mut p) {
        Ok(frame) => Ok(frame),
        Err(e) => Err(err::transmit(e)),
    }
}

/// How one attempt of a transactional send ended.
#[derive(Debug, PartialEq, Eq)]
pub enum Attempt {
    /// The radio refused to send.
    TransmitFailed,
    /// Nothing was received in the window, or the radio reported a fault.
    ReceiveFailed,
    /// A frame was received and its payload is no packet.
    DecodeFailed,
    /// The peer answered.
    Response(OtaPacket),
}

impl Attempt {
    /// The error that a failed attempt is recorded as.
    pub open spec fn error(self) -> OtaError {
        match self {
            Attempt::TransmitFailed => OtaError::Transmit,
            Attempt::ReceiveFailed => OtaError::Receive,
            Attempt::DecodeFailed => OtaError::Deserialize,
            Attempt::Response(_) => OtaError::Receive,
        }
    }
}

/// A transactional send under way: the caller transmits the frame, waits for
/// an answer within the receive window, and reports how the attempt ended.
#[derive(Debug, Clone, Copy, PartialEq, Eq, Structural)]
pub struct TransmitUntilResponse {
    /// Attempts that may still be made.
    pub attempts_left: usize,
    /// The error of the latest failed attempt.
    pub last_error: Option<OtaError>,
}

/// Begins a transactional send of at most `retries` attempts.
pub fn lora_transmit_until_response(retries: usize) -> (exchange: TransmitUntilResponse)
    requires
        retries > 0,
    ensures
        exchange == (TransmitUntilResponse { attempts_left: retries, last_error: None }),
{
    TransmitUntilResponse { attempts_left: retries, last_error: None }
}

impl TransmitUntilResponse {
    /// The exchange after one more attempt: an answer leaves it as it is, a
    /// failure uses up an attempt and is remembered.
    pub open spec fn after(self, attempt: Attempt) -> TransmitUntilResponse {
        match attempt {
            Attempt::Response(_) => self,
            _ => TransmitUntilResponse {
                attempts_left: (self.attempts_left - 1) as usize,
                last_error: Some(attempt.error()),
            },
        }
    }

    /// What one more attempt ends the exchange with, if it ends it: the
    /// answer, or the error of the failure that used up the last attempt.
    pub open spec fn result(self, attempt: Attempt) -> Option<Result<OtaPacket, OtaError>> {
        match attempt {
            Attempt::Response(packet) => Some(Ok(packet)),
            _ => if self.attempts_left <= 1 {
                Some(Err(attempt.error()))
            } else {
                None
            },
        }
    }

    /// What a run of attempts ends the exchange with, if it ends it; the
    /// attempts behind the one that ends it are never made.
    pub open spec fn outcome(self, attempts: Seq<Attempt>) -> Option<Result<OtaPacket, OtaError>>
        decreases attempts.len(),
    {
        if attempts.len() == 0 {
            None
        } else if self.result(attempts[0]) is Some {
            self.result(attempts[0])
        } else {
            self.after(attempts[0]).outcome(attempts.skip(1))
        }
    }

    /// Takes the outcome of one attempt. `Some` ends the exchange: with the
    /// peer's answer, or, after the last attempt failed, with its error.
    /// `None` asks for the back-off pause and another attempt.
    pub fn attempt_finished(&mut self, attempt: Attempt) -> (r: Option<Result<OtaPacket, OtaError>>)
        requires
            old(self).attempts_left > 0,
        ensures
            *final(self) == old(self).after(attempt),
            r == old(self).result(attempt),
            r is None ==> final(self).attempts_left > 0,
    {
        let error = match attempt {
            Attempt::Response(packet) => {
                return Some(Ok(packet));
            },
            Attempt::TransmitFailed => OtaError::Transmit,
            Attempt::ReceiveFailed => OtaError::Receive,
            Attempt::DecodeFailed => OtaError::Deserialize,
        };
        self.last_error = Some(error);
        self.attempts_left = self.attempts_left - 1;
        if self.attempts_left == 0 {
            Some(Err(error))
        } else {
            None
        }
    }
}

/// An exchange in which every attempt fails ends with the failure that uses
/// up the last attempt, and with the error of that failure; it does not end
/// before.
pub proof fn lemma_exchange_gives_up(exchange: TransmitUntilResponse, attempts: Seq<Attempt>)
    requires
        exchange.attempts_left > 0,
        forall|i: int| 0 <= i < attempts.len() ==> !((#[trigger] attempts[i]) is Response),
    ensures
        attempts.len() < exchange.attempts_left ==> exchange.outcome(attempts) is None,
        attempts.len() >= exchange.attempts_left ==> exchange.outcome(attempts) == Some(
            Err::<OtaPacket, OtaError>(attempts[exchange.attempts_left - 1].error()),
        ),
    decreases attempts.len(),
{
    if attempts.len() > 0 && exchange.attempts_left > 1 {
        let rest = attempts.skip(1);
        assert forall|i: int| 0 <= i < rest.len() implies !((#[trigger] rest[i]) is Response) by {
            assert(rest[i] == attempts[i + 1]);
        }
        lemma_exchange_gives_up(exchange.after(attempts[0]), rest);
        if attempts.len() >= exchange.attempts_left {
            assert(rest[exchange.attempts_left - 2] == attempts[exchange.attempts_left - 1]);
        }
    }
}

/// An exchange ends with the first answer that comes before the attempts
/// are used up.
pub proof fn lemma_exchange_takes_first_answer(
    exchange: TransmitUntilResponse,
    attempts: Seq<Attempt>,
    place: int,
)
    requires
        0 <= place < attempts.len(),
        place < exchange.attempts_left,
        attempts[place] is Response,
        forall|i: int| 0 <= i < place ==> !((#[trigger] attempts[i]) is Response),
    ensures
        exchange.outcome(attempts) == Some(
            Ok::<OtaPacket, OtaError>(attempts[place]->Response_0),
        ),
    decreases place,
{
    if place > 0 {
        let rest = attempts.skip(1);
        assert forall|i: int| 0 <= i < place - 1 implies !((#[trigger] rest[i]) is Response) by {
            assert(rest[i] == attempts[i + 1]);
        }
        assert(rest[place - 1] == attempts[place]);
        lemma_exchange_takes_first_answer(exchange.after(attempts[0]), rest, place - 1);
    }
}

} // verus!
