//! Addressed framing: a five-byte header (destination, source, type), the
//! payload, and a little-endian CRC-32 of header and payload.

use crate::bounded::{payload_bytes, payload_from_slice, payload_new, payload_slice};
use crate::crc::{crc32, crc32_of, lemma_crc32_one_byte};
use vstd::prelude::*;
use vstd::slice::slice_subrange;

verus! {

/// Largest frame that the radio carries.
pub const PACKET_LENGTH: usize = 128;

/// Bytes of destination, source and type in front of the payload.
pub const HEADER_LENGTH: usize = 5;

/// Bytes of the checksum behind the payload.
pub const CHECKSUM_LENGTH: usize = 4;

/// Largest payload of one frame.
pub const PAYLOAD_LENGTH: usize = PACKET_LENGTH - HEADER_LENGTH - CHECKSUM_LENGTH;

/// `lora_phy::mod_params::RadioError`, what the radio driver reports.
#[verifier::external_type_specification]
pub struct ExRadioError(lora_phy::mod_params::RadioError);

/// What a frame carries.
#[derive(Debug, Clone, Copy, PartialEq, Eq, Structural)]
pub enum LoRaPacketType {
    Ping,
    OTA,
    SoilSensor,
}

/// One frame, without its checksum.
#[derive(Debug, PartialEq, Eq)]
pub struct LoRaPacket {
    pub source: usize,
    pub destination: usize,
    pub packet_type: LoRaPacketType,
    pub payload: heapless::Vec<u8, 119>,
}

/// A frame as a mathematical value.
pub struct LoRaPacketView {
    pub source: usize,
    pub destination: usize,
    pub packet_type: LoRaPacketType,
    pub payload: Seq<u8>,
}

impl View for LoRaPacket {
    type V = LoRaPacketView;

    open spec fn view(&self) -> LoRaPacketView {
        LoRaPacketView {
            source: self.source,
            destination: self.destination,
            packet_type: self.packet_type,
            payload: payload_bytes(self.payload),
        }
    }
}

/// The tag byte of a frame type.
pub open spec fn type_tag(packet_type: LoRaPacketType) -> u8 {
    match packet_type {
        LoRaPacketType::Ping => 0,
        LoRaPacketType::OTA => 1,
        LoRaPacketType::SoilSensor => 2,
    }
}

/// The frame type of a tag byte, if it has one.
pub open spec fn tag_type(tag: u8) -> Option<LoRaPacketType> {
    if tag == 0 {
        Some(LoRaPacketType::Ping)
    } else if tag == 1 {
        Some(LoRaPacketType::OTA)
    } else if tag == 2 {
        Some(LoRaPacketType::SoilSensor)
    } else {
        None
    }
}

/// The two bytes of a node address on the wire: its low sixteen bits, low
/// byte first.
pub open spec fn address_bytes(address: usize) -> Seq<u8> {
    seq![((address % 65536) % 256) as u8, ((address % 65536) / 256) as u8]
}

/// The node address that two bytes on the wire stand for.
pub open spec fn address_of(low: u8, high: u8) -> usize {
    (low + 256 * high) as usize
}

/// The four bytes of a checksum on the wire, low byte first.
pub open spec fn checksum_bytes(crc: u32) -> Seq<u8> {
    seq![
        (crc % 256) as u8,
        ((crc / 256) % 256) as u8,
        ((crc / 65536) % 256) as u8,
        (crc / 16777216) as u8,
    ]
}

/// The checksum that four bytes on the wire stand for.
pub open spec fn checksum_of(b0: u8, b1: u8, b2: u8, b3: u8) -> u32 {
    (b0 + 256 * b1 + 65536 * b2 + 16777216 * b3) as u32
}

impl LoRaPacketView {
    /// Both addresses fit in sixteen bits, and the payload has at least one
    /// byte and at most 119.
    pub open spec fn well_formed(self) -> bool {
        &&& self.source < 65536
        &&& self.destination < 65536
        &&& 1 <= self.payload.len() <= 119
    }

    /// Header and payload, the part of the frame that the checksum covers.
    pub open spec fn body(self) -> Seq<u8> {
        address_bytes(self.destination) + address_bytes(self.source) + seq![
            type_tag(self.packet_type),
        ] + self.payload
    }

    /// The frame on the wire: header, payload, checksum.
    pub open spec fn bytes(self) -> Seq<u8> {
        self.body() + checksum_bytes(crc32(self.body()))
    }
}

/// The frame that received bytes stand for: `None` where there are fewer than
/// ten bytes or more than 128, where the trailing checksum is not the CRC-32
/// of what precedes it, or where the type tag is unknown.
pub open spec fn parsed(bytes: Seq<u8>) -> Option<LoRaPacketView> {
    let n = bytes.len() - 4;
    if bytes.len() < 10 || bytes.len() > 128 {
        None
    } else if checksum_of(bytes[n], bytes[n + 1], bytes[n + 2], bytes[n + 3]) != crc32(
        bytes.subrange(0, n),
    ) {
        None
    } else {
        match tag_type(bytes[4]) {
            None => None,
            Some(packet_type) => Some(
                LoRaPacketView {
                    destination: address_of(bytes[0], bytes[1]),
                    source: address_of(bytes[2], bytes[3]),
                    packet_type,
                    payload: bytes.subrange(5, n),
                },
            ),
        }
    }
}

/// The four wire bytes of a checksum stand for that checksum.
pub proof fn lemma_checksum_bytes(crc: u32)
    ensures
        checksum_bytes(crc).len() == 4,
        checksum_of(
            checksum_bytes(crc)[0],
            checksum_bytes(crc)[1],
            checksum_bytes(crc)[2],
            checksum_bytes(crc)[3],
        ) == crc,
{
}

/// Parsing a serialized frame gives the frame back, for every well-formed
/// frame.
pub proof fn lemma_parse_serialize_round_trip(frame: LoRaPacketView)
    requires
        frame.well_formed(),
    ensures
        parsed(frame.bytes()) == Some(frame),
{
    let body = frame.body();
    let bytes = frame.bytes();
    let n = bytes.len() - 4;
    lemma_checksum_bytes(crc32(body));
    assert(bytes.subrange(0, n) =~= body);
    assert(bytes.subrange(5, n) =~= frame.payload);
    assert(bytes[4] == type_tag(frame.packet_type));
    assert(bytes[0] == address_bytes(frame.destination)[0]);
    assert(bytes[1] == address_bytes(frame.destination)[1]);
    assert(bytes[2] == address_bytes(frame.source)[0]);
    assert(bytes[3] == address_bytes(frame.source)[1]);
    let got = parsed(bytes)->Some_0;
    assert(got.payload == frame.payload);
    assert(got.destination == frame.destination);
    assert(got.source == frame.source);
}

/// A serialized frame in which one byte has been changed, by a flipped bit or
/// otherwise, is rejected.
pub proof fn lemma_corrupted_byte_rejected(frame: LoRaPacketView, position: int, value: u8)
    requires
        frame.well_formed(),
        0 <= position < frame.bytes().len(),
        value != frame.bytes()[position],
    ensures
        parsed(frame.bytes().update(position, value)) is None,
{
    let body = frame.body();
    let bytes = frame.bytes();
    let n = bytes.len() - 4;
    let bad = bytes.update(position, value);
    lemma_checksum_bytes(crc32(body));
    assert(bytes.subrange(0, n) =~= body);
    if position < n {
        let bad_body = bad.subrange(0, n);
        lemma_crc32_one_byte(body, bad_body, position);
        assert(bad[n] == checksum_bytes(crc32(body))[0]);
        assert(bad[n + 1] == checksum_bytes(crc32(body))[1]);
        assert(bad[n + 2] == checksum_bytes(crc32(body))[2]);
        assert(bad[n + 3] == checksum_bytes(crc32(body))[3]);
    } else {
        assert(bad.subrange(0, n) =~= body);
        assert(bytes[n] == checksum_bytes(crc32(body))[0]);
        assert(bytes[n + 1] == checksum_bytes(crc32(body))[1]);
        assert(bytes[n + 2] == checksum_bytes(crc32(body))[2]);
        assert(bytes[n + 3] == checksum_bytes(crc32(body))[3]);
    }
}

/// A serialized frame in which one bit has been flipped is rejected.
pub proof fn lemma_bit_flip_rejected(frame: LoRaPacketView, position: int, bit: u8)
    requires
        frame.well_formed(),
        0 <= position < frame.bytes().len(),
        bit < 8,
    ensures
        parsed(frame.bytes().update(position, frame.bytes()[position] ^ (1u8 << bit))) is None,
{
    let b = frame.bytes()[position];
    assert(bit < 8 ==> (b ^ (1u8 << bit)) != b) by (bit_vector);
    lemma_corrupted_byte_rejected(frame, position, b ^ (1u8 << bit));
}

fn tag_of(packet_type: LoRaPacketType) -> (tag: u8)
    ensures
        tag == type_tag(packet_type),
{
    match packet_type {
        LoRaPacketType::Ping => 0,
        LoRaPacketType::OTA => 1,
        LoRaPacketType::SoilSensor => 2,
    }
}

fn push_address(out: &mut Vec<u8>, address: usize)
    ensures
        final(out)@ == old(out)@ + address_bytes(address),
{
    let low: usize = address % 65536;
    out.push((low % 256) as u8);
    out.push((low / 256) as u8);
    assert(final(out)@ =~= old(out)@ + address_bytes(address));
}

fn read_address(low: u8, high: u8) -> (address: usize)
    ensures
        address == address_of(low, high),
{
    (low as usize) + 256 * (high as usize)
}

fn read_checksum(b0: u8, b1: u8, b2: u8, b3: u8) -> (crc: u32)
    ensures
        crc == checksum_of(b0, b1, b2, b3),
{
    (b0 as u32) + 256 * (b1 as u32) + 65536 * (b2 as u32) + 16777216 * (b3 as u32)
}

impl LoRaPacket {
    /// A frame for `destination` with an empty payload; the source is filled
    /// in when the frame is transmitted.
    pub fn new(destination: usize, packet_type: LoRaPacketType) -> (packet: LoRaPacket)
        ensures
            packet@ == (LoRaPacketView {
                source: 0,
                destination,
                packet_type,
                payload: Seq::<u8>::empty(),
            }),
    {
        LoRaPacket { destination, source: 0, packet_type, payload: payload_new() }
    }

    /// A frame for `destination` that carries `payload`.
    pub fn new_with_payload(
        destination: usize,
        packet_type: LoRaPacketType,
        payload: heapless::Vec<u8, 119>,
    ) -> (packet: LoRaPacket)
        ensures
            packet@ == (LoRaPacketView {
                source: 0,
                destination,
                packet_type,
                payload: payload_bytes(payload),
            }),
    {
        let mut ret = Self::new(destination, packet_type);
        ret.payload = payload;
        ret
    }

    /// Reads a frame from received bytes, checksum included.
    pub fn parse(buff: &[u8]) -> (r: Option<LoRaPacket>)
        ensures
            match r {
                Some(packet) => parsed(buff@) == Some(packet@),
                None => parsed(buff@) is None,
            },
    {
        if buff.len() < HEADER_LENGTH + CHECKSUM_LENGTH + 1 || buff.len() > PACKET_LENGTH {
            return None;
        }
        let n: usize = buff.len() - CHECKSUM_LENGTH;
        let stored = read_checksum(buff[n], buff[n + 1], buff[n + 2], buff[n + 3]);
        if crc32_of(slice_subrange(buff, 0, n)) != stored {
            return None;
        }
        let packet_type = match buff[4] {
            0 => LoRaPacketType::Ping,
            1 => LoRaPacketType::OTA,
            2 => LoRaPacketType::SoilSensor,
            _ => {
                return None;
            },
        };
        match payload_from_slice(slice_subrange(buff, HEADER_LENGTH, n)) {
            Some(payload) => Some(
                LoRaPacket {
                    destination: read_address(buff[0], buff[1]),
                    source: read_address(buff[2], buff[3]),
                    packet_type,
                    payload,
                },
            ),
            None => None,
        }
    }

    /// The frame on the wire, checksum included.
    pub fn to_bytes(&self) -> (out: Vec<u8>)
        ensures
            out@ == self@.bytes(),
            out@.len() == self@.payload.len() + 9,
            out@.len() <= 128,
    {
        let mut out: Vec<u8> = Vec::new();
        push_address(&mut out, self.destination);
        push_address(&mut out, self.source);
        out.push(tag_of(self.packet_type));
        let payload = payload_slice(&self.payload);
        let mut i: usize = 0;
        while i < payload.len()
            invariant
                i <= payload@.len(),
                payload@ == self@.payload,
                out@ == address_bytes(self.destination) + address_bytes(self.source) + seq![
                    type_tag(self.packet_type),
                ] + payload@.take(i as int),
            decreases payload.len() - i,
        {
            out.push(payload[i]);
            assert(payload@.take(i + 1) =~= payload@.take(i as int).push(payload@[i as int]));
            i = i + 1;
        }
        assert(payload@.take(i as int) =~= payload@);
        assert(out@ == self@.body());
        let crc = crc32_of(out.as_slice());
        out.push((crc % 256) as u8);
        out.push(((crc / 256) % 256) as u8);
        out.push(((crc / 65536) % 256) as u8);
        out.push((crc / 16777216) as u8);
        assert(out@ =~= self@.body() + checksum_bytes(crc32(self@.body())));
        out
    }

    /// Lays the frame out at the start of `buff`, checksum included, and
    /// returns its length; `None`, with `buff` untouched, when the frame does
    /// not fit.
    pub fn serialize(&self, buff: &mut [u8]) -> (r: Option<usize>)
        ensures
            r is Some <==> self@.bytes().len() <= old(buff)@.len(),
            r is Some ==> r->Some_0 == self@.bytes().len() && final(buff)@ == self@.bytes()
                + old(buff)@.skip(r->Some_0 as int),
            r is None ==> final(buff)@ == old(buff)@,
    {
        let frame = self.to_bytes();
        let len = frame.len();
        if len > buff.len() {
            return None;
        }
        let mut i: usize = 0;
        while i < len
            invariant
                i <= len,
                len == frame@.len(),
                len <= buff@.len(),
                buff@.len() == old(buff)@.len(),
                buff@ == frame@.take(i as int) + old(buff)@.skip(i as int),
            decreases len - i,
        {
            buff[i] = frame[i];
            assert(buff@ =~= frame@.take(i + 1) + old(buff)@.skip(i + 1));
            i = i + 1;
        }
        assert(frame@.take(len as int) =~= frame@);
        Some(len)
    }
}

/// This node's end of the radio link: its address, by which outgoing frames
/// are signed and incoming frames are chosen. The radio itself is driven by
/// the caller.
pub struct ModuleLoRa {
    pub address: usize,
}

impl ModuleLoRa {
    /// Signs `packet` with this node's address and returns the bytes to put on
    /// the air.
    pub fn transmit(&self, packet: &mut LoRaPacket) -> (r: Result<
        Vec<u8>,
        lora_phy::mod_params::RadioError,
    >)
        ensures
            final(packet)@ == (LoRaPacketView { source: self.address, ..old(packet)@ }),
            r is Ok,
            r->Ok_0@ == final(packet)@.bytes(),
    {
        packet.source = self.address;
        let mut buff: Vec<u8> = Vec::new();
        let mut i: usize = 0;
        while i < PACKET_LENGTH
            invariant
                i <= PACKET_LENGTH,
                buff@.len() == i,
            decreases PACKET_LENGTH - i,
        {
            buff.push(0);
            i = i + 1;
        }
        match packet.serialize(buff.as_mut_slice()) {
            Some(len) => {
                buff.truncate(len);
                assert(buff@ =~= packet@.bytes());
                Ok(buff)
            },
            None => Err(
                lora_phy::mod_params::RadioError::PayloadSizeUnexpected(
                    payload_slice(&packet.payload).len(),
                ),
            ),
        }
    }

    /// The frame in what the radio received, if the bytes hold a frame.
    pub fn receive(&self, buff: &[u8]) -> (r: Option<LoRaPacket>)
        ensures
            match r {
                Some(packet) => parsed(buff@) == Some(packet@),
                None => parsed(buff@) is None,
            },
    {
        LoRaPacket::parse(buff)
    }

    /// The frame in what the radio received, if the bytes hold a frame that
    /// is addressed to this node; every other frame is dropped.
    pub fn receive_addressed(&self, buff: &[u8]) -> (r: Option<LoRaPacket>)
        ensures
            match r {
                Some(packet) => parsed(buff@) == Some(packet@) && packet.destination
                    == self.address,
                None => parsed(buff@) is None || parsed(buff@)->Some_0.destination
                    != self.address,
            },
    {
        match self.receive(buff) {
            Some(packet) => {
                if packet.destination == self.address {
                    Some(packet)
                } else {
                    None
                }
            },
            None => None,
        }
    }
}

} // verus!
