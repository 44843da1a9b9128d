//! The sending end of a session: it opens the session, keeps track of the
//! blocks that were sent and not yet confirmed, retires them as status
//! reports arrive, and decides when the transfer is over.
//!
//! The radio is driven by the caller. For every exchange the producer first
//! says what to send, and then takes what came back.

use crate::bounded::{
    pending_clear,
    pending_clone,
    pending_items,
    pending_new,
    pending_push,
    pending_slice,
    pending_swap_remove,
    window_slice,
};
use crate::gateway_host_schema::{GatewayPacket, GatewayPacketView, OtaStatus, OtaStatusView};
use crate::ota::common::{
    contains,
    position,
    OtaDataPacket,
    OtaError,
    OtaInitPacket,
    OtaPacket,
    OtaPacketView,
    OtaStatusPacket,
    OtaStatusPacketView,
    Outgoing,
    OutgoingView,
};
use vstd::prelude::*;

verus! {

/// Where a producer stands in its session.
#[derive(Debug, Clone, Copy, PartialEq, Eq, Structural)]
pub enum OtaProducerState {
    /// Created; the consumer has not acknowledged the session yet.
    Init,
    /// Blocks are being sent.
    Download,
    /// The session is over: completed or aborted.
    Done,
}

/// The sending end of a session.
pub struct OtaProducer {
    params: OtaInitPacket,
    destination_address: usize,
    state: OtaProducerState,
    not_acked_indexes: heapless::Vec<u16, 128>,
    highest_sent_index: u16,
    last_acked_index: u16,
}

/// The producer's bookkeeping as a mathematical value.
pub struct ProducerState {
    pub params: OtaInitPacket,
    pub destination_address: usize,
    pub state: OtaProducerState,
    /// Indexes that were sent and that no status report has confirmed.
    pub not_acked: Seq<u16>,
    pub highest_sent_index: u16,
    /// The consumer's watermark, as the latest status report gave it.
    pub last_acked_index: u16,
}

/// The first place of `index` in `pending`.
pub open spec fn first_place(pending: Seq<u16>, index: u16) -> int {
    choose|i: int|
        0 <= i < pending.len() && pending[i] == index && forall|k: int|
            0 <= k < i ==> pending[k] != index
}

/// `pending` without `index`: the last entry takes the place of the one that
/// leaves.
pub open spec fn retire_one(pending: Seq<u16>, index: u16) -> Seq<u16> {
    if pending.contains(index) {
        pending.update(first_place(pending, index), pending.last()).drop_last()
    } else {
        pending
    }
}

/// `pending` after the indexes of `acked` have been retired, one after the
/// other.
pub open spec fn retire(pending: Seq<u16>, acked: Seq<u16>) -> Seq<u16>
    decreases acked.len(),
{
    if acked.len() == 0 {
        pending
    } else {
        retire_one(retire(pending, acked.drop_last()), acked.last())
    }
}

/// The view of a result that carries a packet for the host.
pub open spec fn answer_view(r: Result<GatewayPacket, OtaError>) -> Result<
    GatewayPacketView,
    OtaError,
> {
    match r {
        Ok(packet) => Ok(packet@),
        Err(e) => Err(e),
    }
}

/// The view of a result that carries a packet to send.
pub open spec fn request_view(r: Result<Outgoing, OtaError>) -> Result<OutgoingView, OtaError> {
    match r {
        Ok(outgoing) => Ok(outgoing@),
        Err(e) => Err(e),
    }
}

/// The view of the outcome of a transactional send.
pub open spec fn outcome_view(r: Result<OtaPacket, OtaError>) -> Result<OtaPacketView, OtaError> {
    match r {
        Ok(packet) => Ok(packet@),
        Err(e) => Err(e),
    }
}

impl ProducerState {
    /// No index is twice among the unconfirmed ones, and there are at most
    /// 128 of them.
    pub open spec fn inv(self) -> bool {
        &&& self.not_acked.no_duplicates()
        &&& self.not_acked.len() <= 128
    }

    /// A producer that has just been created.
    pub open spec fn created(params: OtaInitPacket, destination_address: usize) -> ProducerState {
        ProducerState {
            params,
            destination_address,
            state: OtaProducerState::Init,
            not_acked: Seq::<u16>::empty(),
            highest_sent_index: 0,
            last_acked_index: 0,
        }
    }

    /// The snapshot for the host.
    pub open spec fn status(self) -> OtaStatusView {
        OtaStatusView {
            not_acked: self.not_acked,
            in_progress: self.state == OtaProducerState::Download,
            last_acked: self.last_acked_index,
        }
    }

    /// The terminal test: nothing is unconfirmed, and the last block of the
    /// image has been sent.
    pub open spec fn complete(self) -> bool {
        self.not_acked.len() == 0 && self.highest_sent_index + 1 == self.params.block_count
    }

    /// The bookkeeping after a status report, before the terminal test.
    pub open spec fn retired(self, status: OtaStatusPacketView) -> ProducerState {
        ProducerState {
            not_acked: retire(self.not_acked, status.received_indexes),
            last_acked_index: status.valid_up_to_index,
            ..self
        }
    }

    /// The state after a status report.
    pub open spec fn after_status(self, status: OtaStatusPacketView) -> ProducerState {
        if self.retired(status).complete() {
            ProducerState { state: OtaProducerState::Done, ..self.retired(status) }
        } else {
            self.retired(status)
        }
    }

    /// The state after a packet from the consumer.
    pub open spec fn next(self, packet: OtaPacketView) -> ProducerState {
        match packet {
            OtaPacketView::InitAck => if self.state == OtaProducerState::Init {
                ProducerState { state: OtaProducerState::Download, ..self }
            } else {
                self
            },
            OtaPacketView::Status(status) => if self.state != OtaProducerState::Init {
                self.after_status(status)
            } else {
                self
            },
            OtaPacketView::DoneAck => ProducerState { state: OtaProducerState::Done, ..self },
            OtaPacketView::AbortAck => ProducerState { state: OtaProducerState::Done, ..self },
            _ => self,
        }
    }

    /// What the host is told after a packet from the consumer.
    pub open spec fn answer(self, packet: OtaPacketView) -> Result<GatewayPacketView, OtaError> {
        match packet {
            OtaPacketView::InitAck => if self.state == OtaProducerState::Init {
                Ok(GatewayPacketView::OtaInitAck)
            } else {
                Err(OtaError::InvalidPacketType)
            },
            OtaPacketView::Status(status) => if self.state != OtaProducerState::Init {
                if self.retired(status).complete() {
                    Ok(GatewayPacketView::OtaDoneAck)
                } else {
                    Ok(GatewayPacketView::OtaStatus(self.retired(status).status()))
                }
            } else {
                Err(OtaError::InvalidPacketType)
            },
            OtaPacketView::DoneAck => Ok(GatewayPacketView::OtaDoneAck),
            OtaPacketView::AbortAck => Ok(GatewayPacketView::OtaAbortAck),
            _ => Err(OtaError::InvalidPacketType),
        }
    }

    /// The state in which a session has just been acknowledged.
    pub open spec fn opened(self) -> ProducerState {
        ProducerState {
            state: OtaProducerState::Download,
            not_acked: Seq::<u16>::empty(),
            highest_sent_index: 0,
            last_acked_index: 0,
            ..self
        }
    }

    /// The state after the handshake ended with `outcome`.
    pub open spec fn after_init(self, outcome: Result<OtaPacketView, OtaError>) -> ProducerState {
        match outcome {
            Err(_) => self,
            Ok(packet) => if self.state == OtaProducerState::Download {
                self
            } else if packet is InitAck {
                self.opened()
            } else {
                self.next(packet)
            },
        }
    }

    /// What the host is told after the handshake ended with `outcome`.
    pub open spec fn init_answer(self, outcome: Result<OtaPacketView, OtaError>) -> Result<
        GatewayPacketView,
        OtaError,
    > {
        match outcome {
            Err(e) => Err(e),
            Ok(packet) => if self.state == OtaProducerState::Download {
                Err(OtaError::AlreadyStarted)
            } else if packet is InitAck {
                Ok(GatewayPacketView::OtaInitAck)
            } else {
                self.answer(packet)
            },
        }
    }

    /// Why a block cannot be sent now, if it cannot: there is no session
    /// under way, or the block would be one unconfirmed block too many.
    pub open spec fn refusal(self, index: u16) -> Option<OtaError> {
        if self.state != OtaProducerState::Download {
            Some(OtaError::NotStarted)
        } else if !self.not_acked.contains(index) && self.not_acked.len() >= 128 {
            Some(OtaError::TooManyOutstanding)
        } else {
            None
        }
    }

    /// The state after block `index` has been sent.
    pub open spec fn sent(self, index: u16) -> ProducerState {
        ProducerState {
            not_acked: if self.not_acked.contains(index) {
                self.not_acked
            } else {
                self.not_acked.push(index)
            },
            highest_sent_index: if index > self.highest_sent_index {
                index
            } else {
                self.highest_sent_index
            },
            ..self
        }
    }

    /// The state after an exchange that closes the session, `Done` or
    /// `Abort`, ended with `outcome`.
    pub open spec fn after_exchange(self, outcome: Result<OtaPacketView, OtaError>)
        -> ProducerState {
        match outcome {
            Err(_) => self,
            Ok(packet) => self.next(packet),
        }
    }

    /// What the host is told after such an exchange.
    pub open spec fn exchange_answer(self, outcome: Result<OtaPacketView, OtaError>) -> Result<
        GatewayPacketView,
        OtaError,
    > {
        match outcome {
            Err(e) => Err(e),
            Ok(packet) => self.answer(packet),
        }
    }
}

/// Retiring one index leaves no duplicates, and leaves exactly the other
/// indexes.
pub proof fn lemma_retire_one(pending: Seq<u16>, index: u16)
    requires
        pending.no_duplicates(),
    ensures
        retire_one(pending, index).no_duplicates(),
        retire_one(pending, index).len() <= pending.len(),
        forall|x: u16|
            retire_one(pending, index).contains(x) <==> pending.contains(x) && x != index,
{
    let after = retire_one(pending, index);
    if pending.contains(index) {
        let witness = choose|i: int| 0 <= i < pending.len() && pending[i] == index;
        assert(0 <= witness < pending.len() && pending[witness] == index && forall|k: int|
            0 <= k < witness ==> pending[k] != index);
        let place = first_place(pending, index);
        let last = pending.len() - 1;
        assert(0 <= place < pending.len() && pending[place] == index);
        assert forall|i: int| 0 <= i < after.len() implies #[trigger] after[i] == (if i == place {
            pending[last]
        } else {
            pending[i]
        }) by {}
        assert forall|i: int, j: int|
            0 <= i < after.len() && 0 <= j < after.len() && i != j implies after[i]
            != after[j] by {}
        assert forall|x: u16| after.contains(x) implies pending.contains(x) && x != index by {
            let k = choose|k: int| 0 <= k < after.len() && after[k] == x;
            if k == place {
                assert(pending[last] == x);
            } else {
                assert(pending[k] == x);
            }
        }
        assert forall|x: u16| pending.contains(x) && x != index implies after.contains(x) by {
            let k = choose|k: int| 0 <= k < pending.len() && pending[k] == x;
            if k == last {
                assert(after[place] == x);
            } else {
                assert(after[k] == x);
            }
        }
    }
}

/// After a status report has been processed, no index that it names is left
/// among the unconfirmed ones, and no other index has left them.
pub proof fn lemma_retire(pending: Seq<u16>, acked: Seq<u16>)
    requires
        pending.no_duplicates(),
    ensures
        retire(pending, acked).no_duplicates(),
        retire(pending, acked).len() <= pending.len(),
        forall|x: u16|
            retire(pending, acked).contains(x) <==> pending.contains(x) && !acked.contains(x),
    decreases acked.len(),
{
    if acked.len() > 0 {
        let head = acked.drop_last();
        lemma_retire(pending, head);
        lemma_retire_one(retire(pending, head), acked.last());
        assert forall|x: u16| acked.contains(x) <==> head.contains(x) || x == acked.last() by {
            if acked.contains(x) {
                let k = choose|k: int| 0 <= k < acked.len() && acked[k] == x;
                if k < head.len() {
                    assert(head[k] == x);
                }
            }
            if head.contains(x) {
                let k = choose|k: int| 0 <= k < head.len() && head[k] == x;
                assert(acked[k] == x);
            }
            assert(acked[acked.len() - 1] == acked.last());
        }
    }
}

/// Every status report leaves the unconfirmed indexes a subset of what they
/// were, with none of the reported indexes among them.
pub proof fn lemma_status_retires(state: ProducerState, status: OtaStatusPacketView, index: u16)
    requires
        state.inv(),
        state.state != OtaProducerState::Init,
    ensures
        state.next(OtaPacketView::Status(status)).inv(),
        status.received_indexes.contains(index) ==> !state.next(
            OtaPacketView::Status(status),
        ).not_acked.contains(index),
        state.next(OtaPacketView::Status(status)).not_acked.contains(index)
            ==> state.not_acked.contains(index),
{
    lemma_retire(state.not_acked, status.received_indexes);
}

/// The producer becomes done only by a packet from the consumer: a `DoneAck`,
/// an `AbortAck`, or a status report after which nothing is unconfirmed and
/// the last block has been sent.
pub proof fn lemma_done_only_when_confirmed(state: ProducerState, packet: OtaPacketView)
    requires
        state.state != OtaProducerState::Done,
        state.next(packet).state == OtaProducerState::Done,
    ensures
        packet is DoneAck || packet is AbortAck || (packet is Status && state.retired(
            packet->Status_0,
        ).complete()),
{
}

/// A producer that is not done and is not told of an abort becomes done only
/// after a `DoneAck`, or after a status report whose watermark covers all
/// blocks, as long as status reports come from a consumer whose watermark
/// covers whatever it confirms last.
pub proof fn lemma_done_needs_full_watermark(state: ProducerState, packet: OtaPacketView)
    requires
        state.state != OtaProducerState::Done,
        state.next(packet).state == OtaProducerState::Done,
        packet !is AbortAck,
        packet is Status && state.retired(packet->Status_0).complete()
            ==> packet->Status_0.valid_up_to_index + 1 == state.params.block_count,
    ensures
        packet is DoneAck || (packet is Status && packet->Status_0.valid_up_to_index + 1
            == state.params.block_count),
{
}

/// Every packet from the consumer leaves the bookkeeping sound.
pub proof fn lemma_next_keeps_inv(state: ProducerState, packet: OtaPacketView)
    requires
        state.inv(),
    ensures
        state.next(packet).inv(),
{
    if let OtaPacketView::Status(status) = packet {
        lemma_retire(state.not_acked, status.received_indexes);
    }
}

impl View for OtaProducer {
    type V = ProducerState;

    closed spec fn view(&self) -> ProducerState {
        ProducerState {
            params: self.params,
            destination_address: self.destination_address,
            state: self.state,
            not_acked: pending_items(self.not_acked_indexes),
            highest_sent_index: self.highest_sent_index,
            last_acked_index: self.last_acked_index,
        }
    }
}

impl OtaProducer {
    /// A producer for a session with the node at `destination_address`.
    pub fn new(params: OtaInitPacket, destination_address: usize) -> (producer: OtaProducer)
        ensures
            producer@ == ProducerState::created(params, destination_address),
            producer@.inv(),
    {
        OtaProducer {
            params,
            destination_address,
            state: OtaProducerState::Init,
            not_acked_indexes: pending_new(),
            highest_sent_index: 0,
            last_acked_index: 0,
        }
    }

    /// Whether the session is over.
    pub fn is_done(&self) -> (done: bool)
        ensures
            done == (self@.state == OtaProducerState::Done),
    {
        self.state == OtaProducerState::Done
    }

    /// The snapshot for the host.
    pub fn get_status(&self) -> (status: OtaStatus)
        ensures
            status@ == self@.status(),
    {
        OtaStatus {
            not_acked: pending_clone(&self.not_acked_indexes),
            in_progress: self.state == OtaProducerState::Download,
            last_acked: self.last_acked_index,
        }
    }

    fn process_status(&mut self, status: OtaStatusPacket) -> (r: GatewayPacket)
        requires
            old(self)@.inv(),
        ensures
            final(self)@ == old(self)@.after_status(status@),
            final(self)@.inv(),
            r@ == (if old(self)@.retired(status@).complete() {
                GatewayPacketView::OtaDoneAck
            } else {
                GatewayPacketView::OtaStatus(old(self)@.retired(status@).status())
            }),
    {
        let received = window_slice(&status.received_indexes);
        let mut k: usize = 0;
        while k < received.len()
            invariant
                k <= received@.len(),
                received@ == status@.received_indexes,
                self@ == (ProducerState {
                    not_acked: retire(old(self)@.not_acked, received@.take(k as int)),
                    ..old(self)@
                }),
            decreases received.len() - k,
        {
            proof {
                assert(received@.take(k + 1).drop_last() =~= received@.take(k as int));
            }
            if let Some(i) = position(pending_slice(&self.not_acked_indexes), received[k]) {
                pending_swap_remove(&mut self.not_acked_indexes, i);
            }
            k = k + 1;
        }
        proof {
            assert(received@.take(k as int) =~= received@);
            lemma_retire(old(self)@.not_acked, received@);
        }
        self.last_acked_index = status.valid_up_to_index;
        if pending_slice(&self.not_acked_indexes).len() == 0 && self.highest_sent_index as u32 + 1
            == self.params.block_count as u32 {
            self.state = OtaProducerState::Done;
            GatewayPacket::OtaDoneAck
        } else {
            GatewayPacket::OtaStatus(self.get_status())
        }
    }

    /// Takes a packet from the consumer and says what to tell the host.
    pub fn process_response(&mut self, packet: OtaPacket) -> (r: Result<GatewayPacket, OtaError>)
        requires
            old(self)@.inv(),
        ensures
            final(self)@ == old(self)@.next(packet@),
            final(self)@.inv(),
            answer_view(r) == old(self)@.answer(packet@),
    {
        match packet {
            OtaPacket::Init(_) => Err(OtaError::InvalidPacketType),
            OtaPacket::Data(_) => Err(OtaError::InvalidPacketType),
            OtaPacket::Done => Err(OtaError::InvalidPacketType),
            OtaPacket::Abort => Err(OtaError::InvalidPacketType),
            OtaPacket::InitAck => {
                if self.state == OtaProducerState::Init {
                    self.state = OtaProducerState::Download;
                    Ok(GatewayPacket::OtaInitAck)
                } else {
                    Err(OtaError::InvalidPacketType)
                }
            },
            OtaPacket::Status(status) => {
                if self.state != OtaProducerState::Init {
                    Ok(self.process_status(status))
                } else {
                    Err(OtaError::InvalidPacketType)
                }
            },
            OtaPacket::DoneAck => {
                self.state = OtaProducerState::Done;
                Ok(GatewayPacket::OtaDoneAck)
            },
            OtaPacket::AbortAck => {
                self.state = OtaProducerState::Done;
                Ok(GatewayPacket::OtaAbortAck)
            },
        }
    }

    /// Takes what the codec made of a frame's payload: a payload that is no
    /// packet is answered with `Deserialize`, a packet goes to
    /// `process_response`.
    pub fn process_response_raw(&mut self, decoded: Result<OtaPacket, OtaError>) -> (r: Result<
        GatewayPacket,
        OtaError,
    >)
        requires
            old(self)@.inv(),
        ensures
            final(self)@ == old(self)@.after_exchange(outcome_view(decoded)),
            final(self)@.inv(),
            answer_view(r) == (match decoded {
                Ok(packet) => old(self)@.answer(packet@),
                Err(_) => Err(OtaError::Deserialize),
            }),
    {
        match decoded {
            Ok(packet) => self.process_response(packet),
            Err(_) => Err(OtaError::Deserialize),
        }
    }

    /// The handshake to send, transactionally: `Init` with the session
    /// parameters. Refused with `AlreadyStarted` while a session is under
    /// way.
    pub fn prepare_init(&self) -> (r: Result<Outgoing, OtaError>)
        ensures
            request_view(r) == (if self@.state == OtaProducerState::Download {
                Err(OtaError::AlreadyStarted)
            } else {
                Ok(
                    OutgoingView {
                        destination: self@.destination_address,
                        packet: OtaPacketView::Init(self@.params),
                    },
                )
            }),
    {
        if self.state == OtaProducerState::Download {
            Err(OtaError::AlreadyStarted)
        } else {
            Ok(
                Outgoing {
                    destination: self.destination_address,
                    packet: OtaPacket::Init(self.params),
                },
            )
        }
    }

    /// Takes the outcome of the handshake. An `InitAck` opens the session
    /// with clean bookkeeping; any other packet is processed as a response;
    /// an error is handed on and changes nothing.
    pub fn init_download(&mut self, outcome: Result<OtaPacket, OtaError>) -> (r: Result<
        GatewayPacket,
        OtaError,
    >)
        requires
            old(self)@.inv(),
        ensures
            final(self)@ == old(self)@.after_init(outcome_view(outcome)),
            final(self)@.inv(),
            answer_view(r) == old(self)@.init_answer(outcome_view(outcome)),
    {
        let resp = match outcome {
            Ok(packet) => packet,
            Err(e) => {
                return Err(e);
            },
        };
        if self.state == OtaProducerState::Download {
            return Err(OtaError::AlreadyStarted);
        }
        match resp {
            OtaPacket::InitAck => {
                self.state = OtaProducerState::Download;
                pending_clear(&mut self.not_acked_indexes);
                self.highest_sent_index = 0;
                self.last_acked_index = 0;
                Ok(GatewayPacket::OtaInitAck)
            },
            other => self.process_response(other),
        }
    }

    /// The block to send, once. Refused with `NotStarted` outside a session,
    /// and with `TooManyOutstanding` where the block would be the 129th that
    /// is unconfirmed.
    pub fn prepare_data(&self, data: OtaDataPacket) -> (r: Result<Outgoing, OtaError>)
        ensures
            request_view(r) == (match self@.refusal(data.index) {
                Some(e) => Err(e),
                None => Ok(
                    OutgoingView {
                        destination: self@.destination_address,
                        packet: OtaPacketView::Data(data@),
                    },
                ),
            }),
    {
        if self.state != OtaProducerState::Download {
            return Err(OtaError::NotStarted);
        }
        let pending = pending_slice(&self.not_acked_indexes);
        if !contains(pending, data.index) && pending.len() >= 128 {
            return Err(OtaError::TooManyOutstanding);
        }
        Ok(Outgoing { destination: self.destination_address, packet: OtaPacket::Data(data) })
    }

    /// Takes the outcome of sending block `index`. A block that went out is
    /// entered among the unconfirmed ones; a failed transmission is handed
    /// on and changes nothing, and so does a block that `prepare_data` would
    /// have refused.
    pub fn continue_download(&mut self, index: u16, outcome: Result<(), OtaError>) -> (r: Result<
        (),
        OtaError,
    >)
        requires
            old(self)@.inv(),
        ensures
            final(self)@.inv(),
            r == (match outcome {
                Err(e) => Err::<(), OtaError>(e),
                Ok(_) => match old(self)@.refusal(index) {
                    Some(e) => Err::<(), OtaError>(e),
                    None => Ok::<(), OtaError>(()),
                },
            }),
            final(self)@ == (if r is Ok {
                old(self)@.sent(index)
            } else {
                old(self)@
            }),
    {
        if let Err(e) = outcome {
            return Err(e);
        }
        if self.state != OtaProducerState::Download {
            return Err(OtaError::NotStarted);
        }
        if !contains(pending_slice(&self.not_acked_indexes), index) {
            if pending_push(&mut self.not_acked_indexes, index).is_some() {
                return Err(OtaError::TooManyOutstanding);
            }
            proof {
                let before = old(self)@.not_acked;
                let after = self@.not_acked;
                assert forall|i: int, j: int|
                    0 <= i < after.len() && 0 <= j < after.len() && i != j implies after[i]
                    != after[j] by {
                    if i < before.len() {
                        assert(after[i] == before[i]);
                    }
                    if j < before.len() {
                        assert(after[j] == before[j]);
                    }
                }
            }
        }
        if index > self.highest_sent_index {
            self.highest_sent_index = index;
        }
        Ok(())
    }

    /// The request to send, transactionally, when the host is through.
    pub fn prepare_done(&self) -> (r: Outgoing)
        ensures
            r@ == (OutgoingView {
                destination: self@.destination_address,
                packet: OtaPacketView::Done,
            }),
    {
        Outgoing { destination: self.destination_address, packet: OtaPacket::Done }
    }

    /// Takes the outcome of the `Done` exchange: the answer is processed as
    /// a response, so that a status report in place of the `DoneAck` retires
    /// what it confirms; an error is handed on and changes nothing.
    pub fn done_download(&mut self, outcome: Result<OtaPacket, OtaError>) -> (r: Result<
        GatewayPacket,
        OtaError,
    >)
        requires
            old(self)@.inv(),
        ensures
            final(self)@ == old(self)@.after_exchange(outcome_view(outcome)),
            final(self)@.inv(),
            answer_view(r) == old(self)@.exchange_answer(outcome_view(outcome)),
    {
        match outcome {
            Ok(resp) => self.process_response(resp),
            Err(e) => Err(e),
        }
    }

    /// The request to send, transactionally, to give the session up.
    pub fn prepare_abort(&self) -> (r: Outgoing)
        ensures
            r@ == (OutgoingView {
                destination: self@.destination_address,
                packet: OtaPacketView::Abort,
            }),
    {
        Outgoing { destination: self.destination_address, packet: OtaPacket::Abort }
    }

    /// Takes the outcome of the `Abort` exchange: the answer is processed as
    /// a response; an error is handed on and changes nothing.
    pub fn abort_download(&mut self, outcome: Result<OtaPacket, OtaError>) -> (r: Result<
        GatewayPacket,
        OtaError,
    >)
        requires
            old(self)@.inv(),
        ensures
            final(self)@ == old(self)@.after_exchange(outcome_view(outcome)),
            final(self)@.inv(),
            answer_view(r) == old(self)@.exchange_answer(outcome_view(outcome)),
    {
        match outcome {
            Ok(resp) => self.process_response(resp),
            Err(e) => Err(e),
        }
    }
}

} // verus!
