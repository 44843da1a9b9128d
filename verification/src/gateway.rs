//! The gateway's dispatcher: it turns the host's commands into work for the
//! producer, and the consumer's packets into reports for the host.
//!
//! A command that needs the radio is answered with a step: the packet to
//! send and how. The caller sends it and hands the outcome to the function
//! that the step names.

use crate::bounded::pending_new;
use crate::gateway_host_schema::{
    GatewayPacket,
    GatewayPacketView,
    HostPacket,
    HostPacketView,
    OtaStatus,
    OtaStatusView,
};
use crate::ota::common::{
    OtaDataPacket,
    OtaError,
    OtaInitPacket,
    OtaPacket,
    OtaPacketView,
    Outgoing,
    OutgoingView,
};
use crate::ota::producer::{
    outcome_view,
    OtaProducer,
    OtaProducerState,
    ProducerState,
};
use vstd::prelude::*;

verus! {

/// Why the gateway could not do what it was asked.
#[derive(Debug, Clone, Copy, PartialEq, Eq, Structural)]
pub enum GatewayError {
    Ota(OtaError),
}

/// The gateway: at most one session with one node.
pub struct Gateway {
    ota: Option<OtaProducer>,
}

/// What a command of the host leads to.
pub enum GatewayStep {
    /// Nothing goes on the air; this is for the host, if it is anything.
    Reply(Option<GatewayPacket>),
    /// Send the packet transactionally and hand the new producer and the
    /// outcome to `init_download`.
    Init(OtaProducer, Outgoing),
    /// Send the packet once and hand the block's index and the outcome to
    /// `continue_download`.
    Data(u16, Outgoing),
    /// Send the packet transactionally and hand the outcome to
    /// `done_download`.
    Done(Outgoing),
    /// Send the packet transactionally and hand the outcome to
    /// `abort_download`.
    Abort(Outgoing),
}

/// A step as a mathematical value.
pub enum GatewayStepView {
    Reply(Option<GatewayPacketView>),
    Init(ProducerState, OutgoingView),
    Data(u16, OutgoingView),
    Done(OutgoingView),
    Abort(OutgoingView),
}

impl View for GatewayStep {
    type V = GatewayStepView;

    open spec fn view(&self) -> GatewayStepView {
        match self {
            GatewayStep::Reply(None) => GatewayStepView::Reply(None),
            GatewayStep::Reply(Some(packet)) => GatewayStepView::Reply(Some(packet@)),
            GatewayStep::Init(producer, outgoing) => GatewayStepView::Init(producer@, outgoing@),
            GatewayStep::Data(index, outgoing) => GatewayStepView::Data(*index, outgoing@),
            GatewayStep::Done(outgoing) => GatewayStepView::Done(outgoing@),
            GatewayStep::Abort(outgoing) => GatewayStepView::Abort(outgoing@),
        }
    }
}

/// The view of what `process_host_message` returns.
pub open spec fn step_view(r: Result<GatewayStep, GatewayError>) -> Result<GatewayStepView, GatewayError> {
    match r {
        Ok(step) => Ok(step@),
        Err(e) => Err(e),
    }
}

/// The view of a report for the host, or of none.
pub open spec fn report_view(r: Result<Option<GatewayPacket>, GatewayError>) -> Result<
    Option<GatewayPacketView>,
    GatewayError,
> {
    match r {
        Ok(Some(packet)) => Ok(Some(packet@)),
        Ok(None) => Ok(None),
        Err(e) => Err(e),
    }
}

/// A producer's answer as the gateway hands it on.
pub open spec fn lifted(r: Result<GatewayPacketView, OtaError>) -> Result<
    Option<GatewayPacketView>,
    GatewayError,
> {
    match r {
        Ok(packet) => Ok(Some(packet)),
        Err(e) => Err(GatewayError::Ota(e)),
    }
}

/// The snapshot that the host gets where there is no session.
pub open spec fn idle_status() -> OtaStatusView {
    OtaStatusView { in_progress: false, not_acked: Seq::<u16>::empty(), last_acked: 0 }
}

/// What a command of the host leads to, given the session that the gateway
/// holds, if it holds one.
pub open spec fn host_step(session: Option<ProducerState>, packet: HostPacketView) -> Result<
    GatewayStepView,
    GatewayError,
> {
    match packet {
        HostPacketView::PingRequest => Ok(
            GatewayStepView::Reply(Some(GatewayPacketView::PingResponse)),
        ),
        HostPacketView::OtaInit(init) => if session is Some && session->Some_0.state
            != OtaProducerState::Done {
            Err(GatewayError::Ota(OtaError::AlreadyStarted))
        } else {
            Ok(
                GatewayStepView::Init(
                    ProducerState::created(init.params(), init.destination_address),
                    OutgoingView {
                        destination: init.destination_address,
                        packet: OtaPacketView::Init(init.params()),
                    },
                ),
            )
        },
        HostPacketView::OtaData(data) => match session {
            None => Err(GatewayError::Ota(OtaError::NotStarted)),
            Some(producer) => match producer.refusal(data.index) {
                Some(e) => Err(GatewayError::Ota(e)),
                None => Ok(
                    GatewayStepView::Data(
                        data.index,
                        OutgoingView {
                            destination: producer.destination_address,
                            packet: OtaPacketView::Data(data),
                        },
                    ),
                ),
            },
        },
        HostPacketView::OtaDoneRequest => match session {
            None => Ok(GatewayStepView::Reply(Some(GatewayPacketView::OtaDoneAck))),
            Some(producer) => Ok(
                GatewayStepView::Done(
                    OutgoingView {
                        destination: producer.destination_address,
                        packet: OtaPacketView::Done,
                    },
                ),
            ),
        },
        HostPacketView::OtaAbortRequest => match session {
            None => Ok(GatewayStepView::Reply(Some(GatewayPacketView::OtaAbortAck))),
            Some(producer) => Ok(
                GatewayStepView::Abort(
                    OutgoingView {
                        destination: producer.destination_address,
                        packet: OtaPacketView::Abort,
                    },
                ),
            ),
        },
        HostPacketView::OtaGetStatus => match session {
            None => Ok(
                GatewayStepView::Reply(Some(GatewayPacketView::OtaStatus(idle_status()))),
            ),
            Some(producer) => Ok(
                GatewayStepView::Reply(Some(GatewayPacketView::OtaStatus(producer.status()))),
            ),
        },
    }
}

impl View for Gateway {
    type V = Option<ProducerState>;

    closed spec fn view(&self) -> Option<ProducerState> {
        match self.ota {
            Some(producer) => Some(producer@),
            None => None,
        }
    }
}

impl Gateway {
    /// The session's bookkeeping is sound, where there is a session.
    pub open spec fn inv(&self) -> bool {
        self@ is Some ==> self@->Some_0.inv()
    }

    /// A gateway without a session.
    pub fn new() -> (gateway: Gateway)
        ensures
            gateway@ is None,
            gateway.inv(),
    {
        Gateway { ota: None }
    }

    /// Takes a command of the host and says what it leads to. A new session
    /// is refused with `AlreadyStarted` while one is under way, and a block
    /// with `NotStarted` while none is.
    pub fn process_host_message(&self, packet: HostPacket) -> (r: Result<GatewayStep, GatewayError>)
        requires
            self.inv(),
        ensures
            step_view(r) == host_step(self@, packet@),
            r is Ok && r->Ok_0 is Init ==> r->Ok_0->Init_0@.inv(),
    {
        match packet {
            HostPacket::PingRequest => Ok(GatewayStep::Reply(Some(GatewayPacket::PingResponse))),
            HostPacket::OtaInit(init) => {
                let busy = match &self.ota {
                    Some(ota) => !ota.is_done(),
                    None => false,
                };
                if busy {
                    return Err(GatewayError::Ota(OtaError::AlreadyStarted));
                }
                let ota = OtaProducer::new(
                    OtaInitPacket {
                        binary_size: init.binary_size,
                        block_size: init.block_size,
                        block_count: init.block_count,
                        binary_sha256: init.binary_sha256,
                    },
                    init.destination_address,
                );
                match ota.prepare_init() {
                    Ok(outgoing) => Ok(GatewayStep::Init(ota, outgoing)),
                    Err(e) => Err(GatewayError::Ota(e)),
                }
            },
            HostPacket::OtaData(data) => {
                match &self.ota {
                    Some(ota) => {
                        let index = data.index;
                        match ota.prepare_data(OtaDataPacket { index: data.index, data: data.data }) {
                            Ok(outgoing) => Ok(GatewayStep::Data(index, outgoing)),
                            Err(e) => Err(GatewayError::Ota(e)),
                        }
                    },
                    None => Err(GatewayError::Ota(OtaError::NotStarted)),
                }
            },
            HostPacket::OtaDoneRequest => {
                match &self.ota {
                    Some(ota) => Ok(GatewayStep::Done(ota.prepare_done())),
                    None => Ok(GatewayStep::Reply(Some(GatewayPacket::OtaDoneAck))),
                }
            },
            HostPacket::OtaAbortRequest => {
                match &self.ota {
                    Some(ota) => Ok(GatewayStep::Abort(ota.prepare_abort())),
                    None => Ok(GatewayStep::Reply(Some(GatewayPacket::OtaAbortAck))),
                }
            },
            HostPacket::OtaGetStatus => {
                let status = match &self.ota {
                    Some(ota) => ota.get_status(),
                    None => OtaStatus {
                        in_progress: false,
                        not_acked: pending_new(),
                        last_acked: 0,
                    },
                };
                Ok(GatewayStep::Reply(Some(GatewayPacket::OtaStatus(status))))
            },
        }
    }

    /// Takes the outcome of the handshake of a new session. The new producer
    /// takes the place of the old one where the handshake gave it something
    /// to report; where it failed, the gateway stays as it was.
    pub fn init_download(&mut self, candidate: OtaProducer, outcome: Result<OtaPacket, OtaError>)
        -> (r: Result<Option<GatewayPacket>, GatewayError>)
        requires
            old(self).inv(),
            candidate@.inv(),
        ensures
            final(self).inv(),
            report_view(r) == lifted(candidate@.init_answer(outcome_view(outcome))),
            final(self)@ == (if r is Ok {
                Some(candidate@.after_init(outcome_view(outcome)))
            } else {
                old(self)@
            }),
    {
        let mut ota = candidate;
        match ota.init_download(outcome) {
            Ok(ret) => {
                self.ota = Some(ota);
                Ok(Some(ret))
            },
            Err(e) => Err(GatewayError::Ota(e)),
        }
    }

    /// Takes the outcome of sending block `index`; the host gets no report.
    pub fn continue_download(&mut self, index: u16, outcome: Result<(), OtaError>) -> (r: Result<
        Option<GatewayPacket>,
        GatewayError,
    >)
        requires
            old(self).inv(),
        ensures
            final(self).inv(),
            match old(self)@ {
                None => r == Err::<Option<GatewayPacket>, GatewayError>(
                    GatewayError::Ota(OtaError::NotStarted),
                )
                    && final(self)@ is None,
                Some(producer) => match outcome {
                    Err(e) => r == Err::<Option<GatewayPacket>, GatewayError>(
                        GatewayError::Ota(e),
                    ) && final(self)@ == old(self)@,
                    Ok(_) => match producer.refusal(index) {
                        Some(e) => r == Err::<Option<GatewayPacket>, GatewayError>(GatewayError::Ota(e))
                            && final(self)@ == old(self)@,
                        None => r == Ok::<Option<GatewayPacket>, GatewayError>(None) && final(self)@
                            == Some(producer.sent(index)),
                    },
                },
            },
    {
        match self.ota.as_mut() {
            Some(ota) => match ota.continue_download(index, outcome) {
                Ok(_) => Ok(None),
                Err(e) => Err(GatewayError::Ota(e)),
            },
            None => Err(GatewayError::Ota(OtaError::NotStarted)),
        }
    }

    /// Takes the outcome of the `Done` exchange.
    pub fn done_download(&mut self, outcome: Result<OtaPacket, OtaError>) -> (r: Result<
        Option<GatewayPacket>,
        GatewayError,
    >)
        requires
            old(self).inv(),
        ensures
            final(self).inv(),
            match old(self)@ {
                None => report_view(r) == Ok::<Option<GatewayPacketView>, GatewayError>(
                    Some(GatewayPacketView::OtaDoneAck),
                ) && final(self)@ is None,
                Some(producer) => report_view(r) == lifted(
                    producer.exchange_answer(outcome_view(outcome)),
                ) && final(self)@ == Some(producer.after_exchange(outcome_view(outcome))),
            },
    {
        match self.ota.as_mut() {
            Some(ota) => match ota.done_download(outcome) {
                Ok(ret) => Ok(Some(ret)),
                Err(e) => Err(GatewayError::Ota(e)),
            },
            None => Ok(Some(GatewayPacket::OtaDoneAck)),
        }
    }

    /// Takes the outcome of the `Abort` exchange.
    pub fn abort_download(&mut self, outcome: Result<OtaPacket, OtaError>) -> (r: Result<
        Option<GatewayPacket>,
        GatewayError,
    >)
        requires
            old(self).inv(),
        ensures
            final(self).inv(),
            match old(self)@ {
                None => report_view(r) == Ok::<Option<GatewayPacketView>, GatewayError>(
                    Some(GatewayPacketView::OtaAbortAck),
                ) && final(self)@ is None,
                Some(producer) => report_view(r) == lifted(
                    producer.exchange_answer(outcome_view(outcome)),
                ) && final(self)@ == Some(producer.after_exchange(outcome_view(outcome))),
            },
    {
        match self.ota.as_mut() {
            Some(ota) => match ota.abort_download(outcome) {
                Ok(ret) => Ok(Some(ret)),
                Err(e) => Err(GatewayError::Ota(e)),
            },
            None => Ok(Some(GatewayPacket::OtaAbortAck)),
        }
    }

    /// Takes what the codec made of a frame from the consumer. Without a
    /// session the frame is dropped and the host gets no report.
    pub fn process_peer_message(&mut self, decoded: Result<OtaPacket, OtaError>) -> (r: Result<
        Option<GatewayPacket>,
        GatewayError,
    >)
        requires
            old(self).inv(),
        ensures
            final(self).inv(),
            match old(self)@ {
                None => r == Ok::<Option<GatewayPacket>, GatewayError>(None) && final(self)@ is None,
                Some(producer) => final(self)@ == Some(
                    producer.after_exchange(outcome_view(decoded)),
                ) && report_view(r) == (match decoded {
                    Ok(packet) => lifted(producer.answer(packet@)),
                    Err(_) => Err(GatewayError::Ota(OtaError::Deserialize)),
                }),
            },
    {
        match self.ota.as_mut() {
            Some(ota) => match ota.process_response_raw(decoded) {
                Ok(ret) => Ok(Some(ret)),
                Err(e) => Err(GatewayError::Ota(e)),
            },
            None => Ok(None),
        }
    }
}

} // verus!
