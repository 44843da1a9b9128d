//! Maps the errors of the codec and of the radio driver to protocol errors.

use crate::ota::common::OtaError;
use vstd::prelude::*;

verus! {

/// `postcard::Error`, why the codec rejected a packet.
#[verifier::external_type_specification]
#[verifier::external_body]
pub struct ExPostcardError(postcard::Error);

/// The codec could not read a packet.
pub fn deserialize(_e: postcard::Error) -> (r: OtaError)
    ensures
        r == OtaError::Deserialize,
{
    OtaError::Deserialize
}

/// The codec could not write a packet.
pub fn serialize(_e: postcard::Error) -> (r: OtaError)
    ensures
        r == OtaError::Serialize,
{
    OtaError::Serialize
}

/// The radio refused to send.
pub fn transmit(_e: lora_phy::mod_params::RadioError) -> (r: OtaError)
    ensures
        r == OtaError::Transmit,
{
    OtaError::Transmit
}

/// The radio received nothing in the window, or reported a fault.
pub fn receive(_e: lora_phy::mod_params::RadioError) -> (r: OtaError)
    ensures
        r == OtaError::Receive,
{
    OtaError::Receive
}

} // verus!
