//! The contract between the dispatcher and the applications it routes to.
use vstd::prelude::*;
use crate::apdu::Command;

pub use iso7816::Status;

verus! {

#[verifier::external_type_specification]
#[verifier::external_body]
pub struct ExStatus(iso7816::Status);

/// The channel on which a command arrived.
#[derive(Clone, Copy, Debug, PartialEq, Eq, Structural)]
pub enum Interface {
    /// Contact card interface (CCID).
    Contact,
    /// Contactless interface (ISO 14443).
    Contactless,
}

/// What an application answers: success, or the status word of an error.
pub type Result = core::result::Result<(), Status>;

/// An application that receives APDUs at the behest of the dispatcher.
pub trait App {
    /// The application's identifier (1 to 16 bytes).
    fn aid(&self) -> Vec<u8>;

    /// Handles the SELECT command that chose this application; may write reply data.
    fn select(&mut self, interface: Interface, apdu: &Command, reply: &mut Vec<u8>) -> Result;

    /// Called when the application loses the selection: it should clear any
    /// sensitive state and reset its security indicators.
    fn deselect(&mut self);

    /// Handles a command sent while this application is selected; may write reply data.
    fn call(&mut self, interface: Interface, apdu: &Command, reply: &mut Vec<u8>) -> Result;
}

/// Relies on iso7816's `From<Status> for u16`, which gives the status word
/// that an application's error stands for.
#[verifier::external_body]
pub(crate) fn status_word(status: Status) -> (r: u16) {
    u16::from(status)
}

} // verus!
