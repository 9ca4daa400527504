//! A dispatcher for ISO 7816-4 APDUs: parses raw commands, reassembles command
//! chains, routes SELECT to registered applications, forwards other commands to
//! the selected one, and serves long replies through GET RESPONSE windows.
pub mod apdu;
pub mod app;
pub mod dispatch;
pub mod laws;
pub mod registry;
pub mod response;
