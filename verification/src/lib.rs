//! Pipe raw RGB pixel streams to LED strips, matrices and network protocols.
//!
//! The crate assembles whole frames from byte streams, applies per-pixel
//! transformations (dimming, color correction, geometric remapping) and
//! serializes frames into the exact wire bytes of several LED chipsets and
//! network protocols. All frame handling and wire formats are verified; the
//! host I/O that carries the bytes lives outside this crate.

pub mod color;
pub mod device;
pub mod driver;
pub mod geometry;
pub mod gpio;
pub mod pipeline;
pub mod select;
pub mod transpose;

use vstd::prelude::*;

verus! {

/// An error carrying a plain message, the crate's error for configuration
/// faults.
#[derive(Debug)]
pub struct GenericError {
    msg: String,
}

impl GenericError {
    /// The message carried by the error.
    pub closed spec fn spec_msg(&self) -> Seq<char> {
        self.msg@
    }

    /// Wrap a message.
    pub fn new(msg: &str) -> (e: GenericError)
        ensures
            e.spec_msg() == msg@,
    {
        GenericError { msg: msg.to_owned() }
    }

    /// Read the message back.
    pub fn message(&self) -> (m: &str)
        ensures
            m@ == self.spec_msg(),
    {
        self.msg.as_str()
    }
}

} // verus!
