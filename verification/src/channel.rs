//! The transport a CP or PD talks through. OSDP runs over a stream link
//! (RS-485, a socket, an in-memory buffer); the engine only needs something
//! it can read bytes from and write bytes to without blocking, identified by
//! an integer id unique among channels multiplexed on one bus.

use vstd::prelude::*;

verus! {

/// OSDP channel errors.
#[derive(Clone, Copy, Debug, PartialEq, Eq, Structural)]
pub enum ChannelError {
    /// Channel is temporarily unavailable: it would have had to block to
    /// make progress. Never fatal; the engine simply tries again on the
    /// next refresh.
    WouldBlock,
    /// Channel failed irrecoverably.
    TransportError,
}

/// Interface every channel implementor provides. The engine requires the
/// non-blocking contract: an operation that cannot make progress returns
/// `ChannelError::WouldBlock` rather than waiting.
pub trait Channel {
    /// A unique id for this channel, distinguishing channels that may be
    /// multiplexed on a shared multi-drop bus.
    fn get_id(&self) -> i32;

    /// Pull at most `max_len` pending bytes from the channel. An empty
    /// vector means nothing was pending.
    fn read(&mut self, max_len: usize) -> (r: Result<Vec<u8>, ChannelError>)
        ensures
            r matches Ok(v) ==> v@.len() <= max_len,
    ;

    /// Write a buffer into the channel, returning how many bytes were
    /// accepted.
    fn write(&mut self, buf: &[u8]) -> (r: Result<usize, ChannelError>)
        ensures
            r matches Ok(n) ==> n <= buf@.len(),
    ;

    /// Flush the output, so buffered bytes reach their destination.
    fn flush(&mut self) -> Result<(), ChannelError>;
}

} // verus!
