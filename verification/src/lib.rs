//! Wire protocol shared by the enamel thread view and its web extension.
//!
//! Messages travel over a byte stream as frames: an unsigned 64-bit length in
//! big-endian order, followed by that many bytes of encoded message.  This
//! crate holds the message types, the frame format with its proofs, and the
//! error type that the stream readers and writers report.
pub mod frame;
pub mod protocol;
pub mod webext;

