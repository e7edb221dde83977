//! Drain a suspend-capable byte source into a growable buffer until
//! end-of-stream.
//!
//! The operation repeatedly exposes the buffer's spare capacity to the
//! source, commits whatever the source reports as read, and grows the
//! buffer adaptively (doubling, starting from a small increment) when the
//! spare capacity runs out.  Progress lives entirely in the buffer's
//! committed length, so the operation can be suspended and resumed by an
//! external scheduler without saving any call-stack state.

pub mod buffer;
pub mod drain;
pub mod read_to_end;
pub mod scripted;
pub mod source;
