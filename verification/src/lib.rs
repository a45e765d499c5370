//! Verified core of a small ray-tracing renderer: homogeneous tuples,
//! colours, a pixel canvas and the packing of a canvas into a displayable
//! framebuffer.
//!
//! Components and colour channels are IEEE 754 binary64 values. They are
//! carried as their 64-bit patterns, so that every operation of this crate
//! is integer arithmetic with a proved contract.

pub mod binary64;
pub mod canvas;
pub mod channel;
pub mod color;
pub mod tuple;
