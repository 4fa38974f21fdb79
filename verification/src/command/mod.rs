//! Command buffer device interface.

pub mod access;
pub mod buffer;
pub mod clear;

pub use self::access::{
    AccessGuard, AccessGuardBuffers, AccessGuardBuffersChain, AccessInfo,
};
pub use self::buffer::{
    CommandBuffer, ComputeCommandBuffer, Encoder, GeneralCommandBuffer, GraphicsCommandBuffer, Submit,
    TransferCommandBuffer,
};
pub use self::clear::ClearColor;
