//! Finished command buffers, encoders, and the capability-tagged command buffers.

use std::marker::PhantomData;
use std::ops::{Deref, DerefMut};
use vstd::prelude::*;
use crate::Backend;
use crate::capability::{Capability, General, Graphics, Compute, Transfer};

verus! {

/// Base trait for all command buffers.
pub trait CommandBuffer<B: Backend> {
    /// The submission info that finishing the recording of this buffer
    /// yields, as a function of the buffer's state: what `end` returns.
    spec fn submit_info(&self) -> B::SubmitInfo;

    /// Finishes recording and hands out the submission info.
    fn end(&mut self) -> (info: B::SubmitInfo)
        ensures
            info == old(self).submit_info(),
    ;
}

/// Thread-safe finished command buffer for submission.
pub struct Submit<B: Backend, C>(B::SubmitInfo, PhantomData<C>);

impl<B: Backend, C> Submit<B, C> {
    /// The submission info held.
    pub closed spec fn info(&self) -> B::SubmitInfo {
        self.0
    }

    /// Borrows the submission info.
    pub fn get_info(&self) -> (info: &B::SubmitInfo)
        ensures
            *info == self.info(),
    {
        &self.0
    }

    /// Gives up the submission info.
    pub fn into_info(self) -> (info: B::SubmitInfo)
        ensures
            info == self.info(),
    {
        self.0
    }
}

/// Encoder for a command buffer.
///
/// Pools always hand out an encoder to provide a safe interface.
#[derive(Debug)]
pub struct Encoder<B, C>(C, PhantomData<B>);

impl<B, C> Encoder<B, C> {
    /// The command buffer being recorded.
    pub closed spec fn buffer(&self) -> C {
        self.0
    }
}

impl<B, C> Deref for Encoder<B, C> {
    type Target = C;

    fn deref(&self) -> (buffer: &C)
        ensures
            *buffer == self.buffer(),
    {
        &self.0
    }
}

impl<B, C> DerefMut for Encoder<B, C> {
    fn deref_mut(&mut self) -> (buffer: &mut C)
        ensures
            *buffer == old(self).buffer(),
            final(self).buffer() == *final(buffer),
    {
        &mut self.0
    }
}

impl<B: Backend, C: CommandBuffer<B> + Capability> Encoder<B, C> {
    /// Wraps a command buffer for recording.
    pub fn new(buffer: C) -> (encoder: Self)
        ensures
            encoder.buffer() == buffer,
    {
        Encoder(buffer, PhantomData)
    }

    /// Finish recording commands to the command buffer.
    ///
    /// The command buffer is consumed and can't be modified further.
    pub fn finish(self) -> (submit: Submit<B, C::Capability>)
        ensures
            submit.info() == self.buffer().submit_info(),
    {
        let mut buffer = self.0;
        Submit(buffer.end(), PhantomData)
    }
}

/// Command buffer with graphics, compute and transfer functionality.
pub struct GeneralCommandBuffer<'a, B: Backend>(pub(crate) &'a mut B::RawCommandBuffer);

impl<'a, B: Backend> GeneralCommandBuffer<'a, B> {
    /// The backend command buffer that this one records into.
    pub closed spec fn raw(&self) -> B::RawCommandBuffer {
        *self.0
    }
}

impl<'a, B: Backend> CommandBuffer<B> for GeneralCommandBuffer<'a, B> where
    B::RawCommandBuffer: CommandBuffer<B>,
 {
    closed spec fn submit_info(&self) -> B::SubmitInfo {
        (*self.0).submit_info()
    }

    fn end(&mut self) -> (info: B::SubmitInfo)
        ensures
            info == old(self).raw().submit_info(),
    {
        self.0.end()
    }
}

impl<'a, B: Backend> Capability for GeneralCommandBuffer<'a, B> {
    type Capability = General;
}

impl<'a, B: Backend> Deref for GeneralCommandBuffer<'a, B> {
    type Target = B::RawCommandBuffer;

    fn deref(&self) -> (raw: &B::RawCommandBuffer)
        ensures
            *raw == self.raw(),
    {
        &*self.0
    }
}

impl<'a, B: Backend> DerefMut for GeneralCommandBuffer<'a, B> {
    fn deref_mut(&mut self) -> (raw: &mut B::RawCommandBuffer)
        ensures
            *raw == old(self).raw(),
            final(self).raw() == *final(raw),
    {
        &mut *self.0
    }
}

/// Command buffer with graphics and transfer functionality.
pub struct GraphicsCommandBuffer<'a, B: Backend>(pub(crate) &'a mut B::RawCommandBuffer);

impl<'a, B: Backend> GraphicsCommandBuffer<'a, B> {
    /// The backend command buffer that this one records into.
    pub closed spec fn raw(&self) -> B::RawCommandBuffer {
        *self.0
    }
}

impl<'a, B: Backend> CommandBuffer<B> for GraphicsCommandBuffer<'a, B> where
    B::RawCommandBuffer: CommandBuffer<B>,
 {
    closed spec fn submit_info(&self) -> B::SubmitInfo {
        (*self.0).submit_info()
    }

    fn end(&mut self) -> (info: B::SubmitInfo)
        ensures
            info == old(self).raw().submit_info(),
    {
        self.0.end()
    }
}

impl<'a, B: Backend> Capability for GraphicsCommandBuffer<'a, B> {
    type Capability = Graphics;
}

impl<'a, B: Backend> Deref for GraphicsCommandBuffer<'a, B> {
    type Target = B::RawCommandBuffer;

    fn deref(&self) -> (raw: &B::RawCommandBuffer)
        ensures
            *raw == self.raw(),
    {
        &*self.0
    }
}

impl<'a, B: Backend> DerefMut for GraphicsCommandBuffer<'a, B> {
    fn deref_mut(&mut self) -> (raw: &mut B::RawCommandBuffer)
        ensures
            *raw == old(self).raw(),
            final(self).raw() == *final(raw),
    {
        &mut *self.0
    }
}

/// Command buffer with compute and transfer functionality.
pub struct ComputeCommandBuffer<'a, B: Backend>(pub(crate) &'a mut B::RawCommandBuffer);

impl<'a, B: Backend> ComputeCommandBuffer<'a, B> {
    /// The backend command buffer that this one records into.
    pub closed spec fn raw(&self) -> B::RawCommandBuffer {
        *self.0
    }
}

impl<'a, B: Backend> CommandBuffer<B> for ComputeCommandBuffer<'a, B> where
    B::RawCommandBuffer: CommandBuffer<B>,
 {
    closed spec fn submit_info(&self) -> B::SubmitInfo {
        (*self.0).submit_info()
    }

    fn end(&mut self) -> (info: B::SubmitInfo)
        ensures
            info == old(self).raw().submit_info(),
    {
        self.0.end()
    }
}

impl<'a, B: Backend> Capability for ComputeCommandBuffer<'a, B> {
    type Capability = Compute;
}

/// Command buffer with transfer functionality.
pub struct TransferCommandBuffer<'a, B: Backend>(pub(crate) &'a mut B::RawCommandBuffer);

impl<'a, B: Backend> TransferCommandBuffer<'a, B> {
    /// The backend command buffer that this one records into.
    pub closed spec fn raw(&self) -> B::RawCommandBuffer {
        *self.0
    }
}

impl<'a, B: Backend> CommandBuffer<B> for TransferCommandBuffer<'a, B> where
    B::RawCommandBuffer: CommandBuffer<B>,
 {
    closed spec fn submit_info(&self) -> B::SubmitInfo {
        (*self.0).submit_info()
    }

    fn end(&mut self) -> (info: B::SubmitInfo)
        ensures
            info == old(self).raw().submit_info(),
    {
        self.0.end()
    }
}

impl<'a, B: Backend> Capability for TransferCommandBuffer<'a, B> {
    type Capability = Transfer;
}

} // verus!
