use vstd::prelude::*;
use crate::buffer::{Buffer, FillError, buffer_create_calls};
use crate::call::{BufferInfo, CallView, Handle, Location};
use crate::codes;
use crate::context::Context;
use crate::ledger::{Kind, fresh, unchanged_within};

verus! {

/// The buffer through which the host hands the shaders their inputs of a frame.
#[derive(Debug, PartialEq, Eq)]
pub struct Uniforms {
    pub buffer: Buffer,
}

/// What a uniform buffer of `size` bytes is created with: use as a
/// uniform buffer (0x10), by one queue family (sharing mode 0).
pub open spec fn uniforms_info(size: u64) -> BufferInfo {
    BufferInfo { size, usage: 0x10, sharing_mode: 0 }
}

impl Uniforms {
    /// The buffer is live in `ctx` and the host can write to it.
    pub open spec fn wf(&self, ctx: Context) -> bool {
        &&& self.buffer.wf(ctx)
        &&& self.buffer.location.host_visible()
    }

    /// The buffer spans handles from `lo` up to, but not including, `hi`.
    pub open spec fn spans(&self, lo: int, hi: int) -> bool {
        self.buffer.spans(lo, hi)
    }

    /// A uniform buffer that is well-formed stays so while the entries of what
    /// it owns are unchanged.
    pub proof fn lemma_kept(&self, then: Context, now: Context, lo: int, hi: int)
        requires
            self.wf(then),
            self.spans(lo, hi),
            unchanged_within(now.objects(), then.objects(), lo, hi),
        ensures
            self.wf(now),
    {
    }

    /// Whether the buffer is live in `ctx` and the host can write to it.
    pub fn is_wf(&self, ctx: &Context) -> (ok: bool)
        ensures
            ok == self.wf(*ctx),
    {
        self.buffer.is_wf(ctx) && self.buffer.location.host_visible()
    }

    /// Creates a host-visible uniform buffer of `size` bytes.
    pub fn create(ctx: &mut Context, size: u64) -> (u: Uniforms)
        ensures
            u.buffer == (Buffer {
                buffer: old(ctx).objects().len() as Handle,
                allocation: (old(ctx).objects().len() + 1) as Handle,
                size,
                location: Location::CpuToGpu,
            }),
            final(ctx).grows_by(
                *old(ctx),
                seq![fresh(Kind::Buffer), fresh(Kind::Memory)],
                buffer_create_calls(u.buffer.buffer, u.buffer.allocation, uniforms_info(size), Location::CpuToGpu),
            ),
            u.wf(*final(ctx)),
    {
        let buffer_info = BufferInfo {
            size,
            usage: codes::buffer_usage_uniform(),
            sharing_mode: codes::sharing_exclusive(),
        };
        let buffer = Buffer::create(ctx, buffer_info, Location::CpuToGpu);
        Uniforms { buffer }
    }

    /// Writes `uniforms`, the bytes of the shaders' inputs, to the
    /// start of the buffer. More bytes than the buffer holds are refused.
    pub fn update(&mut self, ctx: &mut Context, uniforms: &[u8]) -> (r: Result<(), FillError>)
        requires
            old(self).wf(*old(ctx)),
        ensures
            *final(self) == *old(self),
            uniforms@.len() <= old(self).buffer.size ==> r is Ok,
            uniforms@.len() > old(self).buffer.size ==> r == Err::<(), FillError>(FillError::TooLarge),
            r is Err ==> *final(ctx) == *old(ctx),
            r is Ok ==> final(ctx).requests(
                *old(ctx),
                seq![CallView::WriteMemory { memory: old(self).buffer.allocation, data: uniforms@ }],
            ),
    {
        self.buffer.fill_with_bytes(ctx, uniforms)
    }

    /// Destroys the buffer. The uniforms are given up with the call.
    pub fn destroy_with(self, ctx: &mut Context)
        requires
            self.wf(*old(ctx)),
        ensures
            final(ctx).retires(*old(ctx), self.buffer.handles(), self.buffer.destroy_calls()),
            !self.wf(*final(ctx)),
    {
        self.buffer.destroy_with(ctx);
    }
}

} // verus!
