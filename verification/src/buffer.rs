use vstd::prelude::*;
use vstd::slice::slice_to_vec;
use crate::call::{BufferInfo, Call, CallView, Handle, Location, Op};
use crate::codes;
use crate::context::Context;
use crate::ledger::{
    Kind, Object, all_within, fresh, lemma_destroyed_stays_destroyed, lemma_retire_all, lemma_retire_all_concat,
    retire_all, unchanged_within,
};
use crate::scope::{OneshotScope, Resource, lemma_scope_adopts, lemma_scope_survives_growth};

verus! {

/// Why bytes could not be written into a buffer.
#[derive(Clone, Copy, Debug, PartialEq, Eq, Structural)]
pub enum FillError {
    /// The buffer's memory is device-local: the host cannot reach it.
    NotHostVisible,
    /// There are more bytes than the buffer holds.
    TooLarge,
}

/// The address under which shaders reach a buffer, known by the buffer
/// it belongs to. The device gives it its number.
#[derive(Clone, Copy, Debug, PartialEq, Eq, Structural)]
pub struct DeviceAddress {
    pub buffer: Handle,
}

/// A buffer together with the memory that backs it.
#[derive(Debug, PartialEq, Eq)]
pub struct Buffer {
    pub buffer: Handle,
    pub allocation: Handle,
    pub size: u64,
    pub location: Location,
}

/// The requests that create a buffer, take memory for it and bind the two.
pub open spec fn buffer_create_calls(
    buffer: Handle,
    allocation: Handle,
    info: BufferInfo,
    location: Location,
) -> Seq<CallView> {
    seq![
        CallView::Op(Op::CreateBuffer { buffer, info }),
        CallView::Op(Op::AllocateBufferMemory { memory: allocation, buffer, location, linear: true }),
        CallView::Op(Op::BindBufferMemory { buffer, memory: allocation }),
    ]
}

/// `info` with the size set to `len` bytes.
pub open spec fn sized(info: BufferInfo, len: nat) -> BufferInfo {
    BufferInfo { size: len as u64, usage: info.usage, sharing_mode: info.sharing_mode }
}

/// What a staging buffer for `len` bytes is created with: a transfer
/// source (usage bit 0x1) that one queue family uses (sharing mode 0).
pub open spec fn staging_info(len: nat) -> BufferInfo {
    BufferInfo { size: len as u64, usage: 0x1, sharing_mode: 0 }
}

/// What the target of a staged upload of `len` bytes is created with:
/// `info` with the size set, and usable as a transfer target (usage bit 0x2).
pub open spec fn staged_target_info(info: BufferInfo, len: nat) -> BufferInfo {
    BufferInfo { size: len as u64, usage: info.usage | 0x2, sharing_mode: info.sharing_mode }
}

/// The staging buffer of an upload of `len` bytes whose first new handle is `first`.
pub open spec fn staging_buffer(first: Handle, len: nat) -> Buffer {
    Buffer { buffer: first, allocation: (first + 1) as Handle, size: len as u64, location: Location::CpuToGpu }
}

/// The buffer that a staged upload of `len` bytes creates, where `first`
/// is the first new handle of the upload.
pub open spec fn staged_buffer(first: Handle, len: nat) -> Buffer {
    Buffer {
        buffer: (first + 2) as Handle,
        allocation: (first + 3) as Handle,
        size: len as u64,
        location: Location::GpuOnly,
    }
}

/// The ledger entries of a staged upload: the staging buffer and its
/// memory, the target and its memory.
pub open spec fn staged_objects() -> Seq<Object> {
    seq![fresh(Kind::Buffer), fresh(Kind::Memory), fresh(Kind::Buffer), fresh(Kind::Memory)]
}

/// The requests of a staged upload of `data` whose first new handle is
/// `first`: a host-visible staging buffer that is filled with `data`,
/// the device-local target, and the copy from the one to the other,
/// recorded into `commands`.
pub open spec fn staged_upload_calls(
    commands: Handle,
    first: Handle,
    info: BufferInfo,
    data: Seq<u8>,
) -> Seq<CallView> {
    buffer_create_calls(first, (first + 1) as Handle, staging_info(data.len()), Location::CpuToGpu)
        + seq![CallView::WriteMemory { memory: (first + 1) as Handle, data }] + buffer_create_calls(
        (first + 2) as Handle,
        (first + 3) as Handle,
        staged_target_info(info, data.len()),
        Location::GpuOnly,
    ) + seq![
        CallView::Op(
            Op::CmdCopyBuffer {
                commands,
                src: first,
                dst: (first + 2) as Handle,
                size: data.len() as u64,
            },
        ),
    ]
}

impl Buffer {
    /// The ledger entries this buffer owns, in the order in which they are destroyed.
    pub open spec fn handles(&self) -> Seq<Handle> {
        seq![self.buffer, self.allocation]
    }

    /// The buffer and its memory are live in `ctx`.
    pub open spec fn wf(&self, ctx: Context) -> bool {
        &&& ctx.live(self.buffer, Kind::Buffer)
        &&& ctx.live(self.allocation, Kind::Memory)
    }

    /// Buffer and memory have handles from `lo` up to, but not including, `hi`.
    pub open spec fn spans(&self, lo: int, hi: int) -> bool {
        lo <= self.buffer < hi && lo <= self.allocation < hi
    }

    /// A buffer that is well-formed stays so while the entries of what
    /// it owns are unchanged.
    pub proof fn lemma_kept(&self, then: Context, now: Context, lo: int, hi: int)
        requires
            self.wf(then),
            self.spans(lo, hi),
            unchanged_within(now.objects(), then.objects(), lo, hi),
        ensures
            self.wf(now),
    {
    }

    /// What a buffer owns lies within the range it spans.
    pub proof fn lemma_owned_within(&self, lo: int, hi: int)
        requires
            self.spans(lo, hi),
        ensures
            all_within(self.handles(), lo, hi),
    {
    }

    /// Once a buffer is destroyed, it is well-formed in no context that
    /// comes after, whatever is created or destroyed in between: what
    /// was destroyed cannot be used, and cannot be destroyed again.
    pub proof fn lemma_destroyed_for_good(
        &self,
        before: Context,
        destroyed: Context,
        later: Context,
        created: Seq<Object>,
        gone: Seq<Handle>,
    )
        requires
            self.wf(before),
            destroyed.objects() == retire_all(before.objects(), self.handles()),
            later.objects() == retire_all(destroyed.objects() + created, gone),
        ensures
            !self.wf(later),
    {
        lemma_retire_all(before.objects(), self.handles());
        assert(self.handles()[0] == self.buffer);
        lemma_destroyed_stays_destroyed(destroyed.objects(), self.buffer, created, gone);
    }

    /// Whether the buffer and its memory are live in `ctx`.
    pub fn is_wf(&self, ctx: &Context) -> (ok: bool)
        ensures
            ok == self.wf(*ctx),
    {
        ctx.is_live(self.buffer, Kind::Buffer) && ctx.is_live(self.allocation, Kind::Memory)
    }

    /// The requests that destroy this buffer: the object first, then its memory.
    pub open spec fn destroy_calls(&self) -> Seq<CallView> {
        seq![
            CallView::Op(Op::DestroyBuffer { buffer: self.buffer }),
            CallView::Op(Op::FreeMemory { memory: self.allocation }),
        ]
    }

    /// Creates a buffer as `info` says, with memory at `location` bound to it.
    pub fn create(ctx: &mut Context, info: BufferInfo, location: Location) -> (b: Buffer)
        ensures
            b.buffer == old(ctx).objects().len(),
            b.allocation == old(ctx).objects().len() + 1,
            b.size == info.size,
            b.location == location,
            final(ctx).grows_by(
                *old(ctx),
                seq![fresh(Kind::Buffer), fresh(Kind::Memory)],
                buffer_create_calls(b.buffer, b.allocation, info, location),
            ),
            b.wf(*final(ctx)),
    {
        let buffer = ctx.create(Kind::Buffer);
        let allocation = ctx.create(Kind::Memory);
        ctx.emit(Op::CreateBuffer { buffer, info });
        ctx.emit(Op::AllocateBufferMemory { memory: allocation, buffer, location, linear: true });
        ctx.emit(Op::BindBufferMemory { buffer, memory: allocation });
        proof {
            assert(ctx.objects() =~= old(ctx).objects() + seq![fresh(Kind::Buffer), fresh(Kind::Memory)]);
            assert(ctx.log() =~= old(ctx).log() + buffer_create_calls(buffer, allocation, info, location));
        }
        Buffer { buffer, allocation, size: info.size, location }
    }

    /// Copies `data` to the start of the buffer's memory. Only memory that
    /// the host can see takes bytes, and no more of them than the buffer holds.
    pub fn fill_with_bytes(&self, ctx: &mut Context, data: &[u8]) -> (r: Result<(), FillError>)
        requires
            self.wf(*old(ctx)),
        ensures
            !self.location.host_visible() ==> r == Err::<(), FillError>(FillError::NotHostVisible),
            self.location.host_visible() && data@.len() > self.size ==> r == Err::<(), FillError>(
                FillError::TooLarge,
            ),
            self.location.host_visible() && data@.len() <= self.size ==> r is Ok,
            r is Err ==> *final(ctx) == *old(ctx),
            r is Ok ==> final(ctx).requests(
                *old(ctx),
                seq![CallView::WriteMemory { memory: self.allocation, data: data@ }],
            ),
    {
        if !self.location.host_visible() {
            return Err(FillError::NotHostVisible);
        }
        if data.len() as u64 > self.size {
            return Err(FillError::TooLarge);
        }
        let bytes = slice_to_vec(data);
        ctx.record(Call::WriteMemory { memory: self.allocation, data: bytes });
        Ok(())
    }

    /// Creates a host-visible buffer that holds exactly `data`.
    pub fn create_with_data(ctx: &mut Context, info: BufferInfo, data: &[u8]) -> (b: Buffer)
        ensures
            b.buffer == old(ctx).objects().len(),
            b.allocation == old(ctx).objects().len() + 1,
            b.size == data@.len(),
            b.location == Location::CpuToGpu,
            final(ctx).grows_by(
                *old(ctx),
                seq![fresh(Kind::Buffer), fresh(Kind::Memory)],
                buffer_create_calls(b.buffer, b.allocation, sized(info, data@.len()), Location::CpuToGpu)
                    + seq![CallView::WriteMemory { memory: b.allocation, data: data@ }],
            ),
            b.wf(*final(ctx)),
    {
        let info = BufferInfo { size: data.len() as u64, usage: info.usage, sharing_mode: info.sharing_mode };
        let b = Buffer::create(ctx, info, Location::CpuToGpu);
        let bytes = slice_to_vec(data);
        ctx.record(Call::WriteMemory { memory: b.allocation, data: bytes });
        proof {
            assert(ctx.objects() =~= old(ctx).objects() + seq![fresh(Kind::Buffer), fresh(Kind::Memory)]);
            assert(ctx.log() =~= old(ctx).log() + (buffer_create_calls(
                b.buffer,
                b.allocation,
                sized(info, data@.len()),
                Location::CpuToGpu,
            ) + seq![CallView::WriteMemory { memory: b.allocation, data: data@ }]));
        }
        b
    }

    /// Creates a device-local buffer that will hold `data` once `scope`
    /// has finished: the bytes go into a host-visible staging buffer, a
    /// copy from it into the new buffer is recorded into `scope`, and
    /// the staging buffer is left to `scope` to destroy.
    pub fn create_with_staged_data(
        ctx: &mut Context,
        scope: &mut OneshotScope,
        info: BufferInfo,
        data: &[u8],
    ) -> (b: Buffer)
        requires
            old(scope).wf(*old(ctx)),
        ensures
            b == staged_buffer(old(ctx).objects().len() as Handle, data@.len()),
            final(scope).resources@ == old(scope).resources@.push(
                Resource::Buffer(staging_buffer(old(ctx).objects().len() as Handle, data@.len())),
            ),
            final(scope).commands == old(scope).commands,
            final(scope).fence == old(scope).fence,
            final(scope).queue == old(scope).queue,
            final(ctx).grows_by(
                *old(ctx),
                staged_objects(),
                staged_upload_calls(
                    old(scope).commands.buffer,
                    old(ctx).objects().len() as Handle,
                    info,
                    data@,
                ),
            ),
            final(scope).wf(*final(ctx)),
            b.wf(*final(ctx)),
    {
        let size: u64 = data.len() as u64;
        let staging_info = BufferInfo {
            size,
            usage: codes::buffer_usage_transfer_src(),
            sharing_mode: codes::sharing_exclusive(),
        };
        let staging = Buffer::create_with_data(ctx, staging_info, data);
        let target_info = BufferInfo {
            size,
            usage: info.usage | codes::buffer_usage_transfer_dst(),
            sharing_mode: info.sharing_mode,
        };
        let b = Buffer::create(ctx, target_info, Location::GpuOnly);
        proof {
            lemma_scope_survives_growth(*scope, *old(ctx), *ctx);
        }
        b.record_copy_from(ctx, scope, &staging, size);
        let ghost staged = staging;
        scope.add_resource(Resource::Buffer(staging));
        proof {
            assert(staged.handles()[0] == staged.buffer && staged.handles()[1] == staged.allocation);
            lemma_scope_adopts(*old(scope), *scope, Resource::Buffer(staged), *old(ctx), *ctx);
            assert(ctx.objects() =~= old(ctx).objects() + staged_objects());
            assert(ctx.log() =~= old(ctx).log() + staged_upload_calls(
                scope.commands.buffer,
                staged.buffer,
                info,
                data@,
            ));
        }
        b
    }

    /// Records into `scope` a copy of the first `size` bytes of `src` into this buffer.
    pub fn record_copy_from(&self, ctx: &mut Context, scope: &OneshotScope, src: &Buffer, size: u64)
        requires
            scope.wf(*old(ctx)),
            self.wf(*old(ctx)),
            src.wf(*old(ctx)),
        ensures
            final(ctx).requests(
                *old(ctx),
                seq![
                    CallView::Op(
                        Op::CmdCopyBuffer {
                            commands: scope.commands.buffer,
                            src: src.buffer,
                            dst: self.buffer,
                            size,
                        },
                    ),
                ],
            ),
    {
        ctx.emit(Op::CmdCopyBuffer { commands: scope.commands.buffer, src: src.buffer, dst: self.buffer, size });
    }

    /// The address under which shaders reach this buffer.
    pub fn get_device_address(&self, ctx: &Context) -> (address: DeviceAddress)
        requires
            self.wf(*ctx),
        ensures
            address.buffer == self.buffer,
    {
        DeviceAddress { buffer: self.buffer }
    }

    /// Requests the destruction of the buffer and marks its entries.
    pub(crate) fn release(&self, ctx: &mut Context)
        requires
            self.buffer < old(ctx).objects().len(),
            self.allocation < old(ctx).objects().len(),
        ensures
            final(ctx).retires(*old(ctx), self.handles(), self.destroy_calls()),
            final(ctx).objects().len() == old(ctx).objects().len(),
    {
        ctx.emit(Op::DestroyBuffer { buffer: self.buffer });
        ctx.destroy(self.buffer);
        ctx.emit(Op::FreeMemory { memory: self.allocation });
        ctx.destroy(self.allocation);
        proof {
            lemma_retire_all_concat(old(ctx).objects(), seq![self.buffer], seq![self.allocation]);
            assert(seq![self.buffer] + seq![self.allocation] =~= self.handles());
            assert(ctx.log() =~= old(ctx).log() + self.destroy_calls());
        }
    }

    /// Destroys the buffer, then frees its memory. The buffer is given
    /// up with the call: nothing is left to ask for a handle or to
    /// destroy a second time.
    pub fn destroy_with(self, ctx: &mut Context)
        requires
            self.wf(*old(ctx)),
        ensures
            final(ctx).retires(*old(ctx), self.handles(), self.destroy_calls()),
            !self.wf(*final(ctx)),
    {
        self.release(ctx);
        proof {
            lemma_retire_all(old(ctx).objects(), self.handles());
            assert(self.handles()[0] == self.buffer);
        }
    }
}

} // verus!
