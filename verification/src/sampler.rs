use vstd::prelude::*;
use crate::call::{CallView, Handle, Op, SamplerInfo};
use crate::codes;
use crate::context::Context;
use crate::ledger::{Kind, fresh, unchanged_within};

verus! {

/// A sampler for textures.
#[derive(Debug, PartialEq, Eq)]
pub struct Sampler {
    pub sampler: Handle,
}

/// How every sampler of the renderer reads: linear filtering (1) when
/// magnifying, when minifying and between mip levels (1), coordinates
/// that repeat (0) on all three axes and are normalized, anisotropic
/// filtering on, and no comparison (the operator is "always", 7).
pub open spec fn sampler_info() -> SamplerInfo {
    SamplerInfo {
        mag_filter: 1,
        min_filter: 1,
        mipmap_mode: 1,
        address_mode_u: 0,
        address_mode_v: 0,
        address_mode_w: 0,
        anisotropy_enable: true,
        unnormalized_coordinates: false,
        compare_enable: false,
        compare_op: 7,
    }
}

impl Sampler {
    /// The sampler is live in `ctx`.
    pub open spec fn wf(&self, ctx: Context) -> bool {
        ctx.live(self.sampler, Kind::Sampler)
    }

    /// The sampler has a handle from `lo` up to, but not including, `hi`.
    pub open spec fn spans(&self, lo: int, hi: int) -> bool {
        lo <= self.sampler < hi
    }

    /// A sampler that is well-formed stays so while the entries of what
    /// it owns are unchanged.
    pub proof fn lemma_kept(&self, then: Context, now: Context, lo: int, hi: int)
        requires
            self.wf(then),
            self.spans(lo, hi),
            unchanged_within(now.objects(), then.objects(), lo, hi),
        ensures
            self.wf(now),
    {
    }

    /// Whether the sampler is live in `ctx`.
    pub fn is_wf(&self, ctx: &Context) -> (ok: bool)
        ensures
            ok == self.wf(*ctx),
    {
        ctx.is_live(self.sampler, Kind::Sampler)
    }

    /// Creates a sampler.
    pub fn create(ctx: &mut Context) -> (s: Sampler)
        ensures
            s.sampler == old(ctx).objects().len(),
            final(ctx).grows_by(
                *old(ctx),
                seq![fresh(Kind::Sampler)],
                seq![CallView::Op(Op::CreateSampler { sampler: s.sampler, info: sampler_info() })],
            ),
            s.wf(*final(ctx)),
    {
        let info = SamplerInfo {
            mag_filter: codes::filter_linear(),
            min_filter: codes::filter_linear(),
            mipmap_mode: codes::mipmap_linear(),
            address_mode_u: codes::address_repeat(),
            address_mode_v: codes::address_repeat(),
            address_mode_w: codes::address_repeat(),
            anisotropy_enable: true,
            unnormalized_coordinates: false,
            compare_enable: false,
            compare_op: codes::compare_always(),
        };
        let sampler = ctx.create(Kind::Sampler);
        ctx.emit(Op::CreateSampler { sampler, info });
        Sampler { sampler }
    }

    /// Requests the destruction of what `self` owns, in order, and
    /// marks the entries as destroyed.
    pub(crate) fn release(&self, ctx: &mut Context)
        requires
            self.sampler < old(ctx).objects().len(),
        ensures
            final(ctx).retires(
                *old(ctx),
                seq![self.sampler],
                seq![CallView::Op(Op::DestroySampler { sampler: self.sampler })],
            ),
            final(ctx).objects().len() == old(ctx).objects().len(),
    {
        ctx.emit(Op::DestroySampler { sampler: self.sampler });
        ctx.destroy(self.sampler);
        proof {
            assert(ctx.log() =~= old(ctx).log() + seq![
                CallView::Op(Op::DestroySampler { sampler: self.sampler }),
            ]);
        }
    }

    /// Destroys the sampler, which is given up with the call.
    pub fn destroy_with(self, ctx: &mut Context)
        requires
            self.wf(*old(ctx)),
        ensures
            final(ctx).retires(
                *old(ctx),
                seq![self.sampler],
                seq![CallView::Op(Op::DestroySampler { sampler: self.sampler })],
            ),
            !self.wf(*final(ctx)),
    {
        self.release(ctx);
        proof {
            crate::ledger::lemma_retire_all(old(ctx).objects(), seq![self.sampler]);
            assert(seq![self.sampler][0] == self.sampler);
        }
    }
}

} // verus!
