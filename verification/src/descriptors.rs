use vstd::prelude::*;
use crate::call::{Call, CallView, Handle, LayoutBinding, Op, PoolSize};
use crate::context::Context;
use crate::ledger::{
    Kind, Object, all_within, fresh, lemma_retire_all, lemma_retire_all_concat, retire_all, unchanged_within,
};

verus! {

/// A binding table: its layout, the pool its sets come from, and the sets.
#[derive(Debug, PartialEq, Eq)]
pub struct Descriptors {
    pub layout: Handle,
    pub pool: Handle,
    pub sets: Vec<Handle>,
}

/// The ledger entries of a binding table with `count` sets: the
/// layout, the pool and the sets.
pub open spec fn descriptor_objects(count: nat) -> Seq<Object> {
    seq![fresh(Kind::DescriptorSetLayout), fresh(Kind::DescriptorPool)] + Seq::new(
        count,
        |i: int| fresh(Kind::DescriptorSet),
    )
}

/// The requests that create a binding table, where `first` is the
/// first new handle: the layout with `bindings` (`first`), a pool of
/// `sizes` for `count` sets (`first + 1`), and the sets (from `first + 2` on).
pub open spec fn descriptor_calls(
    first: Handle,
    bindings: Seq<LayoutBinding>,
    sizes: Seq<PoolSize>,
    count: u32,
) -> Seq<CallView> {
    seq![
        CallView::CreateDescriptorSetLayout { layout: first, bindings },
        CallView::CreateDescriptorPool { pool: (first + 1) as Handle, sizes, max_sets: count },
        CallView::Op(
            Op::AllocateDescriptorSets {
                pool: (first + 1) as Handle,
                layout: first,
                first_set: (first + 2) as Handle,
                count,
            },
        ),
    ]
}

impl Descriptors {
    /// Creates a binding table with a layout of `bindings`, a pool of
    /// `sizes`, and `count` sets of the layout from the pool.
    pub fn create(ctx: &mut Context, bindings: Vec<LayoutBinding>, sizes: Vec<PoolSize>, count: u32) -> (d: Descriptors)
        ensures
            d.layout == old(ctx).objects().len(),
            d.pool == old(ctx).objects().len() + 1,
            d.sets@.len() == count,
            forall|i: int| 0 <= i < d.sets@.len() ==> #[trigger] d.sets@[i] == old(ctx).objects().len() + 2 + i,
            final(ctx).grows_by(
                *old(ctx),
                descriptor_objects(count as nat),
                descriptor_calls(old(ctx).objects().len() as Handle, bindings@, sizes@, count),
            ),
            d.wf(*final(ctx)),
            d.spans(old(ctx).objects().len() as int, final(ctx).objects().len() as int),
    {
        let ghost wanted = bindings@;
        let ghost held = sizes@;
        let layout = ctx.create(Kind::DescriptorSetLayout);
        ctx.record(Call::CreateDescriptorSetLayout { layout, bindings });
        let pool = ctx.create(Kind::DescriptorPool);
        ctx.record(Call::CreateDescriptorPool { pool, sizes, max_sets: count });
        let first_set = ctx.created();
        let ghost fixed = seq![fresh(Kind::DescriptorSetLayout), fresh(Kind::DescriptorPool)];
        let ghost set_objects = Seq::new(count as nat, |i: int| fresh(Kind::DescriptorSet));
        let ghost head = seq![
            CallView::CreateDescriptorSetLayout { layout, bindings: wanted },
            CallView::CreateDescriptorPool { pool, sizes: held, max_sets: count },
        ];
        let mut sets: Vec<Handle> = Vec::new();
        proof {
            assert(ctx.objects() =~= old(ctx).objects() + (fixed + set_objects.take(0)));
            assert(ctx.log() =~= old(ctx).log() + head);
        }
        let mut i: u32 = 0;
        while i < count
            invariant
                i <= count,
                layout == old(ctx).objects().len(),
                pool == layout + 1,
                first_set == layout + 2,
                fixed == seq![fresh(Kind::DescriptorSetLayout), fresh(Kind::DescriptorPool)],
                set_objects == Seq::new(count as nat, |i: int| fresh(Kind::DescriptorSet)),
                sets@.len() == i,
                forall|k: int| 0 <= k < i ==> #[trigger] sets@[k] == layout + 2 + k,
                ctx.same_device(*old(ctx)),
                ctx.objects() == old(ctx).objects() + (fixed + set_objects.take(i as int)),
                ctx.log() == old(ctx).log() + head,
            decreases count - i,
        {
            let set = ctx.create(Kind::DescriptorSet);
            proof {
                assert(ctx.objects() =~= old(ctx).objects() + (fixed + set_objects.take(i + 1)));
                assert(ctx.log() =~= old(ctx).log() + head);
            }
            sets.push(set);
            i = i + 1;
        }
        ctx.emit(Op::AllocateDescriptorSets { pool, layout, first_set, count });
        let d = Descriptors { layout, pool, sets };
        proof {
            ctx.lemma_fits();
            assert(set_objects.take(count as int) =~= set_objects);
            assert(ctx.objects() =~= old(ctx).objects() + descriptor_objects(count as nat));
            assert(ctx.log() =~= old(ctx).log() + descriptor_calls(layout, wanted, held, count));
            assert forall|k: int| 0 <= k < d.sets@.len() implies ctx.live(
                #[trigger] d.sets@[k],
                Kind::DescriptorSet,
            ) by {
                assert(descriptor_objects(count as nat)[2 + k] == set_objects[k]);
                assert(ctx.objects()[layout + 2 + k] == descriptor_objects(count as nat)[2 + k]);
            }
        }
        d
    }

    /// Layout, pool and sets are live in `ctx`.
    pub open spec fn wf(&self, ctx: Context) -> bool {
        &&& ctx.live(self.layout, Kind::DescriptorSetLayout)
        &&& ctx.live(self.pool, Kind::DescriptorPool)
        &&& forall|i: int| 0 <= i < self.sets@.len() ==> ctx.live(#[trigger] self.sets@[i], Kind::DescriptorSet)
    }

    /// Layout, pool and sets have handles from `lo` up to, but not including, `hi`.
    pub open spec fn spans(&self, lo: int, hi: int) -> bool {
        &&& lo <= self.layout < hi
        &&& lo <= self.pool < hi
        &&& forall|i: int| 0 <= i < self.sets@.len() ==> lo <= #[trigger] self.sets@[i] < hi
    }

    /// A binding table that is well-formed stays so while the entries of what
    /// it owns are unchanged.
    pub proof fn lemma_kept(&self, then: Context, now: Context, lo: int, hi: int)
        requires
            self.wf(then),
            self.spans(lo, hi),
            unchanged_within(now.objects(), then.objects(), lo, hi),
        ensures
            self.wf(now),
    {
    }

    /// What a binding table owns lies within the range it spans.
    pub proof fn lemma_owned_within(&self, lo: int, hi: int)
        requires
            self.spans(lo, hi),
        ensures
            all_within(self.handles(), lo, hi),
    {
        assert forall|k: int| 0 <= k < self.handles().len() implies lo <= #[trigger] self.handles()[k] < hi by {
            if k < self.sets@.len() {
                assert(self.handles()[k] == self.sets@[k]);
            }
        }
    }

    /// Whether layout, pool and sets are live in `ctx`.
    pub fn is_wf(&self, ctx: &Context) -> (ok: bool)
        ensures
            ok == self.wf(*ctx),
    {
        ctx.is_live(self.layout, Kind::DescriptorSetLayout) && ctx.is_live(self.pool, Kind::DescriptorPool)
            && ctx.all_live(&self.sets, Kind::DescriptorSet)
    }

    /// The ledger entries the table owns: the sets, which go with their
    /// pool, the pool, and the layout.
    pub open spec fn handles(&self) -> Seq<Handle> {
        self.sets@ + seq![self.pool, self.layout]
    }

    /// The requests that destroy the table: the pool, and with it the
    /// sets, then the layout.
    pub open spec fn destroy_calls(&self) -> Seq<CallView> {
        seq![
            CallView::Op(Op::DestroyDescriptorPool { pool: self.pool }),
            CallView::Op(Op::DestroyDescriptorSetLayout { layout: self.layout }),
        ]
    }

    /// Requests the destruction of what `self` owns, in order, and
    /// marks the entries as destroyed.
    pub(crate) fn release(&self, ctx: &mut Context)
        requires
            self.layout < old(ctx).objects().len(),
            self.pool < old(ctx).objects().len(),
            forall|i: int| 0 <= i < self.sets@.len() ==> (#[trigger] self.sets@[i]) < old(ctx).objects().len(),
        ensures
            final(ctx).retires(*old(ctx), self.handles(), self.destroy_calls()),
            final(ctx).objects().len() == old(ctx).objects().len(),
    {
        ctx.emit(Op::DestroyDescriptorPool { pool: self.pool });
        let ghost sets = self.sets@;
        proof {
            assert(sets.take(0) =~= Seq::<Handle>::empty());
            assert(ctx.objects() =~= retire_all(old(ctx).objects(), sets.take(0)));
        }
        let mut i: usize = 0;
        while i < self.sets.len()
            invariant
                i <= self.sets@.len(),
                sets == self.sets@,
                forall|k: int| 0 <= k < self.sets@.len() ==> (#[trigger] self.sets@[k]) < old(ctx).objects().len(),
                self.layout < old(ctx).objects().len(),
                self.pool < old(ctx).objects().len(),
                ctx.same_device(*old(ctx)),
                ctx.objects() == retire_all(old(ctx).objects(), sets.take(i as int)),
                ctx.objects().len() == old(ctx).objects().len(),
                ctx.log() == old(ctx).log() + seq![CallView::Op(Op::DestroyDescriptorPool { pool: self.pool })],
            decreases self.sets@.len() - i,
        {
            let set = self.sets[i];
            ctx.destroy(set);
            proof {
                lemma_retire_all_concat(old(ctx).objects(), sets.take(i as int), seq![set]);
                assert(sets.take(i as int) + seq![set] =~= sets.take(i + 1));
                assert(ctx.log() =~= old(ctx).log() + seq![
                    CallView::Op(Op::DestroyDescriptorPool { pool: self.pool }),
                ]);
            }
            i = i + 1;
        }
        proof {
            assert(sets.take(i as int) =~= sets);
        }
        ctx.destroy(self.pool);
        ctx.emit(Op::DestroyDescriptorSetLayout { layout: self.layout });
        ctx.destroy(self.layout);
        proof {
            lemma_retire_all_concat(old(ctx).objects(), sets, seq![self.pool]);
            lemma_retire_all_concat(old(ctx).objects(), sets + seq![self.pool], seq![self.layout]);
            assert(sets + seq![self.pool] + seq![self.layout] =~= self.handles());
            assert(ctx.log() =~= old(ctx).log() + self.destroy_calls());
        }
    }

    /// Destroys the pool, and with it the sets, then the layout. The
    /// table is given up with the call.
    pub fn destroy_with(self, ctx: &mut Context)
        requires
            self.wf(*old(ctx)),
        ensures
            final(ctx).retires(*old(ctx), self.handles(), self.destroy_calls()),
            !self.wf(*final(ctx)),
    {
        proof {
            assert forall|i: int| 0 <= i < self.sets@.len() implies (#[trigger] self.sets@[i]) < old(
                ctx,
            ).objects().len() by {
                assert(old(ctx).live(self.sets@[i], Kind::DescriptorSet));
            }
        }
        self.release(ctx);
        proof {
            lemma_retire_all(old(ctx).objects(), self.handles());
            assert(self.handles()[self.sets@.len() as int] == self.pool);
            assert(self.handles().contains(self.pool));
        }
    }
}

} // verus!
