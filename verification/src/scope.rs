use vstd::prelude::*;
use crate::buffer::Buffer;
use crate::image::Image;
use crate::call::{CallView, Handle, Op};
use crate::context::{Context, Queue};
use crate::ledger::{Kind, extends, fresh, lemma_retire_all, lemma_retire_all_concat, retire_all};

verus! {

/// The command buffer of a scope, and the pool it was taken from.
#[derive(Clone, Copy, Debug, PartialEq, Eq, Structural)]
pub struct Commands {
    pub pool: Handle,
    pub buffer: Handle,
}

/// A memory-backed resource that a scope may be given to dispose of.
#[derive(Debug, PartialEq, Eq)]
pub enum Resource {
    Buffer(Buffer),
    Image(Image),
}

impl Resource {
    /// The ledger entries the resource owns, in the order in which they are destroyed.
    pub open spec fn handles(&self) -> Seq<Handle> {
        match self {
            Resource::Buffer(b) => b.handles(),
            Resource::Image(i) => i.handles(),
        }
    }

    /// Everything the resource owns is live in `ctx`.
    pub open spec fn wf(&self, ctx: Context) -> bool {
        match self {
            Resource::Buffer(b) => b.wf(ctx),
            Resource::Image(i) => i.wf(ctx),
        }
    }

    /// The requests that destroy the resource.
    pub open spec fn destroy_calls(&self) -> Seq<CallView> {
        match self {
            Resource::Buffer(b) => b.destroy_calls(),
            Resource::Image(i) => i.destroy_calls(),
        }
    }

    /// Requests the destruction of what `self` owns, in order, and
    /// marks the entries as destroyed.
    pub(crate) fn release(&self, ctx: &mut Context)
        requires
            self.wf(*old(ctx)),
        ensures
            final(ctx).retires(*old(ctx), self.handles(), self.destroy_calls()),
    {
        match self {
            Resource::Buffer(b) => b.release(ctx),
            Resource::Image(i) => i.release(ctx),
        }
    }
}

/// The ledger entries that `resources` own, resource by resource.
pub open spec fn owned_handles(resources: Seq<Resource>) -> Seq<Handle>
    decreases resources.len(),
{
    if resources.len() == 0 {
        Seq::empty()
    } else {
        owned_handles(resources.drop_last()) + resources.last().handles()
    }
}

/// The requests that destroy `resources`, resource by resource.
pub open spec fn teardown_calls(resources: Seq<Resource>) -> Seq<CallView>
    decreases resources.len(),
{
    if resources.len() == 0 {
        Seq::empty()
    } else {
        teardown_calls(resources.drop_last()) + resources.last().destroy_calls()
    }
}

/// A command buffer that records setup work once, with the temporary
/// resources to dispose of when that work has run.
#[derive(Debug)]
pub struct OneshotScope {
    pub commands: Commands,
    pub fence: Handle,
    pub queue: Queue,
    pub resources: Vec<Resource>,
}

/// The requests with which a scope starts to record.
pub open spec fn begin_calls(commands: Commands, fence: Handle, queue: Queue) -> Seq<CallView> {
    seq![
        CallView::Op(Op::CreateCommandPool { pool: commands.pool, queue_family: queue.family_index }),
        CallView::Op(Op::AllocateCommandBuffer { commands: commands.buffer, pool: commands.pool }),
        CallView::Op(Op::CreateFence { fence, signaled: false }),
        CallView::Op(Op::BeginCommandBuffer { commands: commands.buffer, one_time_submit: true }),
    ]
}

/// The requests that end the recording, submit it and wait until the
/// device has run it.
pub open spec fn submit_calls(commands: Commands, fence: Handle, queue: Queue) -> Seq<CallView> {
    seq![
        CallView::Op(Op::EndCommandBuffer { commands: commands.buffer }),
        CallView::Op(
            Op::QueueSubmit {
                queue_family: queue.family_index,
                commands: commands.buffer,
                wait: None,
                wait_stage: 0,
                signal: None,
                fence,
            },
        ),
        CallView::Op(Op::WaitForFence { fence }),
    ]
}

/// The requests that give up what the scope itself holds.
pub open spec fn end_calls(commands: Commands, fence: Handle) -> Seq<CallView> {
    seq![
        CallView::Op(Op::DestroyFence { fence }),
        CallView::Op(Op::FreeCommandBuffer { commands: commands.buffer, pool: commands.pool }),
        CallView::Op(Op::DestroyCommandPool { pool: commands.pool }),
    ]
}

/// The handles of the first resources are the start of the handles of all.
pub proof fn lemma_owned_handles_take(resources: Seq<Resource>, k: int)
    requires
        0 <= k <= resources.len(),
    ensures
        owned_handles(resources.take(k)).len() <= owned_handles(resources).len(),
        owned_handles(resources.take(k)) == owned_handles(resources).take(
            owned_handles(resources.take(k)).len() as int,
        ),
        k < resources.len() ==> owned_handles(resources.take(k + 1)) == owned_handles(resources.take(k))
            + resources[k].handles(),
        k < resources.len() ==> teardown_calls(resources.take(k + 1)) == teardown_calls(resources.take(k))
            + resources[k].destroy_calls(),
    decreases resources.len() - k,
{
    if k == resources.len() {
        assert(resources.take(k) =~= resources);
        assert(owned_handles(resources).take(owned_handles(resources).len() as int) =~= owned_handles(
            resources,
        ));
    } else {
        lemma_owned_handles_take(resources, k + 1);
        assert(resources.take(k + 1).drop_last() =~= resources.take(k));
        assert(resources.take(k + 1).last() == resources[k]);
        let whole = owned_handles(resources);
        let next = owned_handles(resources.take(k + 1));
        let here = owned_handles(resources.take(k));
        assert(next == here + resources[k].handles());
        assert(here =~= whole.take(here.len() as int)) by {
            assert(next == whole.take(next.len() as int));
            assert forall|i: int| 0 <= i < here.len() implies here[i] == whole[i] by {
                assert(next[i] == here[i]);
                assert(next[i] == whole.take(next.len() as int)[i]);
            }
        }
    }
}

/// What two lists of resources own is what the first owns, then what the second owns.
pub proof fn lemma_owned_handles_concat(first: Seq<Resource>, second: Seq<Resource>)
    ensures
        owned_handles(first + second) == owned_handles(first) + owned_handles(second),
    decreases second.len(),
{
    if second.len() == 0 {
        assert(first + second =~= first);
        assert(owned_handles(first) + owned_handles(second) =~= owned_handles(first));
    } else {
        lemma_owned_handles_concat(first, second.drop_last());
        assert((first + second).drop_last() =~= first + second.drop_last());
        assert((first + second).last() == second.last());
        assert(owned_handles(first) + owned_handles(second.drop_last()) + second.last().handles()
            =~= owned_handles(first) + (owned_handles(second.drop_last()) + second.last().handles()));
    }
}

/// What well-formed resources own lies within the ledger.
pub proof fn lemma_owned_in_ledger(resources: Seq<Resource>, ctx: Context)
    requires
        forall|i: int| 0 <= i < resources.len() ==> (#[trigger] resources[i]).wf(ctx),
    ensures
        forall|k: int| 0 <= k < owned_handles(resources).len() ==> {
            &&& (#[trigger] owned_handles(resources)[k]) < ctx.objects().len()
            &&& ctx.objects()[owned_handles(resources)[k] as int].live
        },
    decreases resources.len(),
{
    if resources.len() > 0 {
        let init = resources.drop_last();
        assert forall|i: int| 0 <= i < init.len() implies (#[trigger] init[i]).wf(ctx) by {
            assert(init[i] == resources[i]);
        }
        lemma_owned_in_ledger(init, ctx);
        assert(resources.last() == resources[resources.len() - 1]);
        assert(resources.last().wf(ctx));
    }
}

/// A scope stays well-formed while the ledger only grows.
pub proof fn lemma_scope_survives_growth(scope: OneshotScope, then: Context, now: Context)
    requires
        scope.wf(then),
        extends(now.objects(), then.objects()),
    ensures
        scope.wf(now),
{
    assert forall|i: int| 0 <= i < scope.resources@.len() implies (#[trigger] scope.resources@[i]).wf(
        now,
    ) by {
        assert(scope.resources@[i].wf(then));
    }
}

/// A scope that is given a resource made after everything it already
/// holds stays well-formed.
pub proof fn lemma_scope_adopts(
    before: OneshotScope,
    after: OneshotScope,
    resource: Resource,
    then: Context,
    now: Context,
)
    requires
        before.wf(then),
        extends(now.objects(), then.objects()),
        resource.wf(now),
        resource.handles().no_duplicates(),
        forall|k: int| 0 <= k < resource.handles().len() ==> resource.handles()[k] >= then.objects().len(),
        after.resources@ == before.resources@.push(resource),
        after.commands == before.commands,
        after.fence == before.fence,
    ensures
        after.wf(now),
{
    lemma_scope_survives_growth(before, then, now);
    lemma_owned_in_ledger(before.resources@, then);
    assert(after.resources@.drop_last() =~= before.resources@);
    assert(after.resources@.last() == resource);
    assert forall|i: int| 0 <= i < after.resources@.len() implies (#[trigger] after.resources@[i]).wf(
        now,
    ) by {
        if i < before.resources@.len() {
            assert(after.resources@[i] == before.resources@[i]);
        }
    }
    let old_handles = owned_handles(before.resources@);
    let all = owned_handles(after.resources@);
    assert(all == old_handles + resource.handles());
    assert forall|i: int, j: int| 0 <= i < all.len() && 0 <= j < all.len() && i != j implies all[i]
        != all[j] by {
        if i < old_handles.len() && j < old_handles.len() {
            assert(all[i] == old_handles[i] && all[j] == old_handles[j]);
        } else if i >= old_handles.len() && j >= old_handles.len() {
            assert(all[i] == resource.handles()[i - old_handles.len()]);
            assert(all[j] == resource.handles()[j - old_handles.len()]);
        } else if i < old_handles.len() {
            assert(all[i] == old_handles[i]);
            assert(all[j] == resource.handles()[j - old_handles.len()]);
        } else {
            assert(all[j] == old_handles[j]);
            assert(all[i] == resource.handles()[i - old_handles.len()]);
        }
    }
}

/// When a scope has finished, every object that its resources owned and
/// its own command buffer, pool and fence have gone from live to
/// destroyed, each of them once, and nothing else in the ledger has changed.
pub proof fn lemma_finish_destroys_once(scope: OneshotScope, before: Context, after: Context)
    requires
        scope.wf(before),
        after.objects() == retire_all(before.objects(), scope.handles()),
    ensures
        scope.handles().no_duplicates(),
        after.objects().len() == before.objects().len(),
        forall|k: int| 0 <= k < scope.handles().len() ==> {
            &&& (#[trigger] scope.handles()[k]) < before.objects().len()
            &&& before.objects()[scope.handles()[k] as int].live
            &&& !after.objects()[scope.handles()[k] as int].live
        },
        forall|h: Handle| h < before.objects().len() && !scope.handles().contains(h)
            ==> #[trigger] after.objects()[h as int] == before.objects()[h as int],
        forall|i: int| 0 <= i < scope.resources@.len() ==> !(#[trigger] scope.resources@[i]).wf(after),
        !after.live(scope.commands.buffer, Kind::CommandBuffer),
{
    let owned = owned_handles(scope.resources@);
    let all = scope.handles();
    lemma_owned_in_ledger(scope.resources@, before);
    lemma_retire_all(before.objects(), all);
    assert forall|i: int, j: int| 0 <= i < all.len() && 0 <= j < all.len() && i != j implies all[i]
        != all[j] by {
        lemma_own_apart(scope, before, i);
        lemma_own_apart(scope, before, j);
        if i < owned.len() && j < owned.len() {
            assert(all[i] == owned[i] && all[j] == owned[j]);
        }
    }
    assert forall|k: int| 0 <= k < all.len() implies {
        &&& (#[trigger] all[k]) < before.objects().len()
        &&& before.objects()[all[k] as int].live
        &&& !after.objects()[all[k] as int].live
    } by {
        assert(all.contains(all[k]));
        if k < owned.len() {
            assert(all[k] == owned[k]);
        }
    }
    assert(all[owned.len() as int + 1] == scope.commands.buffer);
    assert(all.contains(scope.commands.buffer));
    assert forall|i: int| 0 <= i < scope.resources@.len() implies !(#[trigger] scope.resources@[i]).wf(
        after,
    ) by {
        lemma_owned_handles_take(scope.resources@, i);
        lemma_owned_handles_take(scope.resources@, i + 1);
        let r = scope.resources@[i];
        let start = owned_handles(scope.resources@.take(i)).len() as int;
        let next = owned_handles(scope.resources@.take(i + 1));
        assert(r.wf(before));
        assert(r.handles().len() > 0 && next[start] == r.handles()[0]) by {
            match r {
                Resource::Buffer(b) => {},
                Resource::Image(img) => {},
            }
        }
        assert(owned[start] == next[start]);
        assert(all[start] == owned[start]);
        assert(all.contains(r.handles()[0]));
        match r {
            Resource::Buffer(b) => {
                assert(r.handles()[0] == b.buffer);
            },
            Resource::Image(img) => {
                assert(r.handles()[0] == img.view);
            },
        }
    }
}

/// Where an entry of a scope's handles lies: among what the resources
/// own, which are buffers, images, views and memory, or among the
/// scope's own three, which are of other kinds.
proof fn lemma_own_apart(scope: OneshotScope, ctx: Context, k: int)
    requires
        scope.wf(ctx),
        0 <= k < scope.handles().len(),
    ensures
        k < owned_handles(scope.resources@).len() ==> {
            let kind = ctx.objects()[scope.handles()[k] as int].kind;
            scope.handles()[k] < ctx.objects().len() && (kind == Kind::Buffer || kind == Kind::Image || kind
                == Kind::ImageView || kind == Kind::Memory)
        },
        k == owned_handles(scope.resources@).len() ==> scope.handles()[k] == scope.fence,
        k == owned_handles(scope.resources@).len() + 1 ==> scope.handles()[k] == scope.commands.buffer,
        k == owned_handles(scope.resources@).len() + 2 ==> scope.handles()[k] == scope.commands.pool,
{
    if k < owned_handles(scope.resources@).len() {
        lemma_owned_kinds(scope.resources@, ctx, k);
    }
}

/// What well-formed resources own are buffers, images, views and memory.
proof fn lemma_owned_kinds(resources: Seq<Resource>, ctx: Context, k: int)
    requires
        forall|i: int| 0 <= i < resources.len() ==> (#[trigger] resources[i]).wf(ctx),
        0 <= k < owned_handles(resources).len(),
    ensures
        owned_handles(resources)[k] < ctx.objects().len(),
        ({
            let kind = ctx.objects()[owned_handles(resources)[k] as int].kind;
            kind == Kind::Buffer || kind == Kind::Image || kind == Kind::ImageView || kind == Kind::Memory
        }),
    decreases resources.len(),
{
    let init = resources.drop_last();
    assert(resources.last() == resources[resources.len() - 1]);
    assert(resources.last().wf(ctx));
    if k < owned_handles(init).len() {
        assert forall|i: int| 0 <= i < init.len() implies (#[trigger] init[i]).wf(ctx) by {
            assert(init[i] == resources[i]);
        }
        lemma_owned_kinds(init, ctx, k);
    }
}

impl OneshotScope {
    /// The scope's own objects are live in `ctx`, so is everything its
    /// resources own, and no two of these are the same object.
    pub open spec fn wf(&self, ctx: Context) -> bool {
        &&& ctx.live(self.commands.pool, Kind::CommandPool)
        &&& ctx.live(self.commands.buffer, Kind::CommandBuffer)
        &&& ctx.live(self.fence, Kind::Fence)
        &&& forall|i: int| 0 <= i < self.resources@.len() ==> (#[trigger] self.resources@[i]).wf(ctx)
        &&& owned_handles(self.resources@).no_duplicates()
    }

    /// The ledger entries that `finish` destroys: what the resources own,
    /// then the fence, the command buffer and its pool.
    pub open spec fn handles(&self) -> Seq<Handle> {
        owned_handles(self.resources@) + seq![self.fence, self.commands.buffer, self.commands.pool]
    }

    /// Takes a command buffer for work on `queue` and begins to record into it.
    pub fn begin_on(ctx: &mut Context, queue: Queue) -> (scope: OneshotScope)
        ensures
            scope.commands.pool == old(ctx).objects().len(),
            scope.commands.buffer == old(ctx).objects().len() + 1,
            scope.fence == old(ctx).objects().len() + 2,
            scope.queue == queue,
            scope.resources@ == Seq::<Resource>::empty(),
            final(ctx).grows_by(
                *old(ctx),
                seq![fresh(Kind::CommandPool), fresh(Kind::CommandBuffer), fresh(Kind::Fence)],
                begin_calls(scope.commands, scope.fence, queue),
            ),
            scope.wf(*final(ctx)),
    {
        let pool = ctx.create(Kind::CommandPool);
        let buffer = ctx.create(Kind::CommandBuffer);
        let fence = ctx.create(Kind::Fence);
        let commands = Commands { pool, buffer };
        ctx.emit(Op::CreateCommandPool { pool, queue_family: queue.family_index });
        ctx.emit(Op::AllocateCommandBuffer { commands: buffer, pool });
        ctx.emit(Op::CreateFence { fence, signaled: false });
        ctx.emit(Op::BeginCommandBuffer { commands: buffer, one_time_submit: true });
        proof {
            assert(ctx.objects() =~= old(ctx).objects() + seq![
                fresh(Kind::CommandPool),
                fresh(Kind::CommandBuffer),
                fresh(Kind::Fence),
            ]);
            assert(ctx.log() =~= old(ctx).log() + begin_calls(commands, fence, queue));
        }
        OneshotScope { commands, fence, queue, resources: Vec::new() }
    }

    /// Hands `resource` to the scope, which destroys it in `finish`.
    pub fn add_resource(&mut self, resource: Resource)
        ensures
            final(self).resources@ == old(self).resources@.push(resource),
            final(self).commands == old(self).commands,
            final(self).fence == old(self).fence,
            final(self).queue == old(self).queue,
    {
        self.resources.push(resource);
    }

    /// Ends the recording, submits it and waits until the device has run
    /// it; then destroys every resource the scope was given, in the
    /// order in which they came, and at last what the scope itself holds.
    pub fn finish(self, ctx: &mut Context)
        requires
            self.wf(*old(ctx)),
        ensures
            final(ctx).retires(
                *old(ctx),
                self.handles(),
                submit_calls(self.commands, self.fence, self.queue) + teardown_calls(self.resources@)
                    + end_calls(self.commands, self.fence),
            ),
    {
        ctx.emit(Op::EndCommandBuffer { commands: self.commands.buffer });
        ctx.emit(
            Op::QueueSubmit {
                queue_family: self.queue.family_index,
                commands: self.commands.buffer,
                wait: None,
                wait_stage: 0,
                signal: None,
                fence: self.fence,
            },
        );
        ctx.emit(Op::WaitForFence { fence: self.fence });
        let ghost start = submit_calls(self.commands, self.fence, self.queue);
        let ghost all = owned_handles(self.resources@);
        proof {
            assert(ctx.log() =~= old(ctx).log() + start);
            assert(self.resources@.take(0) =~= Seq::<Resource>::empty());
            assert(old(ctx).log() + start + teardown_calls(self.resources@.take(0)) =~= old(ctx).log()
                + start);
        }
        let mut i: usize = 0;
        while i < self.resources.len()
            invariant
                i <= self.resources@.len(),
                self.wf(*old(ctx)),
                all == owned_handles(self.resources@),
                start == submit_calls(self.commands, self.fence, self.queue),
                ctx.same_device(*old(ctx)),
                ctx.objects() == retire_all(old(ctx).objects(), owned_handles(self.resources@.take(i as int))),
                ctx.objects().len() == old(ctx).objects().len(),
                ctx.log() == old(ctx).log() + start + teardown_calls(self.resources@.take(i as int)),
            decreases self.resources@.len() - i,
        {
            let ghost gone = owned_handles(self.resources@.take(i as int));
            let ghost mine = self.resources@[i as int].handles();
            proof {
                lemma_owned_handles_take(self.resources@, i as int);
                lemma_owned_handles_take(self.resources@, i + 1);
                lemma_retire_all(old(ctx).objects(), gone);
                let next = owned_handles(self.resources@.take(i + 1));
                assert(next == gone + mine);
                assert forall|k: int| 0 <= k < mine.len() implies !gone.contains(#[trigger] mine[k]) by {
                    if gone.contains(mine[k]) {
                        let g = choose|g: int| 0 <= g < gone.len() && gone[g] == mine[k];
                        assert(next[g] == gone[g]);
                        assert(next[gone.len() + k] == mine[k]);
                        assert(all[g] == next[g]);
                        assert(all[gone.len() + k] == next[gone.len() + k]);
                    }
                }
                assert(self.resources@[i as int].wf(*old(ctx)));
                assert(self.resources@[i as int].wf(*ctx)) by {
                    match self.resources@[i as int] {
                        Resource::Buffer(b) => {
                            assert(mine[0] == b.buffer);
                            assert(mine[1] == b.allocation);
                        },
                        Resource::Image(img) => {
                            assert(mine[0] == img.view);
                            if let Some(allocation) = img.allocation {
                                assert(mine[1] == img.image);
                                assert(mine[2] == allocation);
                            }
                        },
                    }
                }
            }
            self.resources[i].release(ctx);
            proof {
                lemma_retire_all_concat(old(ctx).objects(), gone, mine);
                lemma_retire_all(old(ctx).objects(), gone + mine);
                assert(ctx.log() =~= old(ctx).log() + start + teardown_calls(
                    self.resources@.take(i + 1),
                ));
            }
            i = i + 1;
        }
        proof {
            assert(self.resources@.take(i as int) =~= self.resources@);
        }
        ctx.emit(Op::DestroyFence { fence: self.fence });
        ctx.destroy(self.fence);
        ctx.emit(Op::FreeCommandBuffer { commands: self.commands.buffer, pool: self.commands.pool });
        ctx.destroy(self.commands.buffer);
        ctx.emit(Op::DestroyCommandPool { pool: self.commands.pool });
        ctx.destroy(self.commands.pool);
        proof {
            lemma_retire_all(old(ctx).objects(), all);
            lemma_retire_all_concat(old(ctx).objects(), all, seq![self.fence]);
            lemma_retire_all(old(ctx).objects(), all + seq![self.fence]);
            lemma_retire_all_concat(old(ctx).objects(), all + seq![self.fence], seq![self.commands.buffer]);
            lemma_retire_all(old(ctx).objects(), all + seq![self.fence] + seq![self.commands.buffer]);
            lemma_retire_all_concat(
                old(ctx).objects(),
                all + seq![self.fence] + seq![self.commands.buffer],
                seq![self.commands.pool],
            );
            assert(all + seq![self.fence] + seq![self.commands.buffer] + seq![self.commands.pool]
                =~= self.handles());
            assert(ctx.log() =~= old(ctx).log() + (start + teardown_calls(self.resources@) + end_calls(
                self.commands,
                self.fence,
            )));
        }
    }
}

} // verus!
