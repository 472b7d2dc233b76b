use vstd::prelude::*;
use crate::call::Handle;

verus! {

/// What sort of device object a ledger entry stands for.
#[derive(Clone, Copy, Debug, PartialEq, Eq, Structural)]
pub enum Kind {
    Buffer,
    Image,
    ImageView,
    Memory,
    Sampler,
    CommandPool,
    CommandBuffer,
    Fence,
    Semaphore,
    DescriptorSetLayout,
    DescriptorPool,
    DescriptorSet,
    Swapchain,
    Framebuffer,
    RenderPass,
    PipelineLayout,
    Pipeline,
}

/// One entry of the device ledger.
#[derive(Clone, Copy, Debug, PartialEq, Eq, Structural)]
pub struct Object {
    pub kind: Kind,
    pub live: bool,
}

/// A freshly created object of `kind`.
pub open spec fn fresh(kind: Kind) -> Object {
    Object { kind, live: true }
}

/// Entry `h` of `objects` is a live object of `kind`.
pub open spec fn live_at(objects: Seq<Object>, h: Handle, kind: Kind) -> bool {
    h < objects.len() && objects[h as int] == fresh(kind)
}

/// `objects` with entry `h` marked as destroyed; unchanged where `h` is no entry.
pub open spec fn retire(objects: Seq<Object>, h: Handle) -> Seq<Object> {
    if h < objects.len() {
        objects.update(h as int, Object { kind: objects[h as int].kind, live: false })
    } else {
        objects
    }
}

/// `objects` with every entry named in `handles` marked as destroyed.
pub open spec fn retire_all(objects: Seq<Object>, handles: Seq<Handle>) -> Seq<Object>
    decreases handles.len(),
{
    if handles.len() == 0 {
        objects
    } else {
        retire(retire_all(objects, handles.drop_last()), handles.last())
    }
}

/// `now` starts with the entries of `then`, unchanged.
pub open spec fn extends(now: Seq<Object>, then: Seq<Object>) -> bool {
    &&& then.len() <= now.len()
    &&& forall|i: int| 0 <= i < then.len() ==> now[i] == then[i]
}

/// `now` has no fewer entries than `then`, and those of `then` with a
/// handle from `lo` up to, but not including, `hi` are unchanged in it.
pub open spec fn unchanged_within(now: Seq<Object>, then: Seq<Object>, lo: int, hi: int) -> bool {
    &&& then.len() <= now.len()
    &&& forall|h: Handle| lo <= h < hi && h < then.len() ==> #[trigger] now[h as int] == then[h as int]
}

/// Every one of `handles` lies from `lo` up to, but not including, `hi`.
pub open spec fn all_within(handles: Seq<Handle>, lo: int, hi: int) -> bool {
    forall|k: int| 0 <= k < handles.len() ==> lo <= #[trigger] handles[k] < hi
}

/// The entries of `objects` that are live.
pub open spec fn live_count(objects: Seq<Object>) -> nat
    decreases objects.len(),
{
    if objects.len() == 0 {
        0
    } else {
        live_count(objects.drop_last()) + if objects.last().live { 1nat } else { 0nat }
    }
}

/// Retiring keeps the length and the kinds, marks the named entries and
/// leaves the others alone.
pub proof fn lemma_retire_all(objects: Seq<Object>, handles: Seq<Handle>)
    ensures
        retire_all(objects, handles).len() == objects.len(),
        forall|h: Handle| h < objects.len() ==> (#[trigger] retire_all(objects, handles)[h as int]).kind
            == objects[h as int].kind,
        forall|h: Handle| h < objects.len() && !handles.contains(h)
            ==> #[trigger] retire_all(objects, handles)[h as int] == objects[h as int],
        forall|h: Handle| h < objects.len() && handles.contains(h)
            ==> !(#[trigger] retire_all(objects, handles)[h as int]).live,
    decreases handles.len(),
{
    if handles.len() > 0 {
        let init = handles.drop_last();
        let last = handles.last();
        lemma_retire_all(objects, init);
        assert forall|h: Handle| h < objects.len() && !handles.contains(h)
            implies #[trigger] retire_all(objects, handles)[h as int] == objects[h as int] by {
            assert(handles[handles.len() - 1] == last);
            if init.contains(h) {
                let i = choose|i: int| 0 <= i < init.len() && init[i] == h;
                assert(handles[i] == h);
            }
        }
        assert forall|h: Handle| h < objects.len() && handles.contains(h)
            implies !(#[trigger] retire_all(objects, handles)[h as int]).live by {
            let i = choose|i: int| 0 <= i < handles.len() && handles[i] == h;
            if i < init.len() {
                assert(init[i] == h);
                assert(init.contains(h));
            }
        }
    }
}

/// Appending two lists in turn is appending them joined.
pub proof fn lemma_concat_assoc<T>(x: Seq<T>, a: Seq<T>, b: Seq<T>)
    ensures
        (x + a) + b == x + (a + b),
{
    assert((x + a) + b =~= x + (a + b));
}

/// Retiring one list and then another is retiring the two in a row.
pub proof fn lemma_retire_all_concat(objects: Seq<Object>, first: Seq<Handle>, second: Seq<Handle>)
    ensures
        retire_all(retire_all(objects, first), second) == retire_all(objects, first + second),
    decreases second.len(),
{
    if second.len() == 0 {
        assert(first + second =~= first);
    } else {
        lemma_retire_all_concat(objects, first, second.drop_last());
        assert((first + second).drop_last() =~= first + second.drop_last());
        assert((first + second).last() == second.last());
    }
}

/// Creation changes no entry that was there.
pub proof fn lemma_growth_unchanged(then: Seq<Object>, created: Seq<Object>, lo: int, hi: int)
    ensures
        unchanged_within(then + created, then, lo, hi),
{
}

/// What is unchanged from a first ledger to a second and from the
/// second to a third is unchanged from the first to the third.
pub proof fn lemma_unchanged_twice(first: Seq<Object>, second: Seq<Object>, third: Seq<Object>, lo: int, hi: int)
    requires
        unchanged_within(second, first, lo, hi),
        unchanged_within(third, second, lo, hi),
    ensures
        unchanged_within(third, first, lo, hi),
{
    assert forall|h: Handle| lo <= h < hi && h < first.len() implies #[trigger] third[h as int] == first[h as int] by {
        assert(second[h as int] == first[h as int]);
    }
}

/// Destruction changes no entry of a range that none of the destroyed lies in.
pub proof fn lemma_retire_outside(objects: Seq<Object>, gone: Seq<Handle>, lo: int, hi: int)
    requires
        forall|k: int| 0 <= k < gone.len() ==> !(lo <= #[trigger] gone[k] < hi),
    ensures
        unchanged_within(retire_all(objects, gone), objects, lo, hi),
{
    lemma_retire_all(objects, gone);
    assert forall|h: Handle| lo <= h < hi && h < objects.len() implies #[trigger] retire_all(objects, gone)[h as int]
        == objects[h as int] by {
        if gone.contains(h) {
            let k = choose|k: int| 0 <= k < gone.len() && gone[k] == h;
            assert(!(lo <= gone[k] < hi));
        }
    }
}

/// Two lists within a range are within it when joined.
pub proof fn lemma_all_within_concat(a: Seq<Handle>, b: Seq<Handle>, lo: int, hi: int)
    requires
        all_within(a, lo, hi),
        all_within(b, lo, hi),
    ensures
        all_within(a + b, lo, hi),
{
    assert forall|k: int| 0 <= k < (a + b).len() implies lo <= #[trigger] (a + b)[k] < hi by {
        if k < a.len() {
            assert((a + b)[k] == a[k]);
        } else {
            assert((a + b)[k] == b[k - a.len()]);
        }
    }
}

/// What was destroyed stays destroyed, whatever is created or
/// destroyed afterwards: no handle comes back to life.
pub proof fn lemma_destroyed_stays_destroyed(
    objects: Seq<Object>,
    h: Handle,
    created: Seq<Object>,
    gone: Seq<Handle>,
)
    requires
        h < objects.len(),
        !objects[h as int].live,
    ensures
        h < retire_all(objects + created, gone).len(),
        !retire_all(objects + created, gone)[h as int].live,
{
    lemma_retire_all(objects + created, gone);
    assert((objects + created)[h as int] == objects[h as int]);
}

} // verus!
