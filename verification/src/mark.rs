//! The phases of a collection, on the table of a collector: marking what can
//! be reached from the rooted objects, and sweeping the rest.

use crate::gc::{Color, GcPtr, MarkSweepType, ObjectInfo, ObjectView};
use crate::heap::Heap;
use std::collections::VecDeque;
use vstd::prelude::*;

verus! {

/// Whether the first `upto` handles that the object at place `i` holds denote
/// live objects that are not white.
pub open spec fn refs_marked<T: MarkSweepType>(
    cur: Heap<T>,
    start: Heap<T>,
    i: int,
    upto: int,
) -> bool {
    forall|k: int|
        0 <= k < upto ==> start.contains(#[trigger] start.references(GcPtr::at(i))[k])
            && cur.is_marked(start.references(GcPtr::at(i))[k].spec_raw() as int)
}

/// What holds of place `i` while the table is marked: a marked object can be
/// reached, a rooted one is marked, a gray one is still to be visited, and a
/// black one holds only marked objects.
pub open spec fn marking_at<T: MarkSweepType>(
    cur: Heap<T>,
    start: Heap<T>,
    queue: Seq<usize>,
    pending: int,
    i: int,
) -> bool {
    &&& cur.same_at(start, i)
    &&& cur.is_marked(i) ==> start.reachable(GcPtr::at(i))
    &&& start.live(i) && start.slots[i]->Some_0.roots > 0 ==> cur.is_marked(i)
    &&& cur.is_marked(i) && !cur.is_black(i) ==> queue.contains(i as usize) || i == pending
    &&& cur.is_black(i) ==> refs_marked(
        cur,
        start,
        i,
        start.references(GcPtr::at(i)).len() as int,
    )
}

/// What holds of the table while it is marked. `cur` is the table as it is,
/// `start` as it was, `queue` the places still to visit and `pending` the
/// place that is being visited, or -1.
pub open spec fn marking<T: MarkSweepType>(
    cur: Heap<T>,
    start: Heap<T>,
    queue: Seq<usize>,
    pending: int,
) -> bool {
    &&& cur.slots.len() == start.slots.len()
    &&& cur.slots.len() <= usize::MAX
    &&& forall|i: int|
        0 <= i < cur.slots.len() ==> #[trigger] marking_at(cur, start, queue, pending, i)
    &&& forall|k: int| 0 <= k < queue.len() ==> cur.is_marked(#[trigger] queue[k] as int)
}

/// Whether `darker` has every object of `cur`, none of them whiter.
pub open spec fn darkened<T: MarkSweepType>(cur: Heap<T>, darker: Heap<T>) -> bool {
    &&& cur.slots.len() == darker.slots.len()
    &&& forall|i: int| #[trigger] cur.is_marked(i) ==> darker.is_marked(i)
}

/// Handles that denote marked objects still do so in a darker table.
proof fn lemma_refs_stay_marked<T: MarkSweepType>(
    cur: Heap<T>,
    darker: Heap<T>,
    start: Heap<T>,
    i: int,
    upto: int,
)
    requires
        refs_marked(cur, start, i, upto),
        darkened(cur, darker),
    ensures
        refs_marked(darker, start, i, upto),
{
    assert forall|k: int| 0 <= k < upto implies start.contains(
        #[trigger] start.references(GcPtr::at(i))[k],
    ) && darker.is_marked(start.references(GcPtr::at(i))[k].spec_raw() as int) by {
        assert(cur.is_marked(start.references(GcPtr::at(i))[k].spec_raw() as int));
    }
}

/// Once no marked object is left to visit, every handle on a path denotes a
/// live object, and that object is black.
proof fn lemma_marking_complete<T: MarkSweepType>(
    cur: Heap<T>,
    start: Heap<T>,
    path: Seq<GcPtr>,
    n: int,
)
    requires
        marking(cur, start, Seq::<usize>::empty(), -1),
        start.is_path(path),
        0 < n <= path.len(),
    ensures
        start.contains(path[n - 1]),
        cur.is_black(path[n - 1].spec_raw() as int),
    decreases n,
{
    if n == 1 {
        let i = path[0].spec_raw() as int;
        assert(marking_at(cur, start, Seq::<usize>::empty(), -1, i));
    } else {
        lemma_marking_complete(cur, start, path, n - 1);
        let before = path[n - 2];
        let i = before.spec_raw() as int;
        GcPtr::lemma_raw_injective(before, before);
        assert(marking_at(cur, start, Seq::<usize>::empty(), -1, i));
        assert(start.contains(path[n - 2]));
        assert(start.references(path[n - 2]).contains(path[n - 2 + 1]));
        let refs = start.references(GcPtr::at(i));
        let k = choose|k: int| 0 <= k < refs.len() && refs[k] == path[n - 1];
        assert(refs_marked(cur, start, i, refs.len() as int));
        assert(start.contains(refs[k]));
        let j = path[n - 1].spec_raw() as int;
        assert(cur.is_marked(j));
        assert(marking_at(cur, start, Seq::<usize>::empty(), -1, j));
    }
}

/// The table after the object at place `i` got the color `color`.
pub open spec fn recolored<T: MarkSweepType>(cur: Heap<T>, i: int, color: Color) -> Heap<T> {
    Heap { slots: cur.slots.update(i, Some(ObjectView { color, ..cur.slots[i]->Some_0 })) }
}

/// Colors every rooted object gray and returns the places of these objects.
pub(crate) fn mark_roots<T: MarkSweepType>(objects: &mut Vec<Option<ObjectInfo<T>>>) -> (worklist:
    VecDeque<usize>)
    requires
        Heap::of(old(objects)@).all_white(),
    ensures
        marking(Heap::of(final(objects)@), Heap::of(old(objects)@), worklist@, -1),
{
    let ghost start = Heap::of(objects@);
    let len = objects.len();
    let mut worklist: VecDeque<usize> = VecDeque::new();
    let mut i: usize = 0;
    while i < len
        invariant
            0 <= i <= len,
            objects@.len() == len,
            start.all_white(),
            start.slots.len() == len,
            forall|k: int|
                0 <= k < i ==> #[trigger] marking_at(Heap::of(objects@), start, worklist@, -1, k),
            forall|k: int| 0 <= k < i ==> !#[trigger] Heap::of(objects@).is_black(k),
            forall|k: int| i <= k < len ==> Heap::of(objects@).slots[k] == #[trigger] start.slots[k],
            forall|k: int|
                0 <= k < worklist@.len() ==> Heap::of(objects@).is_marked(
                    #[trigger] worklist@[k] as int,
                ),
        decreases len - i,
    {
        let ghost cur = Heap::of(objects@);
        let ghost queue = worklist@;
        let mut rooted = false;
        assert(cur.slots[i as int] == start.slots[i as int]);
        assert(start.live(i as int) ==> start.is_white(i as int));
        match &mut objects[i] {
            Some(object) => {
                if object.roots > 0 {
                    object.color = Color::Gray;
                    rooted = true;
                }
            },
            None => {},
        }
        if rooted {
            worklist.push_back(i);
        }
        proof {
            let now = Heap::of(objects@);
            if rooted {
                assert(now.slots =~= recolored(cur, i as int, Color::Gray).slots);
                assert(worklist@[queue.len() as int] == i);
                GcPtr::lemma_at(i as int);
                start.lemma_root_reachable(GcPtr::at(i as int));
            } else {
                assert(now.slots =~= cur.slots);
            }
            assert(darkened(cur, now));
            assert forall|k: int| 0 <= k < i + 1 implies #[trigger] marking_at(
                now,
                start,
                worklist@,
                -1,
                k,
            ) by {
                if k < i {
                    assert(marking_at(cur, start, queue, -1, k));
                    assert(!cur.is_black(k));
                    if cur.is_marked(k) {
                        let at = choose|at: int| 0 <= at < queue.len() && queue[at] == k as usize;
                        assert(worklist@[at] == k as usize);
                    }
                }
            }
            assert forall|k: int| 0 <= k < i + 1 implies !#[trigger] now.is_black(k) by {
                if k < i {
                    assert(!cur.is_black(k));
                }
            }
            assert forall|k: int| 0 <= k < worklist@.len() implies now.is_marked(
                #[trigger] worklist@[k] as int,
            ) by {
                if k < queue.len() {
                    assert(cur.is_marked(queue[k] as int));
                }
            }
        }
        i += 1;
    }
    worklist
}

/// Visits the marked objects that are left to visit, and every object that
/// they lead to. Fails with the handle where an object that is visited holds
/// one that denotes no live object.
pub(crate) fn mark_from<T: MarkSweepType>(
    objects: &mut Vec<Option<ObjectInfo<T>>>,
    worklist: VecDeque<usize>,
    Ghost(start): Ghost<Heap<T>>,
) -> (r: Result<(), GcPtr>)
    requires
        marking(Heap::of(old(objects)@), start, worklist@, -1),
    ensures
        Heap::of(final(objects)@).same_but_colors(start),
        match r {
            Ok(_) => start.traces_valid() && forall|i: int| #[trigger]
                start.live(i) ==> (Heap::of(final(objects)@).is_black(i) <==> start.reachable(
                    GcPtr::at(i),
                )),
            Err(h) => start.reachable(h) && !start.contains(h),
        },
{
    let mut worklist = worklist;
    let len = objects.len();
    while worklist.len() > 0
        invariant
            objects@.len() == len,
            marking(Heap::of(objects@), start, worklist@, -1),
        ensures
            objects@.len() == len,
            marking(Heap::of(objects@), start, worklist@, -1),
            worklist@.len() == 0,
        decreases 2 * Heap::of(objects@).white_upto(len as int) + worklist@.len(),
    {
        let ghost cur0 = Heap::of(objects@);
        let ghost queue0 = worklist@;
        let next = worklist.pop_front().unwrap();
        proof {
            assert(cur0.is_marked(queue0[0] as int));
            assert forall|i: int| 0 <= i < len implies #[trigger] marking_at(
                cur0,
                start,
                worklist@,
                next as int,
                i,
            ) by {
                assert(marking_at(cur0, start, queue0, -1, i));
                if i != next && cur0.is_marked(i) && !cur0.is_black(i) {
                    let at = choose|at: int| 0 <= at < queue0.len() && queue0[at] == i as usize;
                    assert(worklist@[at - 1] == i as usize);
                }
            }
            assert forall|k: int| 0 <= k < worklist@.len() implies cur0.is_marked(
                #[trigger] worklist@[k] as int,
            ) by {
                assert(worklist@[k] == queue0[k + 1]);
            }
            GcPtr::lemma_at(next as int);
            assert(marking_at(cur0, start, worklist@, next as int, next as int));
        }
        let object = objects[next].as_ref().unwrap();
        let refs = object.ty.trace(&object.payload, object.length);
        assert(refs@ == start.references(GcPtr::at(next as int)));
        let mut j: usize = 0;
        while j < refs.len()
            invariant
                0 <= j <= refs@.len(),
                objects@.len() == len,
                next < len,
                GcPtr::at(next as int).spec_raw() == next,
                start.contains(GcPtr::at(next as int)),
                start.reachable(GcPtr::at(next as int)),
                refs@ == start.references(GcPtr::at(next as int)),
                marking(Heap::of(objects@), start, worklist@, next as int),
                Heap::of(objects@).is_marked(next as int),
                refs_marked(Heap::of(objects@), start, next as int, j as int),
                2 * Heap::of(objects@).white_upto(len as int) + worklist@.len() < 2
                    * cur0.white_upto(len as int) + queue0.len(),
            decreases refs@.len() - j,
        {
            let ghost cur = Heap::of(objects@);
            let ghost queue = worklist@;
            let r = refs[j];
            let raw = r.raw();
            proof {
                GcPtr::lemma_raw_injective(r, r);
                start.lemma_reachable_step(GcPtr::at(next as int), r);
            }
            if raw >= len as u64 {
                proof {
                    assert forall|i: int| 0 <= i < len implies #[trigger] cur.same_at(start, i) by {
                        assert(marking_at(cur, start, queue, next as int, i));
                    }
                }
                return Err(r);
            }
            let place = raw as usize;
            assert(marking_at(cur, start, queue, next as int, place as int));
            let mut found = false;
            let mut fresh = false;
            match &mut objects[place] {
                Some(target) => {
                    found = true;
                    match target.color {
                        Color::White => {
                            target.color = Color::Gray;
                            fresh = true;
                        },
                        _ => {},
                    }
                },
                None => {},
            }
            if !found {
                proof {
                    assert(Heap::of(objects@).slots =~= cur.slots);
                    assert forall|i: int| 0 <= i < len implies #[trigger] cur.same_at(start, i) by {
                        assert(marking_at(cur, start, queue, next as int, i));
                    }
                }
                return Err(r);
            }
            if fresh {
                worklist.push_back(place);
            }
            proof {
                let now = Heap::of(objects@);
                if fresh {
                    assert(now.slots =~= recolored(cur, place as int, Color::Gray).slots);
                    cur.lemma_white_less(now, place as int, len as int);
                    assert(worklist@[queue.len() as int] == place);
                } else {
                    assert(now.slots =~= cur.slots);
                }
                assert(darkened(cur, now));
                assert forall|i: int| 0 <= i < len implies #[trigger] marking_at(
                    now,
                    start,
                    worklist@,
                    next as int,
                    i,
                ) by {
                    assert(marking_at(cur, start, queue, next as int, i));
                    if cur.is_marked(i) && !cur.is_black(i) && i != next {
                        let at = choose|at: int| 0 <= at < queue.len() && queue[at] == i as usize;
                        assert(worklist@[at] == i as usize);
                    }
                    if cur.is_black(i) {
                        lemma_refs_stay_marked(
                            cur,
                            now,
                            start,
                            i,
                            start.references(GcPtr::at(i)).len() as int,
                        );
                    }
                }
                assert forall|k: int| 0 <= k < worklist@.len() implies now.is_marked(
                    #[trigger] worklist@[k] as int,
                ) by {
                    if k < queue.len() {
                        assert(cur.is_marked(queue[k] as int));
                    }
                }
                lemma_refs_stay_marked(cur, now, start, next as int, j as int);
                assert(now.is_marked(place as int));
            }
            j += 1;
        }
        let ghost cur = Heap::of(objects@);
        let ghost queue = worklist@;
        match &mut objects[next] {
            Some(object) => {
                object.color = Color::Black;
            },
            None => {},
        }
        proof {
            let now = Heap::of(objects@);
            assert(now.slots =~= recolored(cur, next as int, Color::Black).slots);
            assert(darkened(cur, now));
            cur.lemma_white_same(now, len as int);
            assert forall|i: int| 0 <= i < len implies #[trigger] marking_at(
                now,
                start,
                queue,
                -1,
                i,
            ) by {
                assert(marking_at(cur, start, queue, next as int, i));
                if cur.is_black(i) || i == next {
                    lemma_refs_stay_marked(
                        cur,
                        now,
                        start,
                        i,
                        start.references(GcPtr::at(i)).len() as int,
                    );
                }
            }
            assert forall|k: int| 0 <= k < queue.len() implies now.is_marked(
                #[trigger] queue[k] as int,
            ) by {
                assert(cur.is_marked(queue[k] as int));
            }
        }
    }
    proof {
        let now = Heap::of(objects@);
        assert(worklist@ =~= Seq::<usize>::empty());
        assert forall|i: int| 0 <= i < len implies #[trigger] now.same_at(start, i) by {
            assert(marking_at(now, start, worklist@, -1, i));
        }
        assert forall|h: GcPtr| #[trigger] start.reachable(h) implies start.contains(h) by {
            let path = choose|path: Seq<GcPtr>| #[trigger] start.is_path(path) && path.last() == h;
            lemma_marking_complete(now, start, path, path.len() as int);
        }
        assert forall|i: int| #[trigger] start.live(i) implies (now.is_black(i)
            <==> start.reachable(GcPtr::at(i))) by {
            GcPtr::lemma_at(i);
            assert(marking_at(now, start, worklist@, -1, i));
            if start.reachable(GcPtr::at(i)) {
                let path = choose|path: Seq<GcPtr>| #[trigger]
                    start.is_path(path) && path.last() == GcPtr::at(i);
                lemma_marking_complete(now, start, path, path.len() as int);
            }
        }
    }
    Ok(())
}

/// Colors every object white.
pub(crate) fn whiten<T: MarkSweepType>(
    objects: &mut Vec<Option<ObjectInfo<T>>>,
    Ghost(start): Ghost<Heap<T>>,
)
    requires
        Heap::of(old(objects)@).same_but_colors(start),
        start.all_white(),
    ensures
        Heap::of(final(objects)@) == start,
{
    let ghost marked = Heap::of(objects@);
    let len = objects.len();
    let mut i: usize = 0;
    while i < len
        invariant
            0 <= i <= len,
            objects@.len() == len,
            start.slots.len() == len,
            start.all_white(),
            marked.same_but_colors(start),
            forall|k: int| 0 <= k < i ==> Heap::of(objects@).slots[k] == #[trigger] start.slots[k],
            forall|k: int| i <= k < len ==> Heap::of(objects@).slots[k] == #[trigger] marked.slots[k],
        decreases len - i,
    {
        let ghost cur = Heap::of(objects@);
        assert(cur.slots[i as int] == marked.slots[i as int]);
        assert(marked.same_at(start, i as int));
        assert(start.live(i as int) ==> start.is_white(i as int));
        let mut live = false;
        match &mut objects[i] {
            Some(object) => {
                object.color = Color::White;
                live = true;
            },
            None => {},
        }
        proof {
            let now = Heap::of(objects@);
            if live {
                assert(now.slots =~= recolored(cur, i as int, Color::White).slots);
            } else {
                assert(now.slots =~= cur.slots);
            }
        }
        i += 1;
    }
    assert(Heap::of(objects@).slots =~= start.slots);
}

/// Frees every object that is not black and colors the others white. Returns
/// the handles of the objects freed, in the order of their numbers, and the
/// sum of the sizes of their value layouts.
pub(crate) fn sweep<T: MarkSweepType>(
    objects: &mut Vec<Option<ObjectInfo<T>>>,
    Ghost(start): Ghost<Heap<T>>,
) -> (r: (Vec<GcPtr>, u128))
    requires
        Heap::of(old(objects)@).same_but_colors(start),
        start.all_white(),
        forall|i: int| #[trigger]
            start.live(i) ==> (Heap::of(old(objects)@).is_black(i) <==> start.reachable(
                GcPtr::at(i),
            )),
    ensures
        Heap::of(final(objects)@) == start.collected(),
        r.0@ == start.garbage(),
        start.total_size() == start.collected().total_size() + r.1,
{
    let ghost marked = Heap::of(objects@);
    let ghost goal = start.collected();
    let len = objects.len();
    let mut freed: Vec<GcPtr> = Vec::new();
    let mut bytes: u128 = 0;
    let mut i: usize = 0;
    while i < len
        invariant
            0 <= i <= len,
            objects@.len() == len,
            start.slots.len() == len,
            start.all_white(),
            marked.same_but_colors(start),
            goal == start.collected(),
            forall|k: int| #[trigger]
                start.live(k) ==> (marked.is_black(k) <==> start.reachable(GcPtr::at(k))),
            forall|k: int| 0 <= k < i ==> Heap::of(objects@).slots[k] == #[trigger] goal.slots[k],
            forall|k: int| i <= k < len ==> Heap::of(objects@).slots[k] == #[trigger] marked.slots[k],
            freed@ == start.garbage_upto(i as int),
            start.total_size_upto(i as int) == goal.total_size_upto(i as int) + bytes,
        decreases len - i,
    {
        let ghost cur = Heap::of(objects@);
        assert(cur.slots[i as int] == marked.slots[i as int]);
        assert(marked.same_at(start, i as int));
        assert(start.live(i as int) ==> start.is_white(i as int));
        assert(start.live(i as int) ==> (marked.is_black(i as int) <==> start.reachable(
            GcPtr::at(i as int),
        )));
        let mut garbage: Option<usize> = None;
        let mut kept = false;
        match &mut objects[i] {
            Some(object) => {
                match object.color {
                    Color::Black => {
                        object.color = Color::White;
                        kept = true;
                    },
                    _ => {
                        garbage = Some(object.value_size());
                    },
                }
            },
            None => {},
        }
        proof {
            let now = Heap::of(objects@);
            if kept {
                assert(now.slots =~= recolored(cur, i as int, Color::White).slots);
            } else {
                assert(now.slots =~= cur.slots);
            }
        }
        match garbage {
            Some(size) => {
                let ghost held = Heap::of(objects@);
                objects[i] = None;
                let handle = GcPtr::from_raw(i as u64);
                proof {
                    assert(Heap::of(objects@).slots =~= held.slots.update(i as int, None));
                    GcPtr::lemma_raw_injective(handle, handle);
                    start.lemma_total_size_bound(i as int);
                    assert(i * usize::MAX + usize::MAX <= u128::MAX) by (nonlinear_arith)
                        requires
                            i <= usize::MAX,
                            usize::MAX <= 0xffff_ffff_ffff_ffff,
                    ;
                }
                freed.push(handle);
                bytes = bytes + size as u128;
            },
            None => {},
        }
        i += 1;
    }
    assert(Heap::of(objects@).slots =~= goal.slots);
    (freed, bytes)
}

} // verus!
