//! The passes of a migration over the table of a collector: which objects
//! have a type that is gone, the exchange of types whose layout stays, and
//! the conversion of the objects whose layout changes.

use crate::bytes::zeroed;
use crate::cast::CastTable;
use crate::gc::{GcPtr, MarkSweepType, ObjectInfo, ObjectView};
use crate::heap::Heap;
use crate::mapping::{is_same_type, map_fields, Conversion, Mapping, Migration};
use vstd::prelude::*;

verus! {

/// Whether `ty` is one of `types`.
pub open spec fn type_listed<T: MarkSweepType>(types: Seq<T>, ty: T) -> bool {
    exists|k: int| 0 <= k < types.len() && crate::mapping::same_type(#[trigger] types[k], ty)
}

/// Whether `ty` is one of `types`.
pub fn is_listed<T: MarkSweepType>(types: &Vec<T>, ty: &T) -> (listed: bool)
    ensures
        listed == type_listed(types@, *ty),
{
    let mut k: usize = 0;
    while k < types.len()
        invariant
            0 <= k <= types@.len(),
            forall|j: int| 0 <= j < k ==> !crate::mapping::same_type(#[trigger] types@[j], *ty),
        decreases types@.len() - k,
    {
        if is_same_type(&types[k], ty) {
            return true;
        }
        k += 1;
    }
    false
}

/// The handles among the first `n` whose object has a type that is gone, in
/// the order of their numbers.
pub open spec fn deleted_upto<T: MarkSweepType>(heap: Heap<T>, deletions: Seq<T>, n: int) -> Seq<
    GcPtr,
>
    decreases n,
{
    if n <= 0 {
        Seq::empty()
    } else if heap.live(n - 1) && type_listed(deletions, heap.slots[n - 1]->Some_0.ty) {
        deleted_upto(heap, deletions, n - 1).push(GcPtr::at(n - 1))
    } else {
        deleted_upto(heap, deletions, n - 1)
    }
}

/// The handles whose object has a type that is gone, in the order of their
/// numbers.
pub open spec fn deleted<T: MarkSweepType>(heap: Heap<T>, deletions: Seq<T>) -> Seq<GcPtr> {
    deleted_upto(heap, deletions, heap.slots.len() as int)
}

/// Collects the handles of the objects whose type is gone.
pub fn find_deleted<T: MarkSweepType>(objects: &Vec<Option<ObjectInfo<T>>>, deletions: &Vec<T>) -> (r:
    Vec<GcPtr>)
    ensures
        r@ == deleted(Heap::of(objects@), deletions@),
{
    let ghost heap = Heap::of(objects@);
    let mut found: Vec<GcPtr> = Vec::new();
    let mut i: usize = 0;
    while i < objects.len()
        invariant
            0 <= i <= objects@.len(),
            heap == Heap::of(objects@),
            found@ == deleted_upto(heap, deletions@, i as int),
        decreases objects@.len() - i,
    {
        let gone = match &objects[i] {
            Some(object) => is_listed(deletions, &object.ty),
            None => false,
        };
        if gone {
            let handle = GcPtr::from_raw(i as u64);
            proof {
                GcPtr::lemma_raw_injective(handle, handle);
            }
            found.push(handle);
        }
        i += 1;
    }
    found
}

/// The type that an object of type `ty` has after the first `n` pairs of
/// types whose layout stays were applied, in their order: each pair whose old
/// type is the object's type at that point gives it its new type.
pub open spec fn retagged<T: MarkSweepType>(ty: T, identical: Seq<(T, T)>, n: int) -> T
    decreases n,
{
    if n <= 0 {
        ty
    } else if crate::mapping::same_type(retagged(ty, identical, n - 1), identical[n - 1].0) {
        identical[n - 1].1
    } else {
        retagged(ty, identical, n - 1)
    }
}

/// The heap after the first `n` pairs of types whose layout stays were
/// applied to every object.
pub open spec fn retagged_heap<T: MarkSweepType>(
    heap: Heap<T>,
    identical: Seq<(T, T)>,
    n: int,
) -> Heap<T> {
    Heap {
        slots: Seq::new(
            heap.slots.len(),
            |i: int|
                match heap.slots[i] {
                    Some(record) => Some(
                        ObjectView { ty: retagged(record.ty, identical, n), ..record },
                    ),
                    None => None,
                },
        ),
    }
}

/// Gives every object whose type is the old type of a pair the new type of
/// that pair, pair by pair.
pub fn retag_objects<T: MarkSweepType>(
    objects: &mut Vec<Option<ObjectInfo<T>>>,
    identical: &Vec<(T, T)>,
)
    ensures
        Heap::of(final(objects)@) == retagged_heap(
            Heap::of(old(objects)@),
            identical@,
            identical@.len() as int,
        ),
{
    let ghost start = Heap::of(objects@);
    let len = objects.len();
    let mut p: usize = 0;
    assert(Heap::of(objects@).slots =~= retagged_heap(start, identical@, 0).slots);
    while p < identical.len()
        invariant
            0 <= p <= identical@.len(),
            objects@.len() == len,
            start.slots.len() == len,
            Heap::of(objects@) == retagged_heap(start, identical@, p as int),
        decreases identical@.len() - p,
    {
        let ghost before = retagged_heap(start, identical@, p as int);
        let ghost after = retagged_heap(start, identical@, p + 1);
        let mut i: usize = 0;
        while i < len
            invariant
                0 <= i <= len,
                0 <= p < identical@.len(),
                objects@.len() == len,
                start.slots.len() == len,
                before == retagged_heap(start, identical@, p as int),
                after == retagged_heap(start, identical@, p + 1),
                forall|k: int| 0 <= k < i ==> Heap::of(objects@).slots[k] == #[trigger] after.slots[k],
                forall|k: int|
                    i <= k < len ==> Heap::of(objects@).slots[k] == #[trigger] before.slots[k],
            decreases len - i,
        {
            let ghost cur = Heap::of(objects@);
            assert(cur.slots[i as int] == before.slots[i as int]);
            let mut changed = false;
            match &mut objects[i] {
                Some(object) => {
                    if is_same_type(&object.ty, &identical[p].0) {
                        object.ty = identical[p].1.clone_type();
                        changed = true;
                    }
                },
                None => {},
            }
            proof {
                let now = Heap::of(objects@);
                if changed {
                    assert(now.slots =~= cur.slots.update(
                        i as int,
                        Some(ObjectView { ty: identical@[p as int].1, ..cur.slots[i as int]->Some_0 }),
                    ));
                } else {
                    assert(now.slots =~= cur.slots);
                }
            }
            i += 1;
        }
        assert(Heap::of(objects@).slots =~= after.slots);
        p += 1;
    }
}

/// How far the conversion of the objects has come: the table, and the
/// objects allocated on the way, which enter the table at the end.
pub struct Progress<T> {
    pub heap: Heap<T>,
    pub allocs: Seq<ObjectView<T>>,
}

/// The state after conversion number `c` was applied to place `i`: where the
/// place holds an object of the conversion's old type, the object has the new
/// type and a payload of as many bytes as the new type's layout has, zero but
/// for what the field mappings wrote; what else the record holds stays.
/// Conversions of structs within structs nest as deep as the plan has
/// conversions.
pub open spec fn convert_object<T: MarkSweepType>(
    progress: Progress<T>,
    conversions: Seq<(T, Conversion<T>)>,
    c: int,
    i: int,
) -> Progress<T> {
    if progress.heap.live(i) && crate::mapping::same_type(
        progress.heap.slots[i]->Some_0.ty,
        conversions[c].0,
    ) {
        let record = progress.heap.slots[i]->Some_0;
        let conversion = conversions[c].1;
        let made = crate::mapping::map_fields_spec(
            progress.heap,
            conversions,
            conversion.field_mapping@,
            0,
            record.payload,
            0,
            Migration {
                dest: crate::bytes::zeros(conversion.new_ty.layout_spec().spec_size() as nat),
                allocs: progress.allocs,
            },
            0,
            conversions.len(),
        );
        Progress {
            heap: Heap {
                slots: progress.heap.slots.update(
                    i,
                    Some(ObjectView { payload: made.dest, ty: conversion.new_ty, ..record }),
                ),
            },
            allocs: made.allocs,
        }
    } else {
        progress
    }
}

/// The state after conversion number `c` was applied to the first `n` places,
/// in their order.
pub open spec fn convert_objects<T: MarkSweepType>(
    progress: Progress<T>,
    conversions: Seq<(T, Conversion<T>)>,
    c: int,
    n: int,
) -> Progress<T>
    decreases n,
{
    if n <= 0 {
        progress
    } else {
        convert_object(convert_objects(progress, conversions, c, n - 1), conversions, c, n - 1)
    }
}

/// The state after the first `m` conversions were applied to every place, in
/// their order.
pub open spec fn convert_all<T: MarkSweepType>(
    progress: Progress<T>,
    conversions: Seq<(T, Conversion<T>)>,
    m: int,
) -> Progress<T>
    decreases m,
{
    if m <= 0 {
        progress
    } else {
        convert_objects(
            convert_all(progress, conversions, m - 1),
            conversions,
            m - 1,
            progress.heap.slots.len() as int,
        )
    }
}

/// The state that a table and a list of new objects stand for.
pub open spec fn progress_of<T: MarkSweepType>(
    objects: Seq<Option<ObjectInfo<T>>>,
    allocs: Seq<ObjectInfo<T>>,
) -> Progress<T> {
    Progress { heap: Heap::of(objects), allocs: crate::mapping::views(allocs) }
}

/// Whether place `i` holds in `after` what it holds in `before`, but for the
/// payload and the type.
pub open spec fn framed_at<T: MarkSweepType>(before: Heap<T>, after: Heap<T>, i: int) -> bool {
    match (before.slots[i], after.slots[i]) {
        (Some(a), Some(b)) => b == (ObjectView { payload: b.payload, ty: b.ty, ..a }),
        (None, None) => true,
        _ => false,
    }
}

/// Whether the object at place `i` went through the first `c` conversions:
/// it has the new type of one of them, or none of them has its type as the
/// old type and it is as it was.
pub open spec fn converted_at<T: MarkSweepType>(
    before: Heap<T>,
    after: Heap<T>,
    conversions: Seq<(T, Conversion<T>)>,
    c: int,
    i: int,
) -> bool {
    &&& framed_at(before, after, i)
    &&& before.live(i) ==> {
        ||| exists|j: int|
            0 <= j < c && after.slots[i]->Some_0.ty == (#[trigger] conversions[j]).1.new_ty
                && after.slots[i]->Some_0.payload.len()
                == conversions[j].1.new_ty.layout_spec().spec_size()
        ||| after.slots[i] == before.slots[i] && forall|j: int|
            0 <= j < c ==> !crate::mapping::same_type(
                before.slots[i]->Some_0.ty,
                (#[trigger] conversions[j]).0,
            )
    }
}

/// Converts every object whose type is the old type of a conversion,
/// conversion by conversion, and returns the objects allocated on the way.
pub fn convert<T: MarkSweepType>(
    objects: &mut Vec<Option<ObjectInfo<T>>>,
    table: &CastTable,
    conversions: &Vec<(T, Conversion<T>)>,
) -> (new_allocations: Vec<ObjectInfo<T>>)
    requires
        table.wf(),
    ensures
        progress_of(final(objects)@, new_allocations@) == convert_all(
            progress_of(old(objects)@, Seq::empty()),
            conversions@,
            conversions@.len() as int,
        ),
        final(objects)@.len() == old(objects)@.len(),
        forall|i: int|
            0 <= i < old(objects)@.len() ==> #[trigger] converted_at(
                Heap::of(old(objects)@),
                Heap::of(final(objects)@),
                conversions@,
                conversions@.len() as int,
                i,
            ),
        crate::mapping::all_fresh(crate::mapping::views(new_allocations@)),
        crate::mapping::plan_without_arrays(conversions@) ==> crate::mapping::all_sized(
            crate::mapping::views(new_allocations@),
        ),
{
    let ghost start = Heap::of(objects@);
    let ghost origin = progress_of(objects@, Seq::empty());
    let len = objects.len();
    let mut new_allocations: Vec<ObjectInfo<T>> = Vec::new();
    assert(crate::mapping::views(new_allocations@) =~= Seq::<ObjectView<T>>::empty());
    assert(crate::mapping::views(Seq::<ObjectInfo<T>>::empty()) =~= Seq::<ObjectView<T>>::empty());
    let mut c: usize = 0;
    while c < conversions.len()
        invariant
            0 <= c <= conversions@.len(),
            table.wf(),
            objects@.len() == len,
            start.slots.len() == len,
            origin.heap == start,
            progress_of(objects@, new_allocations@) == convert_all(origin, conversions@, c as int),
            forall|i: int|
                0 <= i < len ==> #[trigger] converted_at(
                    start,
                    Heap::of(objects@),
                    conversions@,
                    c as int,
                    i,
                ),
            crate::mapping::all_fresh(crate::mapping::views(new_allocations@)),
            crate::mapping::plan_without_arrays(conversions@) ==> crate::mapping::all_sized(
                crate::mapping::views(new_allocations@),
            ),
        decreases conversions@.len() - c,
    {
        let ghost round = convert_all(origin, conversions@, c as int);
        let mut i: usize = 0;
        while i < len
            invariant
                0 <= i <= len,
                0 <= c < conversions@.len(),
                table.wf(),
                objects@.len() == len,
                start.slots.len() == len,
                progress_of(objects@, new_allocations@) == convert_objects(
                    round,
                    conversions@,
                    c as int,
                    i as int,
                ),
                forall|k: int|
                    0 <= k < i ==> #[trigger] converted_at(
                        start,
                        Heap::of(objects@),
                        conversions@,
                        c + 1,
                        k,
                    ),
                forall|k: int|
                    i <= k < len ==> #[trigger] converted_at(
                        start,
                        Heap::of(objects@),
                        conversions@,
                        c as int,
                        k,
                    ),
                crate::mapping::all_fresh(crate::mapping::views(new_allocations@)),
                crate::mapping::plan_without_arrays(conversions@) ==> crate::mapping::all_sized(
                    crate::mapping::views(new_allocations@),
                ),
            decreases len - i,
        {
            let ghost cur = Heap::of(objects@);
            let ghost allocs = crate::mapping::views(new_allocations@);
            assert(converted_at(start, cur, conversions@, c as int, i as int));
            let hit = match &objects[i] {
                Some(object) => is_same_type(&object.ty, &conversions[c].0),
                None => false,
            };
            if hit {
                let conversion = &conversions[c].1;
                let mut dest = zeroed(conversion.new_ty.layout().size());
                let object = objects[i].as_ref().unwrap();
                map_fields(
                    objects,
                    table,
                    conversions,
                    &conversion.field_mapping,
                    &object.payload,
                    0,
                    &mut dest,
                    0,
                    &mut new_allocations,
                    conversions.len(),
                );
                let ghost made = dest@;
                match &mut objects[i] {
                    Some(object) => {
                        object.payload = dest;
                        object.ty = conversion.new_ty.clone_type();
                    },
                    None => {},
                }
                proof {
                    let now = Heap::of(objects@);
                    assert(now.slots =~= cur.slots.update(
                        i as int,
                        Some(
                            ObjectView {
                                payload: made,
                                ty: conversions@[c as int].1.new_ty,
                                ..cur.slots[i as int]->Some_0
                            },
                        ),
                    ));
                }
            }
            proof {
                let now = Heap::of(objects@);
                if !hit {
                    assert(now.slots =~= cur.slots);
                }
                assert forall|k: int| 0 <= k < i + 1 implies #[trigger] converted_at(
                    start,
                    now,
                    conversions@,
                    c + 1,
                    k,
                ) by {
                    if k < i {
                        assert(converted_at(start, cur, conversions@, c + 1, k));
                    } else {
                        assert(converted_at(start, cur, conversions@, c as int, k));
                        if hit {
                            assert(conversions@[c as int].1.new_ty == now.slots[k]->Some_0.ty);
                        }
                    }
                }
                assert forall|k: int| i + 1 <= k < len implies #[trigger] converted_at(
                    start,
                    now,
                    conversions@,
                    c as int,
                    k,
                ) by {
                    assert(converted_at(start, cur, conversions@, c as int, k));
                }
            }
            i += 1;
        }
        c += 1;
    }
    new_allocations
}

/// The state after a migration, before the new objects enter the table: the
/// pairs of types whose layout stays are applied first, then the conversions.
pub open spec fn migrated<T: MarkSweepType>(heap: Heap<T>, mapping: Mapping<T>) -> Progress<T> {
    convert_all(
        Progress {
            heap: retagged_heap(heap, mapping.identical@, mapping.identical@.len() as int),
            allocs: Seq::empty(),
        },
        mapping.conversions@,
        mapping.conversions@.len() as int,
    )
}

/// The table after the new objects entered it, in the order of their
/// allocation.
pub open spec fn committed<T: MarkSweepType>(progress: Progress<T>) -> Heap<T> {
    Heap {
        slots: progress.heap.slots + progress.allocs.map_values(
            |record: ObjectView<T>| Some(record),
        ),
    }
}

/// Whether an object that had the type `before` may have the type `after`
/// when the migration is done: `after` is the new type of a conversion or of
/// a pair of types whose layout stays, or it is `before`, which is then the
/// old type of neither.
pub open spec fn settled<T: MarkSweepType>(mapping: Mapping<T>, before: T, after: T) -> bool {
    ||| exists|j: int|
        0 <= j < mapping.conversions@.len() && after == (#[trigger] mapping.conversions@[j]).1.new_ty
    ||| exists|k: int|
        0 <= k < mapping.identical@.len() && after == (#[trigger] mapping.identical@[k]).1
    ||| {
        &&& after == before
        &&& forall|j: int|
            0 <= j < mapping.conversions@.len() ==> !crate::mapping::same_type(
                before,
                (#[trigger] mapping.conversions@[j]).0,
            )
        &&& forall|k: int|
            0 <= k < mapping.identical@.len() ==> !crate::mapping::same_type(
                before,
                (#[trigger] mapping.identical@[k]).0,
            )
    }
}

/// The type that the pairs of types whose layout stays give an object is the
/// new type of one of the first `n` pairs, or the object's own type, which is
/// then the old type of none of them.
pub proof fn lemma_retagged<T: MarkSweepType>(ty: T, identical: Seq<(T, T)>, n: int)
    requires
        0 <= n <= identical.len(),
    ensures
        (exists|k: int| 0 <= k < n && retagged(ty, identical, n) == (#[trigger] identical[k]).1)
            || (retagged(ty, identical, n) == ty && forall|k: int|
            0 <= k < n ==> !crate::mapping::same_type(ty, (#[trigger] identical[k]).0)),
    decreases n,
{
    if n > 0 {
        lemma_retagged(ty, identical, n - 1);
        if crate::mapping::same_type(retagged(ty, identical, n - 1), identical[n - 1].0) {
            assert(retagged(ty, identical, n) == identical[n - 1].1);
        } else if retagged(ty, identical, n - 1) != ty {
            let k = choose|k: int|
                0 <= k < n - 1 && retagged(ty, identical, n - 1) == (#[trigger] identical[k]).1;
            assert(retagged(ty, identical, n) == identical[k].1);
        }
    }
}

/// Whether the plan names `ty`: as a type that is gone, as the old type of a
/// pair of types whose layout stays, or as the old type of a conversion.
pub open spec fn named_by<T: MarkSweepType>(mapping: Mapping<T>, ty: T) -> bool {
    ||| type_listed(mapping.deletions@, ty)
    ||| exists|k: int|
        0 <= k < mapping.identical@.len() && crate::mapping::same_type(
            ty,
            (#[trigger] mapping.identical@[k]).0,
        )
    ||| exists|j: int|
        0 <= j < mapping.conversions@.len() && crate::mapping::same_type(
            ty,
            (#[trigger] mapping.conversions@[j]).0,
        )
}

/// Whether `ty` is the new type of a pair of types whose layout stays or of a
/// conversion.
pub open spec fn on_new_side<T: MarkSweepType>(mapping: Mapping<T>, ty: T) -> bool {
    ||| exists|k: int|
        0 <= k < mapping.identical@.len() && ty == (#[trigger] mapping.identical@[k]).1
    ||| exists|j: int|
        0 <= j < mapping.conversions@.len() && ty == (#[trigger] mapping.conversions@[j]).1.new_ty
}

/// The handles found among the first `n` are those of the live objects there
/// whose type is gone.
pub proof fn lemma_deleted_upto<T: MarkSweepType>(
    heap: Heap<T>,
    deletions: Seq<T>,
    n: int,
    i: int,
)
    requires
        0 <= i < n <= u64::MAX,
    ensures
        deleted_upto(heap, deletions, n).contains(GcPtr::at(i)) <==> heap.live(i) && type_listed(
            deletions,
            heap.slots[i]->Some_0.ty,
        ),
    decreases n,
{
    let found = deleted_upto(heap, deletions, n);
    let before = deleted_upto(heap, deletions, n - 1);
    let gone = heap.live(n - 1) && type_listed(deletions, heap.slots[n - 1]->Some_0.ty);
    GcPtr::lemma_at(i);
    GcPtr::lemma_at(n - 1);
    if i < n - 1 {
        lemma_deleted_upto(heap, deletions, n - 1, i);
        if gone {
            if before.contains(GcPtr::at(i)) {
                let at = choose|at: int| 0 <= at < before.len() && before[at] == GcPtr::at(i);
                assert(found[at] == GcPtr::at(i));
            }
            if found.contains(GcPtr::at(i)) {
                let at = choose|at: int| 0 <= at < found.len() && found[at] == GcPtr::at(i);
                assert(at < before.len());
                assert(before[at] == GcPtr::at(i));
            }
        }
    } else {
        if gone {
            assert(found[before.len() as int] == GcPtr::at(i));
        } else if found.contains(GcPtr::at(i)) {
            let at = choose|at: int| 0 <= at < found.len() && found[at] == GcPtr::at(i);
            lemma_deleted_below(heap, deletions, n - 1, at);
        }
    }
}

/// Every handle found among the first `n` has a number below `n`.
pub proof fn lemma_deleted_below<T: MarkSweepType>(
    heap: Heap<T>,
    deletions: Seq<T>,
    n: int,
    at: int,
)
    requires
        0 <= n <= u64::MAX,
        0 <= at < deleted_upto(heap, deletions, n).len(),
    ensures
        deleted_upto(heap, deletions, n)[at].spec_raw() < n,
    decreases n,
{
    if n > 0 {
        let before = deleted_upto(heap, deletions, n - 1);
        GcPtr::lemma_at(n - 1);
        if at < before.len() {
            lemma_deleted_below(heap, deletions, n - 1, at);
        }
    }
}

/// After a migration, an object that was live before it and whose type the
/// plan names has a type on the new side of the plan, or it has the type that
/// it had, that type is gone, and its handle is among those that the
/// migration returns.
pub proof fn lemma_types_after_migration<T: MarkSweepType>(
    heap: Heap<T>,
    mapping: Mapping<T>,
    after: T,
    i: int,
)
    requires
        heap.live(i),
        heap.slots.len() <= u64::MAX,
        named_by(mapping, heap.slots[i]->Some_0.ty),
        settled(mapping, heap.slots[i]->Some_0.ty, after),
    ensures
        on_new_side(mapping, after) || (after == heap.slots[i]->Some_0.ty && type_listed(
            mapping.deletions@,
            after,
        ) && deleted(heap, mapping.deletions@).contains(GcPtr::at(i))),
{
    if !on_new_side(mapping, after) {
        lemma_deleted_upto(heap, mapping.deletions@, heap.slots.len() as int, i);
    }
}

/// A plan without conversions allocates nothing and changes no payload: each
/// object is as it was, but for its type.
pub proof fn lemma_identical_only<T: MarkSweepType>(heap: Heap<T>, mapping: Mapping<T>)
    requires
        mapping.conversions@.len() == 0,
    ensures
        migrated(heap, mapping).allocs.len() == 0,
        committed(migrated(heap, mapping)) == retagged_heap(
            heap,
            mapping.identical@,
            mapping.identical@.len() as int,
        ),
        committed(migrated(heap, mapping)).slots.len() == heap.slots.len(),
        forall|i: int| #[trigger]
            heap.live(i) ==> committed(migrated(heap, mapping)).live(i) && committed(
                migrated(heap, mapping),
            ).slots[i]->Some_0.payload == heap.slots[i]->Some_0.payload && framed_at(
                heap,
                committed(migrated(heap, mapping)),
                i,
            ),
{
    let tagged = retagged_heap(heap, mapping.identical@, mapping.identical@.len() as int);
    let after = committed(migrated(heap, mapping));
    assert(after.slots =~= tagged.slots);
}

/// A pair of types whose layout stays that gives a type itself changes
/// nothing: where each pair gives every type that it applies to that same
/// type, the heap is after the migration what it was before.
pub proof fn lemma_identical_to_itself<T: MarkSweepType>(heap: Heap<T>, mapping: Mapping<T>)
    requires
        mapping.conversions@.len() == 0,
        forall|i: int, k: int|
            #![trigger heap.live(i), mapping.identical@[k]]
            heap.live(i) && 0 <= k < mapping.identical@.len() && crate::mapping::same_type(
                heap.slots[i]->Some_0.ty,
                mapping.identical@[k].0,
            ) ==> mapping.identical@[k].1 == heap.slots[i]->Some_0.ty,
    ensures
        committed(migrated(heap, mapping)) == heap,
{
    lemma_identical_only(heap, mapping);
    let after = committed(migrated(heap, mapping));
    assert forall|i: int| 0 <= i < heap.slots.len() implies after.slots[i] == heap.slots[i] by {
        if heap.live(i) {
            lemma_retag_to_itself(
                heap,
                mapping.identical@,
                i,
                mapping.identical@.len() as int,
            );
        }
    }
    assert(after.slots =~= heap.slots);
}

/// Pairs that give the type of an object itself leave the object's type.
proof fn lemma_retag_to_itself<T: MarkSweepType>(
    heap: Heap<T>,
    identical: Seq<(T, T)>,
    i: int,
    n: int,
)
    requires
        heap.live(i),
        0 <= n <= identical.len(),
        forall|j: int, k: int|
            #![trigger heap.live(j), identical[k]]
            heap.live(j) && 0 <= k < identical.len() && crate::mapping::same_type(
                heap.slots[j]->Some_0.ty,
                identical[k].0,
            ) ==> identical[k].1 == heap.slots[j]->Some_0.ty,
    ensures
        retagged(heap.slots[i]->Some_0.ty, identical, n) == heap.slots[i]->Some_0.ty,
    decreases n,
{
    if n > 0 {
        lemma_retag_to_itself(heap, identical, i, n - 1);
        assert(heap.live(i) && identical[n - 1] == identical[n - 1]);
    }
}

/// Puts the new objects into the table, in the order of their allocation.
pub fn commit<T: MarkSweepType>(
    objects: &mut Vec<Option<ObjectInfo<T>>>,
    new_allocations: Vec<ObjectInfo<T>>,
)
    ensures
        Heap::of(final(objects)@) == committed(progress_of(old(objects)@, new_allocations@)),
        final(objects)@.len() == old(objects)@.len() + new_allocations@.len(),
{
    let ghost all = new_allocations@;
    let ghost base = objects@;
    let n = new_allocations.len();
    let mut rest = new_allocations;
    let mut reversed: Vec<ObjectInfo<T>> = Vec::new();
    while rest.len() > 0
        invariant
            rest@.len() + reversed@.len() == n,
            all.len() == n,
            rest@ == all.subrange(0, rest@.len() as int),
            forall|k: int| 0 <= k < reversed@.len() ==> #[trigger] reversed@[k] == all[n - 1 - k],
        decreases rest@.len(),
    {
        let object = rest.pop().unwrap();
        reversed.push(object);
    }
    while reversed.len() > 0
        invariant
            reversed@.len() <= n,
            all.len() == n,
            forall|k: int| 0 <= k < reversed@.len() ==> #[trigger] reversed@[k] == all[n - 1 - k],
            objects@.len() == base.len() + (n - reversed@.len()),
            forall|k: int| 0 <= k < base.len() ==> #[trigger] objects@[k] == base[k],
            forall|k: int|
                0 <= k < n - reversed@.len() ==> #[trigger] objects@[base.len() + k] == Some(
                    all[k],
                ),
        decreases reversed@.len(),
    {
        let object = reversed.pop().unwrap();
        objects.push(Some(object));
    }
    let ghost goal = committed(progress_of(base, all));
    assert(goal.slots.len() == base.len() + n);
    assert forall|i: int| 0 <= i < base.len() + n implies Heap::of(objects@).slots[i]
        == goal.slots[i] by {
        if i < base.len() {
            assert(objects@[i] == base[i]);
        } else {
            assert(objects@[base.len() + (i - base.len())] == Some(all[i - base.len()]));
        }
    }
    assert(Heap::of(objects@).slots =~= goal.slots);
}

} // verus!
