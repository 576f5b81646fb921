//! The mathematical model of a heap: a table of object records, what is
//! reachable in it, and what a collection leaves of it.

use crate::gc::{Color, Event, GcPtr, MarkSweepType, ObjectInfo, ObjectView};
use vstd::prelude::*;

verus! {

/// The table of a collector. The record of the handle with number `i` stands
/// at place `i`; a place without a record is free.
pub struct Heap<T> {
    pub slots: Seq<Option<ObjectView<T>>>,
}

impl<T: MarkSweepType> Heap<T> {
    /// The records of a table as a heap.
    pub open spec fn of(objects: Seq<Option<ObjectInfo<T>>>) -> Heap<T> {
        Heap {
            slots: Seq::new(
                objects.len(),
                |i: int|
                    match objects[i] {
                        Some(object) => Some(object@),
                        None => None,
                    },
            ),
        }
    }

    /// Whether place `i` holds an object.
    pub open spec fn live(self, i: int) -> bool {
        0 <= i < self.slots.len() && self.slots[i] is Some
    }

    /// Whether place `i` holds a white object.
    pub open spec fn is_white(self, i: int) -> bool {
        self.live(i) && self.slots[i]->Some_0.color == Color::White
    }

    /// Whether place `i` holds an object that is not white.
    pub open spec fn is_marked(self, i: int) -> bool {
        self.live(i) && self.slots[i]->Some_0.color != Color::White
    }

    /// Whether place `i` holds a black object.
    pub open spec fn is_black(self, i: int) -> bool {
        self.live(i) && self.slots[i]->Some_0.color == Color::Black
    }

    /// Whether every object is white.
    pub open spec fn all_white(self) -> bool {
        forall|i: int| #[trigger] self.live(i) ==> self.is_white(i)
    }

    /// Whether no object stores more elements than it has room for.
    pub open spec fn lengths_fit(self) -> bool {
        forall|i: int| #[trigger]
            self.live(i) ==> self.slots[i]->Some_0.length <= self.slots[i]->Some_0.capacity
    }

    /// Whether an object owns as many bytes as the value layout of its type
    /// and capacity asks for.
    pub open spec fn record_sized(record: ObjectView<T>) -> bool {
        crate::gc::value_layout_spec(record.ty, record.capacity) is Ok
            && crate::gc::value_layout_spec(record.ty, record.capacity)->Ok_0.0
            == record.payload.len()
    }

    /// Whether the object at place `i` owns as many bytes as the value layout
    /// of its type and capacity asks for.
    pub open spec fn sized_at(self, i: int) -> bool {
        Self::record_sized(self.slots[i]->Some_0)
    }

    /// Whether every object owns as many bytes as the value layout of its
    /// type and capacity asks for.
    pub open spec fn payloads_sized(self) -> bool {
        forall|i: int| #[trigger] self.live(i) ==> self.sized_at(i)
    }

    /// What holds of every object of a heap holds of every object of another
    /// heap that has these objects and at most one more, at place `k`, where
    /// it holds of that one.
    pub proof fn lemma_one_place_changed(self, after: Heap<T>, k: int)
        requires
            forall|i: int|
                i != k && #[trigger] after.live(i) ==> self.live(i) && after.slots[i]
                    == self.slots[i],
        ensures
            self.all_white() && (after.live(k) ==> after.is_white(k)) ==> after.all_white(),
            self.lengths_fit() && (after.live(k) ==> after.slots[k]->Some_0.length
                <= after.slots[k]->Some_0.capacity) ==> after.lengths_fit(),
            self.payloads_sized() && (after.live(k) ==> after.sized_at(k))
                ==> after.payloads_sized(),
    {
        assert forall|i: int| i != k && #[trigger] after.live(i) implies (self.all_white()
            ==> after.is_white(i)) && (self.lengths_fit() ==> after.slots[i]->Some_0.length
            <= after.slots[i]->Some_0.capacity) && (self.payloads_sized() ==> after.sized_at(i)) by {
            assert(self.live(i));
        }
    }

    /// The number of white objects at the first `n` places.
    pub open spec fn white_upto(self, n: int) -> nat
        decreases n,
    {
        if n <= 0 {
            0
        } else if self.is_white(n - 1) {
            self.white_upto(n - 1) + 1
        } else {
            self.white_upto(n - 1)
        }
    }

    /// The count of white objects depends only on which places are white.
    pub proof fn lemma_white_same(self, other: Heap<T>, n: int)
        requires
            forall|i: int| 0 <= i < n ==> self.is_white(i) == other.is_white(i),
        ensures
            self.white_upto(n) == other.white_upto(n),
        decreases n,
    {
        if n > 0 {
            self.lemma_white_same(other, n - 1);
        }
    }

    /// Where one white object gets another color and nothing else changes,
    /// there is one white object less.
    pub proof fn lemma_white_less(self, other: Heap<T>, k: int, n: int)
        requires
            0 <= k < n,
            self.is_white(k),
            !other.is_white(k),
            forall|i: int| 0 <= i < n && i != k ==> self.is_white(i) == other.is_white(i),
        ensures
            self.white_upto(n) == other.white_upto(n) + 1,
        decreases n,
    {
        if n - 1 == k {
            self.lemma_white_same(other, n - 1);
        } else {
            self.lemma_white_less(other, k, n - 1);
        }
    }

    /// Whether the handle denotes a live object.
    pub open spec fn contains(self, h: GcPtr) -> bool {
        h.spec_raw() < self.slots.len() && self.slots[h.spec_raw() as int] is Some
    }

    /// The record of a live object.
    pub open spec fn record(self, h: GcPtr) -> ObjectView<T>
        recommends
            self.contains(h),
    {
        self.slots[h.spec_raw() as int]->Some_0
    }

    /// The handles that a live object holds, as its type traces them.
    pub open spec fn references(self, h: GcPtr) -> Seq<GcPtr>
        recommends
            self.contains(h),
    {
        self.record(h).ty.trace_spec(self.record(h).payload, self.record(h).length)
    }

    /// Whether `path` starts at a rooted live object and each further handle
    /// of it is held by the live object before it.
    pub open spec fn is_path(self, path: Seq<GcPtr>) -> bool {
        &&& path.len() > 0
        &&& self.contains(path[0])
        &&& self.record(path[0]).roots > 0
        &&& forall|i: int|
            0 <= i < path.len() - 1 ==> self.contains(#[trigger] path[i]) && self.references(
                path[i],
            ).contains(path[i + 1])
    }

    /// Whether a path leads from a rooted object to the handle.
    pub open spec fn reachable(self, h: GcPtr) -> bool {
        exists|path: Seq<GcPtr>| #[trigger] self.is_path(path) && path.last() == h
    }

    /// Whether every handle that can be reached denotes a live object.
    pub open spec fn traces_valid(self) -> bool {
        forall|h: GcPtr| #[trigger] self.reachable(h) ==> self.contains(h)
    }

    /// Whether a collection frees the object at place `i`.
    pub open spec fn is_garbage(self, i: int) -> bool {
        0 <= i < self.slots.len() && self.slots[i] is Some && !self.reachable(GcPtr::at(i))
    }

    /// The heap after a collection: the reachable objects, each as it was.
    pub open spec fn collected(self) -> Heap<T> {
        Heap {
            slots: Seq::new(
                self.slots.len(),
                |i: int|
                    if self.is_garbage(i) {
                        None
                    } else {
                        self.slots[i]
                    },
            ),
        }
    }

    /// The handles among the first `n` that a collection frees, in the order
    /// of their numbers.
    pub open spec fn garbage_upto(self, n: int) -> Seq<GcPtr>
        decreases n,
    {
        if n <= 0 {
            Seq::empty()
        } else if self.is_garbage(n - 1) {
            self.garbage_upto(n - 1).push(GcPtr::at(n - 1))
        } else {
            self.garbage_upto(n - 1)
        }
    }

    /// The handles that a collection frees, in the order of their numbers.
    pub open spec fn garbage(self) -> Seq<GcPtr> {
        self.garbage_upto(self.slots.len() as int)
    }

    /// The events of a collection: its start, one deallocation for each
    /// object that is freed, in the order of the handles' numbers, and its
    /// end.
    pub open spec fn collection_events(self) -> Seq<Event> {
        seq![Event::Start] + self.garbage().map_values(|h: GcPtr| Event::Deallocation(h))
            + seq![Event::End]
    }

    /// The number of bytes that the value layout of a record's type and
    /// capacity asks for, or 0 where they have no layout.
    pub open spec fn value_size(record: ObjectView<T>) -> nat {
        match crate::gc::value_layout_spec(record.ty, record.capacity) {
            Ok(layout) => layout.0 as nat,
            Err(_) => 0,
        }
    }

    /// The number of bytes that the object at place `i` counts for: the size
    /// of its value layout, or 0 for a free place.
    pub open spec fn size_at(self, i: int) -> nat {
        if 0 <= i < self.slots.len() && self.slots[i] is Some {
            Self::value_size(self.slots[i]->Some_0)
        } else {
            0
        }
    }

    /// The sum of the sizes of the value layouts of the objects at the first
    /// `n` places.
    pub open spec fn total_size_upto(self, n: int) -> nat
        decreases n,
    {
        if n <= 0 {
            0
        } else {
            self.total_size_upto(n - 1) + self.size_at(n - 1)
        }
    }

    /// The sum of the sizes of the value layouts of all live objects.
    pub open spec fn total_size(self) -> nat {
        self.total_size_upto(self.slots.len() as int)
    }

    /// The sum of the sizes of the layouts of the types of the objects at the
    /// first `n` places.
    pub open spec fn type_sizes_upto(self, n: int) -> nat
        decreases n,
    {
        if n <= 0 {
            0
        } else if self.live(n - 1) {
            self.type_sizes_upto(n - 1) + (
            self.slots[n - 1]->Some_0.ty.layout_spec().spec_size() as nat)
        } else {
            self.type_sizes_upto(n - 1)
        }
    }

    /// Whether no object is an array.
    pub open spec fn without_arrays(self) -> bool {
        forall|i: int| #[trigger] self.live(i) ==> self.slots[i]->Some_0.ty.element_spec() is None
    }

    /// Where no object is an array, the sum of the sizes of the value layouts
    /// is the sum of the sizes of the layouts of the types.
    pub proof fn lemma_total_size_of_types(self, n: int)
        requires
            self.without_arrays(),
        ensures
            self.total_size_upto(n) == self.type_sizes_upto(n),
        decreases n,
    {
        if n > 0 {
            self.lemma_total_size_of_types(n - 1);
            assert(self.live(n - 1) ==> self.slots[n - 1]->Some_0.ty.element_spec() is None);
        }
    }

    /// Whether place `i` holds what it holds in `other`, but for the color.
    pub open spec fn same_at(self, other: Heap<T>, i: int) -> bool {
        match (self.slots[i], other.slots[i]) {
            (Some(a), Some(b)) => a == (ObjectView { color: a.color, ..b }),
            (None, None) => true,
            _ => false,
        }
    }

    /// Whether each place holds what it holds in `other`, but for the colors.
    pub open spec fn same_but_colors(self, other: Heap<T>) -> bool {
        &&& self.slots.len() == other.slots.len()
        &&& forall|i: int| 0 <= i < self.slots.len() ==> #[trigger] self.same_at(other, i)
    }

    /// The sum over the first `n` places is at most `n` times the largest size.
    pub proof fn lemma_total_size_bound(self, n: int)
        requires
            0 <= n,
        ensures
            self.total_size_upto(n) <= n * usize::MAX,
        decreases n,
    {
        if n > 0 {
            self.lemma_total_size_bound(n - 1);
            assert((n - 1) * usize::MAX + usize::MAX == n * usize::MAX) by (nonlinear_arith);
        }
    }

    /// The sum depends only on the sizes at the places it covers.
    pub proof fn lemma_total_size_same(self, other: Heap<T>, n: int)
        requires
            forall|i: int| 0 <= i < n ==> self.size_at(i) == other.size_at(i),
        ensures
            self.total_size_upto(n) == other.total_size_upto(n),
        decreases n,
    {
        if n > 0 {
            self.lemma_total_size_same(other, n - 1);
        }
    }

    /// A path's handles but the last denote live objects, and a prefix of a
    /// path is a path.
    pub proof fn lemma_path_prefix(self, path: Seq<GcPtr>, n: int)
        requires
            self.is_path(path),
            0 < n <= path.len(),
        ensures
            self.is_path(path.subrange(0, n)),
            self.reachable(path[n - 1]),
            n < path.len() ==> self.contains(path[n - 1]),
    {
        let p = path.subrange(0, n);
        assert forall|i: int| 0 <= i < p.len() - 1 implies self.contains(#[trigger] p[i])
            && self.references(p[i]).contains(p[i + 1]) by {
            assert(p[i] == path[i]);
            assert(self.contains(path[i]));
        }
        assert(self.is_path(p));
        assert(p.last() == path[n - 1]);
        if n < path.len() {
            assert(self.contains(path[n - 1]));
        }
    }

    /// What a reachable live object holds is reachable.
    pub proof fn lemma_reachable_step(self, h: GcPtr, r: GcPtr)
        requires
            self.reachable(h),
            self.contains(h),
            self.references(h).contains(r),
        ensures
            self.reachable(r),
    {
        let path = choose|path: Seq<GcPtr>| #[trigger] self.is_path(path) && path.last() == h;
        let longer = path.push(r);
        assert forall|i: int| 0 <= i < longer.len() - 1 implies self.contains(#[trigger] longer[i])
            && self.references(longer[i]).contains(longer[i + 1]) by {
            if i < path.len() - 1 {
                assert(longer[i] == path[i]);
                assert(self.contains(path[i]));
            }
        }
        assert(longer[0] == path[0]);
        assert(self.is_path(longer));
        assert(longer.last() == r);
    }

    /// A path of a heap is a path of what a collection leaves of it.
    pub proof fn lemma_path_survives(self, path: Seq<GcPtr>)
        requires
            self.is_path(path),
        ensures
            self.collected().is_path(path),
    {
        let after = self.collected();
        assert forall|i: int| 0 <= i < path.len() - 1 implies after.contains(#[trigger] path[i])
            && after.references(path[i]).contains(path[i + 1]) by {
            self.lemma_path_prefix(path, i + 1);
            GcPtr::lemma_raw_injective(path[i], path[i]);
            assert(!self.is_garbage(path[i].spec_raw() as int));
        }
        self.lemma_path_prefix(path, 1);
        self.lemma_root_reachable(path[0]);
        GcPtr::lemma_raw_injective(path[0], path[0]);
        assert(!self.is_garbage(path[0].spec_raw() as int));
    }

    /// An object that has a root when a collection starts is live after it,
    /// with the record that it had.
    pub proof fn lemma_rooted_survives(self, h: GcPtr)
        requires
            self.contains(h),
            self.record(h).roots > 0,
        ensures
            self.collected().contains(h),
            self.collected().record(h) == self.record(h),
    {
        self.lemma_root_reachable(h);
        GcPtr::lemma_raw_injective(h, h);
        assert(!self.is_garbage(h.spec_raw() as int));
    }

    /// What a collection has left, no further collection frees.
    pub proof fn lemma_no_garbage_after_collection(self, n: int)
        ensures
            self.collected().garbage_upto(n) == Seq::<GcPtr>::empty(),
        decreases n,
    {
        if n > 0 {
            self.lemma_no_garbage_after_collection(n - 1);
            let after = self.collected();
            if after.live(n - 1) {
                assert(!self.is_garbage(n - 1));
                let path = choose|path: Seq<GcPtr>| #[trigger]
                    self.is_path(path) && path.last() == GcPtr::at(n - 1);
                self.lemma_path_survives(path);
                assert(after.reachable(GcPtr::at(n - 1)));
            }
        }
    }

    /// A collection is idempotent: a second collection right after it frees
    /// nothing and leaves the heap as the first left it.
    pub proof fn lemma_collect_idempotent(self)
        ensures
            self.collected().garbage() == Seq::<GcPtr>::empty(),
            self.collected().collected() == self.collected(),
    {
        let after = self.collected();
        self.lemma_no_garbage_after_collection(after.slots.len() as int);
        assert forall|i: int| 0 <= i < after.slots.len() implies !after.is_garbage(i) by {
            if after.live(i) {
                let path = choose|path: Seq<GcPtr>| #[trigger]
                    self.is_path(path) && path.last() == GcPtr::at(i);
                self.lemma_path_survives(path);
                assert(after.reachable(GcPtr::at(i)));
            }
        }
        assert(after.collected().slots =~= after.slots);
    }

    /// An object without a root that no live object holds is freed by a
    /// collection.
    pub proof fn lemma_unheld_is_garbage(self, h: GcPtr)
        requires
            self.contains(h),
            self.record(h).roots == 0,
            forall|g: GcPtr| self.contains(g) ==> !(#[trigger] self.references(g)).contains(h),
        ensures
            !self.reachable(h),
            self.is_garbage(h.spec_raw() as int),
            !self.collected().contains(h),
    {
        GcPtr::lemma_raw_injective(h, h);
        if self.reachable(h) {
            let path = choose|path: Seq<GcPtr>| #[trigger] self.is_path(path) && path.last() == h;
            if path.len() > 1 {
                let g = path[path.len() - 2];
                assert(self.contains(g) && self.references(g).contains(path[path.len() - 2 + 1]));
            }
        }
    }

    /// Where no object has a root, a collection frees every object.
    pub proof fn lemma_without_roots_all_is_garbage(self)
        requires
            forall|i: int| #[trigger] self.live(i) ==> self.slots[i]->Some_0.roots == 0,
        ensures
            forall|h: GcPtr| !self.reachable(h),
            forall|i: int| 0 <= i < self.slots.len() ==> self.collected().slots[i] is None,
    {
        assert forall|h: GcPtr| !self.reachable(h) by {
            if self.reachable(h) {
                let path = choose|path: Seq<GcPtr>| #[trigger]
                    self.is_path(path) && path.last() == h;
                assert(self.live(path[0].spec_raw() as int));
            }
        }
    }

    /// A rooted live object is reachable.
    pub proof fn lemma_root_reachable(self, h: GcPtr)
        requires
            self.contains(h),
            self.record(h).roots > 0,
        ensures
            self.reachable(h),
    {
        let path = seq![h];
        assert(self.is_path(path));
        assert(path.last() == h);
    }
}

} // verus!
