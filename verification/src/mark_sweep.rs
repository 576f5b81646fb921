//! A mark-and-sweep garbage collector.

use crate::bytes::{copy_bytes, zeroed};
use crate::gc::{Color, Event, GcPtr, MarkSweepType, ObjectInfo, ObjectView, Observer, Stats};
use crate::heap::Heap;
use crate::layout::{Layout, MemoryLayoutError};
use crate::mapping::Mapping;
use vstd::prelude::*;

verus! {

/// Allocates memory for an object.
pub fn alloc_obj<T: MarkSweepType>(ty: T) -> (object: ObjectInfo<T>)
    ensures
        object@ == ObjectView::fresh(ty, crate::bytes::zeros(ty.layout_spec().spec_size() as nat), 1),
{
    let payload = zeroed(ty.layout().size());
    ObjectInfo { payload, length: 1, capacity: 1, roots: 0, color: Color::White, ty }
}

/// Allocates memory for an array type with `length` elements. `array_ty` must
/// be an array type.
pub fn alloc_array<T: MarkSweepType>(array_ty: T, length: usize) -> (r: Result<
    ObjectInfo<T>,
    MemoryLayoutError,
>)
    requires
        array_ty.element_spec() is Some,
    ensures
        match r {
            Ok(object) => crate::gc::value_layout_spec(array_ty, length) is Ok && object@
                == ObjectView::fresh(
                array_ty,
                crate::bytes::zeros(crate::gc::value_layout_spec(array_ty, length)->Ok_0.0 as nat),
                length,
            ),
            Err(e) => crate::gc::value_layout_spec(array_ty, length) == Err::<
                (usize, usize),
                MemoryLayoutError,
            >(e),
        },
{
    match crate::gc::value_layout_of(&array_ty, length) {
        Ok(layout) => {
            let payload = zeroed(layout.size());
            Ok(
                ObjectInfo {
                    payload,
                    length,
                    capacity: length,
                    roots: 0,
                    color: Color::White,
                    ty: array_ty,
                },
            )
        },
        Err(e) => Err(e),
    }
}

/// A handle that an object holds although it denotes no live object.
#[derive(Clone, Copy, Debug, PartialEq, Eq)]
pub struct InvalidReference {
    /// The handle that denotes no live object.
    pub handle: GcPtr,
}

/// Implements a simple mark-sweep type garbage collector.
///
/// The collector keeps a table of object records. The handle of an object is
/// the number of its place in the table, which the object keeps for as long
/// as it lives. A place that has held an object is not used again: a handle
/// never comes to denote another object than the one it was given for.
pub struct MarkSweep<T: MarkSweepType, O: Observer> {
    objects: Vec<Option<ObjectInfo<T>>>,
    observer: O,
    stats: Stats,
}

impl<T: MarkSweepType, O: Observer + Default> Default for MarkSweep<T, O> {
    /// A collector without objects, with the default observer.
    fn default() -> (gc: Self)
        ensures
            gc.wf(),
            gc.payloads_sized(),
            gc.heap().slots == seq![None::<ObjectView<T>>],
            gc.allocated() == 0,
    {
        MarkSweep::with_observer(O::default())
    }
}

impl<T: MarkSweepType, O: Observer> MarkSweep<T, O> {
    /// The table of the collector.
    pub closed spec fn heap(&self) -> Heap<T> {
        Heap::of(self.objects@)
    }

    /// The events that the collector has handed to its observer, and those
    /// that the observer had seen before.
    pub closed spec fn events(&self) -> Seq<Event> {
        self.observer.events()
    }

    /// The number of bytes that the collector counts as allocated.
    pub closed spec fn allocated(&self) -> nat {
        self.stats.allocated_bytes as nat
    }

    /// The observer of the collector.
    pub closed spec fn spec_observer(&self) -> O {
        self.observer
    }

    /// What holds of a collector between two operations: place 0 is free, so
    /// that no object has the handle that denotes none; no object stores more
    /// elements than it has room for; every object is white; and the bytes
    /// counted as allocated are the sum of the sizes of the value layouts of
    /// the live objects, which for an object that is no array is the size of
    /// the layout of its type.
    pub open spec fn wf(&self) -> bool {
        &&& self.heap().slots.len() >= 1
        &&& self.heap().slots[0] is None
        &&& self.heap().all_white()
        &&& self.heap().lengths_fit()
        &&& self.allocated() == self.heap().total_size()
    }

    /// Whether every object owns as many bytes as the value layout of its
    /// type and capacity asks for.
    pub open spec fn payloads_sized(&self) -> bool {
        self.heap().payloads_sized()
    }

    /// Creates a `MarkSweep` memory collector with the specified `Observer`.
    pub fn with_observer(observer: O) -> (gc: Self)
        ensures
            gc.wf(),
            gc.payloads_sized(),
            gc.heap().slots == seq![None::<ObjectView<T>>],
            gc.events() == observer.events(),
            gc.allocated() == 0,
    {
        let mut objects: Vec<Option<ObjectInfo<T>>> = Vec::new();
        objects.push(None);
        let gc = MarkSweep { objects, observer, stats: Stats { allocated_bytes: 0 } };
        proof {
            assert(gc.heap().slots =~= seq![None::<ObjectView<T>>]);
            reveal_with_fuel(Heap::total_size_upto, 2);
        }
        gc
    }

    /// Returns the observer
    pub fn observer(&self) -> (o: &O)
        ensures
            *o == self.spec_observer(),
            o.events() == self.events(),
    {
        &self.observer
    }

    /// Returns the observer, to hand it what is not an event of the collector.
    pub fn observer_mut(&mut self) -> (o: &mut O)
        ensures
            o.events() == old(self).events(),
            final(self).events() == final(o).events(),
            final(self).heap() == old(self).heap(),
            final(self).allocated() == old(self).allocated(),
    {
        &mut self.observer
    }

    /// Whether the handle denotes a live object.
    pub fn contains(&self, handle: GcPtr) -> (b: bool)
        ensures
            b == self.heap().contains(handle),
    {
        let raw = handle.raw();
        if raw >= self.objects.len() as u64 {
            return false;
        }
        self.objects[raw as usize].is_some()
    }

    /// Logs an allocation
    fn log_alloc(&mut self, handle: GcPtr, size: usize)
        requires
            old(self).allocated() + size <= u128::MAX,
        ensures
            final(self).heap() == old(self).heap(),
            final(self).allocated() == old(self).allocated() + size,
            final(self).events() == old(self).events().push(Event::Allocation(handle)),
    {
        self.stats.allocated_bytes = self.stats.allocated_bytes + size as u128;
        self.observer.event(Event::Allocation(handle));
    }

    /// Puts a new object into the table and logs its allocation.
    fn insert(&mut self, object: ObjectInfo<T>) -> (handle: GcPtr)
        requires
            old(self).wf(),
            object.length <= object.capacity,
            object.color == Color::White,
        ensures
            final(self).wf(),
            handle.spec_raw() == old(self).heap().slots.len(),
            !old(self).heap().contains(handle),
            final(self).heap().slots == old(self).heap().slots.push(Some(object@)),
            final(self).events() == old(self).events().push(Event::Allocation(handle)),
            final(self).allocated() == old(self).allocated() + Heap::value_size(object@),
            old(self).payloads_sized() && Heap::record_sized(object@)
                ==> final(self).payloads_sized(),
    {
        let index = self.objects.len();
        let handle = GcPtr::from_raw(index as u64);
        let size = object.value_size();
        let ghost before = self.heap();
        let ghost record = object@;
        self.objects.push(Some(object));
        proof {
            assert(self.heap().slots =~= before.slots.push(Some(record)));
            before.lemma_one_place_changed(self.heap(), index as int);
            before.lemma_total_size_bound(index as int);
            before.lemma_total_size_same(self.heap(), index as int);
            assert(index * usize::MAX + usize::MAX <= u128::MAX) by (nonlinear_arith)
                requires
                    index <= usize::MAX,
                    usize::MAX <= 0xffff_ffff_ffff_ffff,
            ;
        }
        self.log_alloc(handle, size);
        handle
    }

    /// Allocates an object of a type that is no array: a payload of as many
    /// zero bytes as the type's layout has, one element, no root.
    pub fn alloc_object(&mut self, ty: T) -> (handle: GcPtr)
        requires
            old(self).wf(),
            ty.element_spec() is None,
        ensures
            final(self).wf(),
            !old(self).heap().contains(handle),
            handle.spec_raw() == old(self).heap().slots.len(),
            final(self).heap().slots == old(self).heap().slots.push(
                Some(
                    ObjectView::fresh(ty, crate::bytes::zeros(ty.layout_spec().spec_size() as nat), 1),
                ),
            ),
            final(self).events() == old(self).events().push(Event::Allocation(handle)),
            final(self).allocated() == old(self).allocated() + ty.layout_spec().spec_size(),
            old(self).payloads_sized() ==> final(self).payloads_sized(),
    {
        let object = alloc_obj(ty);
        self.insert(object)
    }

    /// Allocates an array of `n` elements, all bytes zero. Fails, and changes
    /// nothing, where `n` elements have no layout.
    pub fn alloc_array(&mut self, ty: T, n: usize) -> (r: Result<GcPtr, MemoryLayoutError>)
        requires
            old(self).wf(),
            ty.element_spec() is Some,
        ensures
            final(self).wf(),
            old(self).payloads_sized() ==> final(self).payloads_sized(),
            match r {
                Ok(handle) => {
                    &&& crate::gc::value_layout_spec(ty, n) is Ok
                    &&& !old(self).heap().contains(handle)
                    &&& handle.spec_raw() == old(self).heap().slots.len()
                    &&& final(self).heap().slots == old(self).heap().slots.push(
                        Some(
                            ObjectView::fresh(
                                ty,
                                crate::bytes::zeros(
                                    crate::gc::value_layout_spec(ty, n)->Ok_0.0 as nat,
                                ),
                                n,
                            ),
                        ),
                    )
                    &&& final(self).events() == old(self).events().push(
                        Event::Allocation(handle),
                    )
                    &&& final(self).allocated() == old(self).allocated()
                        + crate::gc::value_layout_spec(ty, n)->Ok_0.0
                },
                Err(e) => {
                    &&& crate::gc::value_layout_spec(ty, n) == Err::<
                        (usize, usize),
                        MemoryLayoutError,
                    >(e)
                    &&& final(self).heap() == old(self).heap()
                    &&& final(self).events() == old(self).events()
                    &&& final(self).allocated() == old(self).allocated()
                },
            },
    {
        match alloc_array(ty, n) {
            Ok(object) => Ok(self.insert(object)),
            Err(e) => Err(e),
        }
    }

    /// Returns the type of a live object. Where every payload has the size
    /// that its value layout asks for, the layout of the type that is
    /// returned has the size of the object's payload, and for an array its
    /// value layout has.
    pub fn ptr_type(&self, handle: GcPtr) -> (ty: T)
        requires
            self.heap().contains(handle),
        ensures
            ty == self.heap().record(handle).ty,
            self.payloads_sized() ==> crate::gc::value_layout_spec(
                ty,
                self.heap().record(handle).capacity,
            ) is Ok && crate::gc::value_layout_spec(
                ty,
                self.heap().record(handle).capacity,
            )->Ok_0.0 == self.heap().record(handle).payload.len(),
            self.payloads_sized() && ty.element_spec() is None ==> ty.layout_spec().spec_size()
                == self.heap().record(handle).payload.len(),
    {
        assert(self.heap().live(handle.spec_raw() as int));
        self.object(handle).ty.clone_type()
    }

    /// The record of a live object.
    pub fn object(&self, handle: GcPtr) -> (object: &ObjectInfo<T>)
        requires
            self.heap().contains(handle),
        ensures
            object@ == self.heap().record(handle),
    {
        let len = self.objects.len();
        assert(handle.spec_raw() < len);
        let index = handle.raw() as usize;
        assert(self.heap().slots[index as int] is Some);
        self.objects[index].as_ref().unwrap()
    }

    /// Adds a root to a live object.
    pub fn root(&mut self, handle: GcPtr)
        requires
            old(self).wf(),
            old(self).heap().contains(handle),
            old(self).heap().record(handle).roots < u32::MAX,
        ensures
            final(self).wf(),
            final(self).heap().slots == old(self).heap().slots.update(
                handle.spec_raw() as int,
                Some(
                    ObjectView {
                        roots: (old(self).heap().record(handle).roots + 1) as u32,
                        ..old(self).heap().record(handle)
                    },
                ),
            ),
            final(self).events() == old(self).events(),
            old(self).payloads_sized() ==> final(self).payloads_sized(),
    {
        let len = self.objects.len();
        assert(handle.spec_raw() < len);
        let index = handle.raw() as usize;
        let ghost before = self.heap();
        assert(before.slots[index as int] is Some);
        match &mut self.objects[index] {
            Some(object) => {
                object.roots = object.roots + 1;
            },
            None => {},
        }
        proof {
            assert(self.heap().slots =~= before.slots.update(
                index as int,
                Some(
                    ObjectView {
                        roots: (before.record(handle).roots + 1) as u32,
                        ..before.record(handle)
                    },
                ),
            ));
            self.heap().lemma_total_size_same(before, len as int);
            assert(before.live(index as int));
            before.lemma_one_place_changed(self.heap(), index as int);
        }
    }

    /// Takes a root from a live object. An object without a root stays as it
    /// is.
    pub fn unroot(&mut self, handle: GcPtr)
        requires
            old(self).wf(),
            old(self).heap().contains(handle),
        ensures
            final(self).wf(),
            final(self).heap().slots == old(self).heap().slots.update(
                handle.spec_raw() as int,
                Some(
                    ObjectView {
                        roots: if old(self).heap().record(handle).roots > 0 {
                            (old(self).heap().record(handle).roots - 1) as u32
                        } else {
                            0
                        },
                        ..old(self).heap().record(handle)
                    },
                ),
            ),
            final(self).events() == old(self).events(),
            old(self).payloads_sized() ==> final(self).payloads_sized(),
    {
        let len = self.objects.len();
        assert(handle.spec_raw() < len);
        let index = handle.raw() as usize;
        let ghost before = self.heap();
        assert(before.slots[index as int] is Some);
        match &mut self.objects[index] {
            Some(object) => {
                if object.roots > 0 {
                    object.roots = object.roots - 1;
                }
            },
            None => {},
        }
        proof {
            assert(self.heap().slots =~= before.slots.update(
                index as int,
                Some(
                    ObjectView {
                        roots: if before.record(handle).roots > 0 {
                            (before.record(handle).roots - 1) as u32
                        } else {
                            0
                        },
                        ..before.record(handle)
                    },
                ),
            ));
            self.heap().lemma_total_size_same(before, len as int);
            assert(before.live(index as int));
            before.lemma_one_place_changed(self.heap(), index as int);
        }
    }

    /// The number of roots on a live object.
    pub fn roots(&self, handle: GcPtr) -> (n: u32)
        requires
            self.heap().contains(handle),
        ensures
            n == self.heap().record(handle).roots,
    {
        self.object(handle).roots
    }

    /// The payload of a live object.
    pub fn payload(&self, handle: GcPtr) -> (payload: &Vec<u8>)
        requires
            self.heap().contains(handle),
        ensures
            payload@ == self.heap().record(handle).payload,
    {
        &self.object(handle).payload
    }

    /// Writes `data` into the payload of a live object from place `at` on.
    /// Returns `false`, and changes nothing, where the payload has no room
    /// for it there.
    pub fn write(&mut self, handle: GcPtr, at: usize, data: &Vec<u8>) -> (done: bool)
        requires
            old(self).wf(),
            old(self).heap().contains(handle),
        ensures
            final(self).wf(),
            done == (at + data@.len() <= old(self).heap().record(handle).payload.len()),
            done ==> final(self).heap().slots == old(self).heap().slots.update(
                handle.spec_raw() as int,
                Some(
                    ObjectView {
                        payload: crate::bytes::overlay(
                            old(self).heap().record(handle).payload,
                            at as int,
                            data@,
                        ),
                        ..old(self).heap().record(handle)
                    },
                ),
            ),
            !done ==> final(self).heap() == old(self).heap(),
            final(self).events() == old(self).events(),
            old(self).payloads_sized() ==> final(self).payloads_sized(),
    {
        let len = self.objects.len();
        assert(handle.spec_raw() < len);
        let index = handle.raw() as usize;
        let ghost before = self.heap();
        assert(before.slots[index as int] is Some);
        let n = data.len();
        let mut done = false;
        match &mut self.objects[index] {
            Some(object) => {
                let room = object.payload.len();
                if at <= room && n <= room - at {
                    copy_bytes(&mut object.payload, at, data, 0, n);
                    done = true;
                }
            },
            None => {},
        }
        proof {
            assert(data@.subrange(0, n as int) =~= data@);
            if done {
                assert(self.heap().slots =~= before.slots.update(
                    index as int,
                    Some(
                        ObjectView {
                            payload: crate::bytes::overlay(
                                before.record(handle).payload,
                                at as int,
                                data@,
                            ),
                            ..before.record(handle)
                        },
                    ),
                ));
            } else {
                assert(self.heap().slots =~= before.slots);
            }
            self.heap().lemma_total_size_same(before, len as int);
            assert(before.live(index as int));
            before.lemma_one_place_changed(self.heap(), index as int);
        }
        done
    }

    /// Collects all memory that is no longer referenced by rooted objects.
    /// Returns `true` if memory was reclaimed, `false` otherwise.
    ///
    /// Fails where an object that can be reached from a rooted one holds a
    /// handle that denotes no live object. The heap is then as it was.
    pub fn try_collect(&mut self) -> (r: Result<bool, InvalidReference>)
        requires
            old(self).wf(),
        ensures
            final(self).wf(),
            old(self).payloads_sized() ==> final(self).payloads_sized(),
            old(self).heap().traces_valid() <==> r is Ok,
            forall|h: GcPtr|
                old(self).heap().contains(h) && old(self).heap().record(h).roots > 0
                    ==> #[trigger] final(self).heap().contains(h) && final(self).heap().record(h)
                    == old(self).heap().record(h),
            match r {
                Ok(freed) => {
                    &&& final(self).heap() == old(self).heap().collected()
                    &&& final(self).events() == old(self).events() + old(self).heap().collection_events()
                    &&& freed == (old(self).heap().garbage().len() > 0)
                },
                Err(e) => {
                    &&& old(self).heap().reachable(e.handle)
                    &&& !old(self).heap().contains(e.handle)
                    &&& final(self).heap() == old(self).heap()
                    &&& final(self).events() == old(self).events().push(Event::Start)
                },
            },
    {
        let ghost start = self.heap();
        let ghost seen = self.events();
        proof {
            assert forall|h: GcPtr| start.contains(h) && start.record(h).roots > 0 implies (
            #[trigger] start.collected().contains(h)) && start.collected().record(h)
                == start.record(h) by {
                start.lemma_rooted_survives(h);
            }
        }
        self.observer.event(Event::Start);
        let worklist = crate::mark::mark_roots(&mut self.objects);
        match crate::mark::mark_from(&mut self.objects, worklist, Ghost(start)) {
            Err(handle) => {
                crate::mark::whiten(&mut self.objects, Ghost(start));
                Err(InvalidReference { handle })
            },
            Ok(_) => {
                let (freed, bytes) = crate::mark::sweep(&mut self.objects, Ghost(start));
                self.stats.allocated_bytes = self.stats.allocated_bytes - bytes;
                let mut k: usize = 0;
                while k < freed.len()
                    invariant
                        0 <= k <= freed@.len(),
                        self.heap() == start.collected(),
                        self.allocated() == start.collected().total_size(),
                        self.events() == seen.push(Event::Start) + freed@.subrange(
                            0,
                            k as int,
                        ).map_values(|h: GcPtr| Event::Deallocation(h)),
                    decreases freed@.len() - k,
                {
                    let ghost told = self.events();
                    self.observer.event(Event::Deallocation(freed[k]));
                    k += 1;
                    assert(self.events() =~= seen.push(Event::Start) + freed@.subrange(
                        0,
                        k as int,
                    ).map_values(|h: GcPtr| Event::Deallocation(h)));
                }
                self.observer.event(Event::End);
                proof {
                    assert(freed@.subrange(0, freed@.len() as int) =~= freed@);
                    assert(self.events() =~= seen + start.collection_events());
                    let after = self.heap();
                    assert forall|i: int| #[trigger] after.live(i) implies after.is_white(i)
                        && after.slots[i]->Some_0.length <= after.slots[i]->Some_0.capacity
                        && (start.payloads_sized() ==> after.sized_at(i)) by {
                        assert(start.live(i));
                    }
                }
                Ok(freed.len() > 0)
            },
        }
    }

    /// Collects all memory that is no longer referenced by rooted objects.
    /// Returns `true` if memory was reclaimed, `false` otherwise.
    ///
    /// Every handle that can be reached from a rooted object must denote a
    /// live object.
    pub fn collect(&mut self) -> (freed: bool)
        requires
            old(self).wf(),
            old(self).heap().traces_valid(),
        ensures
            final(self).wf(),
            old(self).payloads_sized() ==> final(self).payloads_sized(),
            final(self).heap() == old(self).heap().collected(),
            final(self).events() == old(self).events() + old(self).heap().collection_events(),
            freed == (old(self).heap().garbage().len() > 0),
            forall|h: GcPtr|
                old(self).heap().contains(h) && old(self).heap().record(h).roots > 0
                    ==> #[trigger] final(self).heap().contains(h) && final(self).heap().record(h)
                    == old(self).heap().record(h),
    {
        match self.try_collect() {
            Ok(freed) => freed,
            Err(_) => false,
        }
    }

    /// Counts the bytes allocated anew: the sum of the sizes of the value
    /// layouts of the live objects.
    fn recount(&mut self)
        ensures
            final(self).heap() == old(self).heap(),
            final(self).events() == old(self).events(),
            final(self).allocated() == final(self).heap().total_size(),
    {
        let ghost heap = self.heap();
        let len = self.objects.len();
        let mut total: u128 = 0;
        let mut i: usize = 0;
        while i < len
            invariant
                0 <= i <= len,
                self.objects@.len() == len,
                self.heap() == heap,
                self.events() == old(self).events(),
                total == heap.total_size_upto(i as int),
            decreases len - i,
        {
            proof {
                heap.lemma_total_size_bound(i as int);
                assert(i * usize::MAX + usize::MAX <= u128::MAX) by (nonlinear_arith)
                    requires
                        i <= usize::MAX,
                        usize::MAX <= 0xffff_ffff_ffff_ffff,
                ;
            }
            match &self.objects[i] {
                Some(object) => {
                    total = total + object.value_size() as u128;
                },
                None => {},
            }
            i += 1;
        }
        self.stats.allocated_bytes = total;
    }

    /// Migrates every live object to the types of new code, as `mapping`
    /// says, and returns the handles of the objects whose type is gone. These
    /// objects stay as they are.
    ///
    /// First every object whose type is the old type of a pair of types whose
    /// layout stays gets the new type of the pair, pair by pair. Then every
    /// object whose type is the old type of a conversion gets the new type
    /// and a new payload, conversion by conversion and, for each, in the
    /// order of the handles' numbers. Objects that the conversions allocate
    /// enter the table at the end, in the order of their allocation. An
    /// object whose type the plan does not name stays as it is.
    pub fn map_memory(&mut self, mapping: Mapping<T>) -> (deleted: Vec<GcPtr>)
        requires
            old(self).wf(),
        ensures
            final(self).wf(),
            deleted@ == crate::mapper::deleted(old(self).heap(), mapping.deletions@),
            final(self).heap() == crate::mapper::committed(
                crate::mapper::migrated(old(self).heap(), mapping),
            ),
            final(self).events() == old(self).events() + Seq::new(
                crate::mapper::migrated(old(self).heap(), mapping).allocs.len(),
                |k: int| Event::Allocation(GcPtr::at(old(self).heap().slots.len() + k)),
            ),
            forall|i: int| #[trigger]
                old(self).heap().live(i) ==> final(self).heap().live(i)
                    && crate::mapper::framed_at(old(self).heap(), final(self).heap(), i)
                    && crate::mapper::settled(
                    mapping,
                    old(self).heap().slots[i]->Some_0.ty,
                    final(self).heap().slots[i]->Some_0.ty,
                ),
            crate::mapper::retagged_heap(
                old(self).heap(),
                mapping.identical@,
                mapping.identical@.len() as int,
            ).payloads_sized() && crate::mapping::plan_without_arrays(mapping.conversions@)
                ==> final(self).payloads_sized(),
    {
        let ghost start = self.heap();
        let ghost seen = self.events();
        let deleted = crate::mapper::find_deleted(&self.objects, &mapping.deletions);
        crate::mapper::retag_objects(&mut self.objects, &mapping.identical);
        let ghost tagged = self.heap();
        assert(crate::mapping::views(Seq::<ObjectInfo<T>>::empty()) =~= Seq::<
            ObjectView<T>,
        >::empty());
        let table = crate::cast::CastTable::new();
        let new_allocations = crate::mapper::convert(
            &mut self.objects,
            &table,
            &mapping.conversions,
        );
        let ghost done = self.heap();
        let ghost allocs = crate::mapping::views(new_allocations@);
        let first = self.objects.len();
        let n = new_allocations.len();
        crate::mapper::commit(&mut self.objects, new_allocations);
        let ghost after = self.heap();
        let count = self.objects.len();
        assert(count == first + n);
        assert(crate::mapper::progress_of(old(self).objects@, Seq::empty()).heap == start);
        assert(allocs.len() == n);
        let mut k: usize = 0;
        while k < n
            invariant
                0 <= k <= n,
                first + n <= usize::MAX,
                self.heap() == after,
                self.events() == seen + Seq::new(
                    k as nat,
                    |j: int| Event::Allocation(GcPtr::at(first + j)),
                ),
            decreases n - k,
        {
            let handle = GcPtr::from_raw((first + k) as u64);
            proof {
                GcPtr::lemma_raw_injective(handle, handle);
            }
            self.observer.event(Event::Allocation(handle));
            k += 1;
            assert(self.events() =~= seen + Seq::new(
                k as nat,
                |j: int| Event::Allocation(GcPtr::at(first + j)),
            ));
        }
        self.recount();
        proof {
            assert forall|i: int| #[trigger] start.live(i) implies after.live(i)
                && crate::mapper::framed_at(start, after, i) && crate::mapper::settled(
                mapping,
                start.slots[i]->Some_0.ty,
                after.slots[i]->Some_0.ty,
            ) && after.is_white(i) && after.slots[i]->Some_0.length
                <= after.slots[i]->Some_0.capacity by {
                assert(crate::mapper::converted_at(
                    tagged,
                    done,
                    mapping.conversions@,
                    mapping.conversions@.len() as int,
                    i,
                ));
                crate::mapper::lemma_retagged(
                    start.slots[i]->Some_0.ty,
                    mapping.identical@,
                    mapping.identical@.len() as int,
                );
                assert(after.slots[i] == done.slots[i]);
            }
            assert forall|i: int| #[trigger] after.live(i) implies after.is_white(i)
                && after.slots[i]->Some_0.length <= after.slots[i]->Some_0.capacity by {
                if i < first {
                    assert(crate::mapper::converted_at(
                        tagged,
                        done,
                        mapping.conversions@,
                        mapping.conversions@.len() as int,
                        i,
                    ));
                    assert(after.slots[i] == done.slots[i]);
                    assert(start.live(i));
                } else {
                    assert(after.slots[i] == Some(allocs[i - first]));
                }
            }
            assert(after.slots[0] == done.slots[0]);
            assert(crate::mapper::converted_at(
                tagged,
                done,
                mapping.conversions@,
                mapping.conversions@.len() as int,
                0,
            ));
            if tagged.payloads_sized() && crate::mapping::plan_without_arrays(
                mapping.conversions@,
            ) {
                assert forall|i: int| #[trigger] after.live(i) implies after.sized_at(i) by {
                    if i < first {
                        assert(crate::mapper::converted_at(
                            tagged,
                            done,
                            mapping.conversions@,
                            mapping.conversions@.len() as int,
                            i,
                        ));
                        assert(after.slots[i] == done.slots[i]);
                        assert(tagged.live(i));
                    } else {
                        assert(after.slots[i] == Some(allocs[i - first]));
                        assert(Heap::record_sized(allocs[i - first]));
                    }
                }
            }
        }
        deleted
    }

    /// A snapshot of what the collector holds: the sum of the sizes of the
    /// value layouts of the live objects. Where no live object is an array,
    /// that is the sum of the sizes of the layouts of their types.
    pub fn stats(&self) -> (stats: Stats)
        ensures
            stats.allocated_bytes == self.allocated(),
            self.wf() ==> stats.allocated_bytes == self.heap().total_size(),
            self.wf() && self.heap().without_arrays() ==> stats.allocated_bytes
                == self.heap().type_sizes_upto(self.heap().slots.len() as int),
    {
        proof {
            if self.heap().without_arrays() {
                self.heap().lemma_total_size_of_types(self.heap().slots.len() as int);
            }
        }
        self.stats
    }
}

} // verus!
