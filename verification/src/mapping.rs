//! The plan of a migration from the types of old code to those of new code,
//! and the conversion of one object's fields under it.

use crate::bytes::{copy_bytes, read_handle, write_handle, zeroed};
use crate::cast::CastTable;
use crate::gc::{GcPtr, MarkSweepType, ObjectInfo, ObjectView};
use crate::heap::Heap;
use crate::layout::HANDLE_SIZE;
use crate::mark_sweep::alloc_obj;
use vstd::prelude::*;

verus! {

/// What to do to get the value of a field of the new type.
#[derive(Debug)]
pub enum Action<T> {
    /// Convert the field of type `old_ty` at `old_offset` of the old value.
    Cast { old_offset: usize, old_ty: T },
    /// Copy the bytes of the field at `old_offset` of the old value.
    Copy { old_offset: usize },
    /// The field is new: it starts as zero.
    Insert,
}

/// How one field of a new type comes from the old value.
#[derive(Debug)]
pub struct FieldMapping<T> {
    /// The type of the field.
    pub new_ty: T,
    /// The offset of the field in the new value.
    pub new_offset: usize,
    /// What gives the field its value.
    pub action: Action<T>,
}

/// The replacement of an old type by a new one.
#[derive(Debug)]
pub struct Conversion<T> {
    /// How each field of the new type comes from the old value, in the order
    /// in which the fields are mapped.
    pub field_mapping: Vec<FieldMapping<T>>,
    /// The new type.
    pub new_ty: T,
}

/// The plan of a migration. Types are the same where their GUIDs are.
#[derive(Debug)]
pub struct Mapping<T> {
    /// The old types that are gone.
    pub deletions: Vec<T>,
    /// The old types whose values change, each with its conversion, in the
    /// order in which they are applied.
    pub conversions: Vec<(T, Conversion<T>)>,
    /// The old types whose layout stays, each with the new type.
    pub identical: Vec<(T, T)>,
}

/// Whether two descriptors describe the same type: whether their GUIDs are
/// equal.
pub open spec fn same_type<T: MarkSweepType>(a: T, b: T) -> bool {
    a.guid_spec() == b.guid_spec()
}

/// Whether two descriptors describe the same type.
pub fn is_same_type<T: MarkSweepType>(a: &T, b: &T) -> (same: bool)
    ensures
        same == same_type(*a, *b),
{
    let x = a.guid();
    let y = b.guid();
    x.same(&y)
}

/// The place of the first conversion from number `k` on whose old type is
/// `ty`.
pub open spec fn find_conversion_from<T: MarkSweepType>(
    conversions: Seq<(T, Conversion<T>)>,
    ty: T,
    k: int,
) -> Option<int>
    decreases conversions.len() - k,
{
    if k < 0 || k >= conversions.len() {
        None
    } else if same_type(conversions[k].0, ty) {
        Some(k)
    } else {
        find_conversion_from(conversions, ty, k + 1)
    }
}

/// The place of the first conversion whose old type is `ty`.
pub open spec fn find_conversion<T: MarkSweepType>(
    conversions: Seq<(T, Conversion<T>)>,
    ty: T,
) -> Option<int> {
    find_conversion_from(conversions, ty, 0)
}

/// The place of the first conversion whose old type is `ty`.
pub fn lookup_conversion<T: MarkSweepType>(conversions: &Vec<(T, Conversion<T>)>, ty: &T) -> (r:
    Option<usize>)
    ensures
        match r {
            Some(c) => find_conversion(conversions@, *ty) == Some(c as int) && c
                < conversions@.len(),
            None => find_conversion(conversions@, *ty) is None,
        },
{
    let mut k: usize = 0;
    while k < conversions.len()
        invariant
            0 <= k <= conversions@.len(),
            find_conversion_from(conversions@, *ty, k as int) == find_conversion(
                conversions@,
                *ty,
            ),
        decreases conversions@.len() - k,
    {
        if is_same_type(&conversions[k].0, ty) {
            return Some(k);
        }
        k += 1;
    }
    None
}

/// The records of a list of objects.
pub open spec fn views<T: MarkSweepType>(objects: Seq<ObjectInfo<T>>) -> Seq<ObjectView<T>> {
    Seq::new(objects.len(), |i: int| objects[i]@)
}

/// What the conversion of fields has made so far: the bytes of the new value,
/// and the objects allocated for it, which enter the table once all objects
/// are converted.
pub struct Migration<T> {
    pub dest: Seq<u8>,
    pub allocs: Seq<ObjectView<T>>,
}

/// Whether `n` bytes from place `at` on lie within `len` bytes.
pub open spec fn fits(at: int, n: int, len: int) -> bool {
    0 <= at && at + n <= len
}

/// `dest` after `n` bytes from place `from` of `src` were copied to its place
/// `at`; `dest` itself where either range reaches beyond its buffer.
pub open spec fn copy_field(src: Seq<u8>, from: int, dest: Seq<u8>, at: int, n: int) -> Seq<u8> {
    if fits(from, n, src.len() as int) && fits(at, n, dest.len() as int) {
        crate::bytes::overlay(dest, at, src.subrange(from, from + n))
    } else {
        dest
    }
}

/// The state after a new object with the given payload was allocated and its
/// handle stored at place `at`. The object gets the number that follows those
/// of the `first` places of the table and of the objects allocated before it.
pub open spec fn place_object<T: MarkSweepType>(
    state: Migration<T>,
    first: int,
    ty: T,
    payload: Seq<u8>,
    at: int,
) -> Migration<T> {
    if first + state.allocs.len() <= u64::MAX {
        Migration {
            dest: crate::bytes::overlay(
                state.dest,
                at,
                crate::bytes::handle_bytes(GcPtr::at(first + state.allocs.len())),
            ),
            allocs: state.allocs.push(ObjectView::fresh(ty, payload, 1)),
        }
    } else {
        state
    }
}

/// The handle that is stored for a new object denotes that object once the
/// new objects have entered the table: it is the number of the place that
/// the object gets, which no object of the table and no object allocated
/// before it has.
pub proof fn lemma_placed_handle<T: MarkSweepType>(
    state: Migration<T>,
    first: int,
    ty: T,
    payload: Seq<u8>,
    at: int,
)
    requires
        0 <= first,
        first + state.allocs.len() <= u64::MAX,
        fits(at, HANDLE_SIZE as int, state.dest.len() as int),
    ensures
        ({
            let after = place_object(state, first, ty, payload, at);
            let handle = crate::bytes::handle_at(after.dest, at);
            &&& handle.spec_raw() == first + state.allocs.len()
            &&& after.allocs.len() == state.allocs.len() + 1
            &&& after.allocs[handle.spec_raw() - first] == ObjectView::fresh(ty, payload, 1)
            &&& after.allocs.subrange(0, state.allocs.len() as int) == state.allocs
        }),
{
    let after = place_object(state, first, ty, payload, at);
    let number = GcPtr::at(first + state.allocs.len());
    GcPtr::lemma_at(first + state.allocs.len());
    crate::bytes::lemma_handle_round_trip(state.dest, at, number);
    assert(after.allocs.subrange(0, state.allocs.len() as int) =~= state.allocs);
}

/// The state after a new field of type `ty` at place `at` got its value: a
/// field that is stored in place stays zero; one that is stored behind a
/// handle gets a new object of zero bytes, if the handle has room.
pub open spec fn insert_field<T: MarkSweepType>(
    state: Migration<T>,
    first: int,
    ty: T,
    at: int,
) -> Migration<T> {
    if !ty.is_stack_allocated_spec() && fits(at, HANDLE_SIZE as int, state.dest.len() as int) {
        place_object(
            state,
            first,
            ty,
            crate::bytes::zeros(ty.layout_spec().spec_size() as nat),
            at,
        )
    } else {
        state
    }
}

/// The state after the field `field` of a new value got its value from the
/// old value. The old value starts at place `src_base` of `src`, the new one
/// at place `dest_base` of the state's bytes.
///
/// A field that is copied gets the bytes of the old field. A new field stays
/// zero, or gets a new object of zero bytes where it is stored behind a
/// handle. A field that is cast is converted by the table of primitive casts
/// unless its old type is a struct. A struct whose old and new type have the
/// same name is converted by the conversion of its old type: in place, into
/// a new object where only the new type is stored behind a handle, and from
/// the object that the old handle denotes where only the old type is; that
/// object is copied instead where it has another type than the old one, as
/// it has once it is converted itself. Where both types are stored behind a
/// handle the handle is copied. A struct whose types differ in name stays
/// zero, or gets a new object of zero bytes where the new type is stored
/// behind a handle.
///
/// A field that reaches beyond its buffer is left out, and so is a
/// conversion that is not in the plan. `fuel` bounds how deep conversions of
/// structs within structs nest: one that would nest deeper is left out.
pub open spec fn map_field_spec<T: MarkSweepType>(
    heap: Heap<T>,
    conversions: Seq<(T, Conversion<T>)>,
    field: FieldMapping<T>,
    src: Seq<u8>,
    src_base: int,
    state: Migration<T>,
    dest_base: int,
    fuel: nat,
) -> Migration<T>
    decreases fuel, 0int,
{
    let at = dest_base + field.new_offset;
    let new_ty = field.new_ty;
    if at > usize::MAX {
        state
    } else {
        match field.action {
            Action::Insert => insert_field(state, heap.slots.len() as int, new_ty, at),
            Action::Copy { old_offset } => {
                let from = src_base + old_offset;
                Migration {
                    dest: copy_field(
                        src,
                        from,
                        state.dest,
                        at,
                        new_ty.layout_spec().spec_size() as int,
                    ),
                    ..state
                }
            },
            Action::Cast { old_offset, old_ty } => {
                let from = src_base + old_offset;
                if from > usize::MAX {
                    state
                } else if !old_ty.is_struct_spec() {
                    match CastTable::cast_into(
                        old_ty.guid_spec(),
                        new_ty.guid_spec(),
                        src,
                        from,
                        state.dest,
                        at,
                    ) {
                        Some(dest) => Migration { dest, ..state },
                        None => state,
                    }
                } else {
                    let same = old_ty.name_spec() == new_ty.name_spec();
                    let found = find_conversion(conversions, old_ty);
                    let nested = same && found is Some && fuel > 0;
                    if old_ty.is_stack_allocated_spec() && new_ty.is_stack_allocated_spec() {
                        if nested {
                            map_fields_spec(
                                heap,
                                conversions,
                                conversions[found->Some_0].1.field_mapping@,
                                0,
                                src,
                                from,
                                state,
                                at,
                                (fuel - 1) as nat,
                            )
                        } else {
                            state
                        }
                    } else if old_ty.is_stack_allocated_spec() {
                        if !fits(at, HANDLE_SIZE as int, state.dest.len() as int) {
                            state
                        } else {
                            let blank = Migration {
                                dest: crate::bytes::zeros(
                                    new_ty.layout_spec().spec_size() as nat,
                                ),
                                allocs: state.allocs,
                            };
                            let inner = if nested {
                                map_fields_spec(
                                    heap,
                                    conversions,
                                    conversions[found->Some_0].1.field_mapping@,
                                    0,
                                    src,
                                    from,
                                    blank,
                                    0,
                                    (fuel - 1) as nat,
                                )
                            } else {
                                blank
                            };
                            place_object(
                                Migration { dest: state.dest, allocs: inner.allocs },
                                heap.slots.len() as int,
                                new_ty,
                                inner.dest,
                                at,
                            )
                        }
                    } else if !new_ty.is_stack_allocated_spec() {
                        if same {
                            Migration {
                                dest: copy_field(src, from, state.dest, at, HANDLE_SIZE as int),
                                ..state
                            }
                        } else {
                            insert_field(state, heap.slots.len() as int, new_ty, at)
                        }
                    } else {
                        if same && fits(from, HANDLE_SIZE as int, src.len() as int) {
                            let target = crate::bytes::handle_at(src, from);
                            if !heap.contains(target) {
                                state
                            } else if same_type(heap.record(target).ty, old_ty) {
                                if nested {
                                    map_fields_spec(
                                        heap,
                                        conversions,
                                        conversions[found->Some_0].1.field_mapping@,
                                        0,
                                        heap.record(target).payload,
                                        0,
                                        state,
                                        at,
                                        (fuel - 1) as nat,
                                    )
                                } else {
                                    state
                                }
                            } else {
                                Migration {
                                    dest: copy_field(
                                        heap.record(target).payload,
                                        0,
                                        state.dest,
                                        at,
                                        heap.record(target).ty.layout_spec().spec_size() as int,
                                    ),
                                    ..state
                                }
                            }
                        } else {
                            state
                        }
                    }
                }
            },
        }
    }
}

/// The state after the fields from number `i` on got their values, in their
/// order.
pub open spec fn map_fields_spec<T: MarkSweepType>(
    heap: Heap<T>,
    conversions: Seq<(T, Conversion<T>)>,
    fields: Seq<FieldMapping<T>>,
    i: int,
    src: Seq<u8>,
    src_base: int,
    state: Migration<T>,
    dest_base: int,
    fuel: nat,
) -> Migration<T>
    decreases fuel, 1int, fields.len() - i,
{
    if i < 0 || i >= fields.len() {
        state
    } else {
        map_fields_spec(
            heap,
            conversions,
            fields,
            i + 1,
            src,
            src_base,
            map_field_spec(heap, conversions, fields[i], src, src_base, state, dest_base, fuel),
            dest_base,
            fuel,
        )
    }
}

/// Whether every object of the list is as it was allocated, but for its
/// payload: unrooted, white, one element.
pub open spec fn all_fresh<T: MarkSweepType>(allocs: Seq<ObjectView<T>>) -> bool {
    forall|k: int|
        0 <= k < allocs.len() ==> #[trigger] allocs[k] == ObjectView::fresh(
            allocs[k].ty,
            allocs[k].payload,
            1,
        )
}

/// A field that is copied holds the bytes that the old field held: where both
/// fields lie within their buffers, the bytes of the new field are those of
/// the old one, every other byte is as it was, and nothing is allocated.
pub proof fn lemma_copy_keeps_the_bytes<T: MarkSweepType>(
    heap: Heap<T>,
    conversions: Seq<(T, Conversion<T>)>,
    field: FieldMapping<T>,
    src: Seq<u8>,
    src_base: int,
    state: Migration<T>,
    dest_base: int,
    fuel: nat,
)
    requires
        field.action is Copy,
        src.len() <= usize::MAX,
        state.dest.len() <= usize::MAX,
        fits(
            src_base + field.action->Copy_old_offset,
            field.new_ty.layout_spec().spec_size() as int,
            src.len() as int,
        ),
        fits(
            dest_base + field.new_offset,
            field.new_ty.layout_spec().spec_size() as int,
            state.dest.len() as int,
        ),
    ensures
        ({
            let after = map_field_spec(
                heap,
                conversions,
                field,
                src,
                src_base,
                state,
                dest_base,
                fuel,
            );
            let n = field.new_ty.layout_spec().spec_size() as int;
            let from = src_base + field.action->Copy_old_offset;
            let at = dest_base + field.new_offset;
            &&& after.allocs == state.allocs
            &&& after.dest.len() == state.dest.len()
            &&& after.dest.subrange(at, at + n) == src.subrange(from, from + n)
            &&& forall|i: int|
                0 <= i < after.dest.len() && !(at <= i < at + n) ==> after.dest[i] == state.dest[i]
        }),
{
    let after = map_field_spec(heap, conversions, field, src, src_base, state, dest_base, fuel);
    let n = field.new_ty.layout_spec().spec_size() as int;
    let from = src_base + field.action->Copy_old_offset;
    let at = dest_base + field.new_offset;
    assert(after.dest.subrange(at, at + n) =~= src.subrange(from, from + n));
}

/// A new field that is stored in place is left as it is: zero, in a payload
/// that starts as zero bytes.
pub proof fn lemma_insert_in_place_leaves_zero<T: MarkSweepType>(
    heap: Heap<T>,
    conversions: Seq<(T, Conversion<T>)>,
    field: FieldMapping<T>,
    src: Seq<u8>,
    src_base: int,
    state: Migration<T>,
    dest_base: int,
    fuel: nat,
)
    requires
        field.action is Insert,
        field.new_ty.is_stack_allocated_spec(),
    ensures
        map_field_spec(heap, conversions, field, src, src_base, state, dest_base, fuel) == state,
{
}

/// A cast between two primitive types with the same GUID copies the bytes of
/// the value, where the old and the new field lie within their buffers.
pub proof fn lemma_cast_to_the_same_primitive_copies<T: MarkSweepType>(
    heap: Heap<T>,
    conversions: Seq<(T, Conversion<T>)>,
    field: FieldMapping<T>,
    src: Seq<u8>,
    src_base: int,
    state: Migration<T>,
    dest_base: int,
    fuel: nat,
    primitive: crate::cast::Primitive,
)
    requires
        field.action is Cast,
        !field.action->Cast_old_ty.is_struct_spec(),
        field.action->Cast_old_ty.guid_spec() == field.new_ty.guid_spec(),
        CastTable::spec_lookup(field.new_ty.guid_spec()) == Some(primitive),
        src.len() <= usize::MAX,
        state.dest.len() <= usize::MAX,
        fits(
            src_base + field.action->Cast_old_offset,
            primitive.spec_size() as int,
            src.len() as int,
        ),
        fits(dest_base + field.new_offset, primitive.spec_size() as int, state.dest.len() as int),
    ensures
        ({
            let after = map_field_spec(
                heap,
                conversions,
                field,
                src,
                src_base,
                state,
                dest_base,
                fuel,
            );
            let n = primitive.spec_size() as int;
            let from = src_base + field.action->Cast_old_offset;
            let at = dest_base + field.new_offset;
            &&& after.allocs == state.allocs
            &&& after.dest == copy_field(src, from, state.dest, at, n)
            &&& after.dest.subrange(at, at + n) == src.subrange(from, from + n)
        }),
{
    let after = map_field_spec(heap, conversions, field, src, src_base, state, dest_base, fuel);
    let n = primitive.spec_size() as int;
    let from = src_base + field.action->Cast_old_offset;
    let at = dest_base + field.new_offset;
    let tail = src.subrange(from, src.len() as int);
    assert(tail.subrange(0, n) =~= src.subrange(from, from + n));
    assert(after.dest.subrange(at, at + n) =~= src.subrange(from, from + n));
}

/// Whether every object of the list owns as many bytes as the value layout of
/// its type and capacity asks for.
pub open spec fn all_sized<T: MarkSweepType>(allocs: Seq<ObjectView<T>>) -> bool {
    forall|k: int| 0 <= k < allocs.len() ==> Heap::record_sized(#[trigger] allocs[k])
}

/// Whether none of the fields has an array type.
pub open spec fn fields_without_arrays<T: MarkSweepType>(fields: Seq<FieldMapping<T>>) -> bool {
    forall|f: int| 0 <= f < fields.len() ==> (#[trigger] fields[f]).new_ty.element_spec() is None
}

/// Whether no conversion makes an array: neither its new type nor the type
/// of one of its fields is an array type.
pub open spec fn plan_without_arrays<T: MarkSweepType>(
    conversions: Seq<(T, Conversion<T>)>,
) -> bool {
    forall|c: int|
        0 <= c < conversions.len() ==> (#[trigger] conversions[c]).1.new_ty.element_spec() is None
            && fields_without_arrays(conversions[c].1.field_mapping@)
}

/// The state that a buffer and a list of new objects stand for.
pub open spec fn state_of<T: MarkSweepType>(dest: Seq<u8>, allocs: Seq<ObjectInfo<T>>) -> Migration<
    T,
> {
    Migration { dest, allocs: views(allocs) }
}

/// Copies `n` bytes from place `from` of `src` to place `at` of `dest`, unless
/// either range reaches beyond its buffer.
pub fn copy_checked(src: &Vec<u8>, from: usize, dest: &mut Vec<u8>, at: usize, n: usize)
    ensures
        final(dest)@ == copy_field(src@, from as int, old(dest)@, at as int, n as int),
        final(dest)@.len() == old(dest)@.len(),
{
    if from <= src.len() && n <= src.len() - from && at <= dest.len() && n <= dest.len() - at {
        copy_bytes(dest, at, src, from, n);
    }
}

/// Stores the handle of a new object at place `at` and puts the object on the
/// list of new objects.
fn place<T: MarkSweepType>(
    dest: &mut Vec<u8>,
    at: usize,
    allocs: &mut Vec<ObjectInfo<T>>,
    object: ObjectInfo<T>,
    first: usize,
)
    requires
        fits(at as int, HANDLE_SIZE as int, old(dest)@.len() as int),
        object@ == ObjectView::fresh(object.ty, object.payload@, 1),
    ensures
        state_of(final(dest)@, final(allocs)@) == place_object(
            state_of(old(dest)@, old(allocs)@),
            first as int,
            object.ty,
            object.payload@,
            at as int,
        ),
        final(dest)@.len() == old(dest)@.len(),
        all_fresh(views(old(allocs)@)) ==> all_fresh(views(final(allocs)@)),
        all_sized(views(old(allocs)@)) && Heap::record_sized(object@) ==> all_sized(
            views(final(allocs)@),
        ),
{
    match (first as u64).checked_add(allocs.len() as u64) {
        Some(number) => {
            let handle = GcPtr::from_raw(number);
            proof {
                GcPtr::lemma_raw_injective(handle, handle);
            }
            write_handle(dest, at, handle);
            let ghost record = object@;
            allocs.push(object);
            assert(views(allocs@) =~= views(old(allocs)@).push(record));
        },
        None => {},
    }
}

/// Gives a new field of type `ty` at place `at` its value.
fn insert<T: MarkSweepType>(
    dest: &mut Vec<u8>,
    at: usize,
    allocs: &mut Vec<ObjectInfo<T>>,
    ty: &T,
    first: usize,
)
    ensures
        state_of(final(dest)@, final(allocs)@) == insert_field(
            state_of(old(dest)@, old(allocs)@),
            first as int,
            *ty,
            at as int,
        ),
        final(dest)@.len() == old(dest)@.len(),
        all_fresh(views(old(allocs)@)) ==> all_fresh(views(final(allocs)@)),
        all_sized(views(old(allocs)@)) && ty.element_spec() is None ==> all_sized(
            views(final(allocs)@),
        ),
{
    if !ty.is_stack_allocated() && at <= dest.len() && HANDLE_SIZE <= dest.len() - at {
        let object = alloc_obj(ty.clone_type());
        place(dest, at, allocs, object, first);
    }
}

/// Gives one field of a new value its value from the old value. The old value
/// starts at place `src_base` of `src`, the new one at place `dest_base` of
/// `dest`. Objects that the field needs are put on the list of new objects.
pub fn map_field<T: MarkSweepType>(
    objects: &Vec<Option<ObjectInfo<T>>>,
    table: &CastTable,
    conversions: &Vec<(T, Conversion<T>)>,
    field: &FieldMapping<T>,
    src: &Vec<u8>,
    src_base: usize,
    dest: &mut Vec<u8>,
    dest_base: usize,
    new_allocations: &mut Vec<ObjectInfo<T>>,
    fuel: usize,
)
    requires
        table.wf(),
    ensures
        state_of(final(dest)@, final(new_allocations)@) == map_field_spec(
            Heap::of(objects@),
            conversions@,
            *field,
            src@,
            src_base as int,
            state_of(old(dest)@, old(new_allocations)@),
            dest_base as int,
            fuel as nat,
        ),
        final(dest)@.len() == old(dest)@.len(),
        all_fresh(views(old(new_allocations)@)) ==> all_fresh(views(final(new_allocations)@)),
        all_sized(views(old(new_allocations)@)) && plan_without_arrays(conversions@)
            && field.new_ty.element_spec() is None ==> all_sized(
            views(final(new_allocations)@),
        ),
    decreases fuel, 0int,
{
    let first = objects.len();
    let new_ty = &field.new_ty;
    let at = match dest_base.checked_add(field.new_offset) {
        Some(at) => at,
        None => {
            return ;
        },
    };
    match &field.action {
        Action::Insert => {
            insert(dest, at, new_allocations, new_ty, first);
        },
        Action::Copy { old_offset } => {
            match src_base.checked_add(*old_offset) {
                Some(from) => {
                    copy_checked(src, from, dest, at, new_ty.layout().size());
                },
                None => {
                    let ghost room = src.len();
                },
            }
        },
        Action::Cast { old_offset, old_ty } => {
            let from = match src_base.checked_add(*old_offset) {
                Some(from) => from,
                None => {
                    return ;
                },
            };
            if !old_ty.is_struct() {
                let old_guid = old_ty.guid();
                let new_guid = new_ty.guid();
                table.try_cast(&old_guid, &new_guid, src, from, dest, at);
                return ;
            }
            let old_name = old_ty.name();
            let new_name = new_ty.name();
            let is_same_struct = old_name == new_name;
            let conversion = lookup_conversion(conversions, old_ty);
            if old_ty.is_stack_allocated() {
                if new_ty.is_stack_allocated() {
                    match conversion {
                        Some(c) => {
                            if is_same_struct && fuel > 0 {
                                map_fields(
                                    objects,
                                    table,
                                    conversions,
                                    &conversions[c].1.field_mapping,
                                    src,
                                    from,
                                    dest,
                                    at,
                                    new_allocations,
                                    fuel - 1,
                                );
                            }
                        },
                        None => {},
                    }
                    } else {
                    if at <= dest.len() && HANDLE_SIZE <= dest.len() - at {
                        let mut object = alloc_obj(new_ty.clone_type());
                        match conversion {
                            Some(c) => {
                                if is_same_struct && fuel > 0 {
                                    map_fields(
                                        objects,
                                        table,
                                        conversions,
                                        &conversions[c].1.field_mapping,
                                        src,
                                        from,
                                        &mut object.payload,
                                        0,
                                        new_allocations,
                                        fuel - 1,
                                    );
                                }
                            },
                            None => {},
                        }
                        place(dest, at, new_allocations, object, first);
                    }
                    }
            } else if !new_ty.is_stack_allocated() {
                if is_same_struct {
                    copy_checked(src, from, dest, at, HANDLE_SIZE);
                } else {
                    insert(dest, at, new_allocations, new_ty, first);
                }
            } else {
                if is_same_struct && from <= src.len() && HANDLE_SIZE <= src.len() - from {
                    let target = read_handle(src, from);
                    let raw = target.raw();
                    if raw < first as u64 && objects[raw as usize].is_some() {
                        let object = objects[raw as usize].as_ref().unwrap();
                        if is_same_type(&object.ty, old_ty) {
                            match conversion {
                                Some(c) => {
                                    if fuel > 0 {
                                        map_fields(
                                            objects,
                                            table,
                                            conversions,
                                            &conversions[c].1.field_mapping,
                                            &object.payload,
                                            0,
                                            dest,
                                            at,
                                            new_allocations,
                                            fuel - 1,
                                        );
                                    }
                                },
                                None => {},
                            }
                        } else {
                            copy_checked(&object.payload, 0, dest, at, object.ty.layout().size());
                        }
                    }
                }
            }
        },
    }
}

/// Gives the fields of a new value their values from the old value, in the
/// order of `mapping`. The old value starts at place `src_base` of `src`, the
/// new one at place `dest_base` of `dest`.
pub fn map_fields<T: MarkSweepType>(
    objects: &Vec<Option<ObjectInfo<T>>>,
    table: &CastTable,
    conversions: &Vec<(T, Conversion<T>)>,
    mapping: &Vec<FieldMapping<T>>,
    src: &Vec<u8>,
    src_base: usize,
    dest: &mut Vec<u8>,
    dest_base: usize,
    new_allocations: &mut Vec<ObjectInfo<T>>,
    fuel: usize,
)
    requires
        table.wf(),
    ensures
        state_of(final(dest)@, final(new_allocations)@) == map_fields_spec(
            Heap::of(objects@),
            conversions@,
            mapping@,
            0,
            src@,
            src_base as int,
            state_of(old(dest)@, old(new_allocations)@),
            dest_base as int,
            fuel as nat,
        ),
        final(dest)@.len() == old(dest)@.len(),
        all_fresh(views(old(new_allocations)@)) ==> all_fresh(views(final(new_allocations)@)),
        all_sized(views(old(new_allocations)@)) && plan_without_arrays(conversions@)
            && fields_without_arrays(mapping@) ==> all_sized(views(final(new_allocations)@)),
    decreases fuel, 1int,
{
    let mut i: usize = 0;
    while i < mapping.len()
        invariant
            0 <= i <= mapping@.len(),
            table.wf(),
            dest@.len() == old(dest)@.len(),
            all_fresh(views(old(new_allocations)@)) ==> all_fresh(views(new_allocations@)),
            all_sized(views(old(new_allocations)@)) && plan_without_arrays(conversions@)
                && fields_without_arrays(mapping@) ==> all_sized(views(new_allocations@)),
            map_fields_spec(
                Heap::of(objects@),
                conversions@,
                mapping@,
                i as int,
                src@,
                src_base as int,
                state_of(dest@, new_allocations@),
                dest_base as int,
                fuel as nat,
            ) == map_fields_spec(
                Heap::of(objects@),
                conversions@,
                mapping@,
                0,
                src@,
                src_base as int,
                state_of(old(dest)@, old(new_allocations)@),
                dest_base as int,
                fuel as nat,
            ),
        decreases mapping@.len() - i,
    {
        map_field(
            objects,
            table,
            conversions,
            &mapping[i],
            src,
            src_base,
            dest,
            dest_base,
            new_allocations,
            fuel,
        );
        i += 1;
    }
}

} // verus!
