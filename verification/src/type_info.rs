//! Descriptors of the types of a program: primitives, structs and arrays, and
//! the handles that a value of such a type holds.
//!
//! A field or an element whose type is stored in place lies within the value
//! that holds it; one whose type is not is a handle of eight bytes. An array
//! stores its elements one after the other, each padded to its alignment.

use crate::abi::Guid;
use crate::bytes::read_handle;
use crate::code_model::StructMemoryKind;
use crate::gc::{GcPtr, MarkSweepType};
use crate::layout::{Layout, HANDLE_SIZE};
use std::sync::Arc;
use vstd::prelude::*;

verus! {

/// A field of a struct type.
#[derive(Debug)]
pub struct FieldInfo {
    /// The name of the field.
    pub name: String,
    /// The type of the field.
    pub type_info: Arc<TypeInfo>,
    /// The offset of the field in a value of the struct, in bytes.
    pub offset: usize,
}

/// What a struct type is made of.
#[derive(Debug)]
pub struct StructInfo {
    /// The fields, in the order of their declaration.
    pub fields: Vec<FieldInfo>,
    /// How values of the struct are stored.
    pub memory_kind: StructMemoryKind,
}

/// What kind of type a type is.
#[derive(Debug)]
pub enum TypeInfoData {
    /// A primitive type.
    Primitive,
    /// A struct type.
    Struct(StructInfo),
    /// An array type, with the type of its elements.
    Array(Arc<TypeInfo>),
}

/// The descriptor of a type.
#[derive(Debug)]
pub struct TypeInfo {
    /// The name of the type.
    pub name: String,
    /// The layout of a value of the type.
    pub layout: Layout,
    /// The GUID of the type.
    pub guid: Guid,
    /// What kind of type it is.
    pub data: TypeInfoData,
}

/// A trait used to obtain a type's fields.
pub trait TypeFields: Send + Sync {
    /// Returns the type's fields.
    fn fields(&self) -> &[FieldInfo];
}

impl TypeFields for StructInfo {
    fn fields(&self) -> (fields: &[FieldInfo])
        ensures
            fields@ == self.fields@,
    {
        self.fields.as_slice()
    }
}

/// Whether a value of the type is stored in place where it is a field or an
/// element: whether the type is primitive or a struct of the value kind.
pub open spec fn in_place(ty: TypeInfo) -> bool {
    match ty.data {
        TypeInfoData::Primitive => true,
        TypeInfoData::Struct(s) => s.memory_kind == StructMemoryKind::Value,
        TypeInfoData::Array(_) => false,
    }
}

/// The handle stored at place `at`, unless it reaches beyond the payload or
/// denotes no object.
pub open spec fn handle_slot(payload: Seq<u8>, at: int) -> Seq<GcPtr> {
    if 0 <= at && at + HANDLE_SIZE <= payload.len() && crate::bytes::handle_at(
        payload,
        at,
    ).spec_raw() != 0 {
        seq![crate::bytes::handle_at(payload, at)]
    } else {
        Seq::empty()
    }
}

/// The handles in a value of type `ty` that is stored in place at `base`, in
/// the order of the fields.
pub open spec fn value_handles(ty: TypeInfo, payload: Seq<u8>, base: int) -> Seq<GcPtr>
    decreases ty, 1int,
{
    match ty.data {
        TypeInfoData::Struct(s) => field_handles(ty, s.fields@.len() as int, payload, base),
        _ => Seq::empty(),
    }
}

/// The handles in the first `n` fields of the struct of type `ty` at `base`:
/// the handle of a field that is stored behind one, and the handles within a
/// field that is stored in place.
pub open spec fn field_handles(ty: TypeInfo, n: int, payload: Seq<u8>, base: int) -> Seq<GcPtr>
    decreases ty, 0int, n,
{
    if n <= 0 || !(ty.data is Struct) || n > ty.data->Struct_0.fields@.len() {
        Seq::empty()
    } else {
        let field = ty.data->Struct_0.fields@[n - 1];
        let at = base + field.offset;
        field_handles(ty, n - 1, payload, base) + (if at > usize::MAX {
            Seq::empty()
        } else if in_place(*field.type_info) {
            value_handles(*field.type_info, payload, at)
        } else {
            handle_slot(payload, at)
        })
    }
}

/// The handles of element number `k` of an array of elements of type
/// `element`.
pub open spec fn element_handles(element: TypeInfo, k: int, payload: Seq<u8>) -> Seq<GcPtr> {
    let stride = if in_place(element) {
        crate::layout::round_up(
            element.layout.spec_size() as int,
            element.layout.spec_align() as int,
        )
    } else {
        HANDLE_SIZE as int
    };
    if k * stride > usize::MAX {
        Seq::empty()
    } else if in_place(element) {
        value_handles(element, payload, k * stride)
    } else {
        handle_slot(payload, k * stride)
    }
}

/// The handles of the first `n` elements of an array of elements of type
/// `element`, in the order of the elements.
pub open spec fn array_handles(element: TypeInfo, n: int, payload: Seq<u8>) -> Seq<GcPtr>
    decreases n,
{
    if n <= 0 {
        Seq::empty()
    } else {
        array_handles(element, n - 1, payload) + element_handles(element, n - 1, payload)
    }
}

/// The handles that an object of type `ty` with `length` elements holds.
pub open spec fn object_handles(ty: TypeInfo, payload: Seq<u8>, length: usize) -> Seq<GcPtr> {
    match ty.data {
        TypeInfoData::Primitive => Seq::empty(),
        TypeInfoData::Struct(_) => value_handles(ty, payload, 0),
        TypeInfoData::Array(element) => array_handles(*element, length as int, payload),
    }
}

/// Calls `Arc::clone` of std, which makes another pointer to the same value.
#[verifier::external_body]
fn share(ty: &Arc<TypeInfo>) -> (shared: Arc<TypeInfo>)
    ensures
        shared == *ty,
{
    Arc::clone(ty)
}

impl TypeInfo {
    /// Whether a value of the type is stored in place where it is a field or
    /// an element.
    pub fn is_in_place(&self) -> (b: bool)
        ensures
            b == in_place(*self),
    {
        match &self.data {
            TypeInfoData::Primitive => true,
            TypeInfoData::Struct(s) => match s.memory_kind {
                StructMemoryKind::Value => true,
                StructMemoryKind::Gc => false,
            },
            TypeInfoData::Array(_) => false,
        }
    }

    /// Appends the handles in a value of this type that is stored in place at
    /// `base`.
    pub fn trace_value(&self, payload: &Vec<u8>, base: usize, found: &mut Vec<GcPtr>)
        ensures
            final(found)@ == old(found)@ + value_handles(*self, payload@, base as int),
        decreases self,
    {
        match &self.data {
            TypeInfoData::Struct(s) => {
                let mut i: usize = 0;
                assert(found@ =~= old(found)@ + field_handles(*self, 0, payload@, base as int));
                while i < s.fields.len()
                    invariant
                        0 <= i <= s.fields@.len(),
                        self.data == TypeInfoData::Struct(*s),
                        found@ == old(found)@ + field_handles(
                            *self,
                            i as int,
                            payload@,
                            base as int,
                        ),
                    decreases s.fields@.len() - i,
                {
                    let ghost before = found@;
                    let field = &s.fields[i];
                    match base.checked_add(field.offset) {
                        Some(at) => {
                            if field.type_info.is_in_place() {
                                field.type_info.trace_value(payload, at, found);
                            } else {
                                push_handle(payload, at, found);
                            }
                        },
                        None => {},
                    }
                    i += 1;
                    assert(found@ =~= old(found)@ + field_handles(
                        *self,
                        i as int,
                        payload@,
                        base as int,
                    ));
                }
            },
            _ => {
                assert(found@ =~= old(found)@ + Seq::<GcPtr>::empty());
            },
        }
    }
}

/// Appends the handle stored at place `at`, unless it reaches beyond the
/// payload or denotes no object.
fn push_handle(payload: &Vec<u8>, at: usize, found: &mut Vec<GcPtr>)
    ensures
        final(found)@ == old(found)@ + handle_slot(payload@, at as int),
{
    if at <= payload.len() && HANDLE_SIZE <= payload.len() - at {
        let handle = read_handle(payload, at);
        if !handle.is_null() {
            found.push(handle);
            assert(found@ =~= old(found)@ + seq![handle]);
            return ;
        }
    }
    assert(found@ =~= old(found)@ + Seq::<GcPtr>::empty());
}

impl MarkSweepType for Arc<TypeInfo> {
    open spec fn layout_spec(&self) -> Layout {
        self.layout
    }

    open spec fn is_stack_allocated_spec(&self) -> bool {
        in_place(**self)
    }

    open spec fn is_struct_spec(&self) -> bool {
        self.data is Struct
    }

    open spec fn element_spec(&self) -> Option<Self> {
        match self.data {
            TypeInfoData::Array(element) => Some(element),
            _ => None,
        }
    }

    open spec fn name_spec(&self) -> Seq<char> {
        self.name@
    }

    open spec fn guid_spec(&self) -> Guid {
        self.guid
    }

    open spec fn trace_spec(&self, payload: Seq<u8>, length: usize) -> Seq<GcPtr> {
        object_handles(**self, payload, length)
    }

    fn layout(&self) -> (l: Layout) {
        self.layout
    }

    fn is_stack_allocated(&self) -> (b: bool) {
        self.is_in_place()
    }

    fn is_struct(&self) -> (b: bool) {
        match &self.data {
            TypeInfoData::Struct(_) => true,
            _ => false,
        }
    }

    fn as_array(&self) -> (e: Option<Self>) {
        match &self.data {
            TypeInfoData::Array(element) => Some(share(element)),
            _ => None,
        }
    }

    fn name(&self) -> (n: String) {
        self.name.clone()
    }

    fn guid(&self) -> (g: Guid) {
        self.guid
    }

    fn trace(&self, payload: &Vec<u8>, length: usize) -> (r: Vec<GcPtr>) {
        let mut found: Vec<GcPtr> = Vec::new();
        match &self.data {
            TypeInfoData::Primitive => {},
            TypeInfoData::Struct(_) => {
                self.trace_value(payload, 0, &mut found);
                assert(found@ =~= value_handles(**self, payload@, 0));
            },
            TypeInfoData::Array(element) => {
                let stride = if element.is_in_place() {
                    element.layout.padded_size()
                } else {
                    HANDLE_SIZE
                };
                let mut k: usize = 0;
                while k < length
                    invariant
                        0 <= k <= length,
                        stride == if in_place(**element) {
                            crate::layout::round_up(
                                element.layout.spec_size() as int,
                                element.layout.spec_align() as int,
                            )
                        } else {
                            HANDLE_SIZE as int
                        },
                        found@ == array_handles(**element, k as int, payload@),
                    decreases length - k,
                {
                    let ghost before = found@;
                    match k.checked_mul(stride) {
                        Some(at) => {
                            if element.is_in_place() {
                                element.trace_value(payload, at, &mut found);
                            } else {
                                push_handle(payload, at, &mut found);
                            }
                        },
                        None => {
                            assert(found@ =~= before + Seq::<GcPtr>::empty());
                        },
                    }
                    k += 1;
                }
            },
        }
        found
    }

    fn clone_type(&self) -> (t: Self) {
        share(self)
    }
}

} // verus!
