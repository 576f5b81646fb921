//! Conversions between the values of primitive types, keyed by the GUIDs of
//! the two types.
//!
//! The GUID of a primitive type is the hash of its name: `core::bool`, and
//! `core::` followed by the type's usual short name for the integers and the
//! floating-point types of 32 and 64 bits. Values are stored least
//! significant byte first, signed ones in two's complement.

use crate::abi::Guid;
use crate::bytes::copy_bytes;
use vstd::prelude::*;

verus! {

/// A primitive type.
#[derive(Clone, Copy, Debug, PartialEq, Eq, Structural)]
pub enum Primitive {
    Bool,
    I8,
    I16,
    I32,
    I64,
    I128,
    U8,
    U16,
    U32,
    U64,
    U128,
    F32,
    F64,
}

/// The number of primitive types.
pub const PRIMITIVES: usize = 13;

impl Primitive {
    /// The primitive type with the given number, in the order of the
    /// declaration.
    pub open spec fn spec_from_index(k: int) -> Primitive {
        if k == 0 {
            Primitive::Bool
        } else if k == 1 {
            Primitive::I8
        } else if k == 2 {
            Primitive::I16
        } else if k == 3 {
            Primitive::I32
        } else if k == 4 {
            Primitive::I64
        } else if k == 5 {
            Primitive::I128
        } else if k == 6 {
            Primitive::U8
        } else if k == 7 {
            Primitive::U16
        } else if k == 8 {
            Primitive::U32
        } else if k == 9 {
            Primitive::U64
        } else if k == 10 {
            Primitive::U128
        } else if k == 11 {
            Primitive::F32
        } else {
            Primitive::F64
        }
    }

    /// The primitive type with the given number, in the order of the
    /// declaration.
    pub fn from_index(k: usize) -> (p: Primitive)
        requires
            k < PRIMITIVES,
        ensures
            p == Self::spec_from_index(k as int),
    {
        if k == 0 {
            Primitive::Bool
        } else if k == 1 {
            Primitive::I8
        } else if k == 2 {
            Primitive::I16
        } else if k == 3 {
            Primitive::I32
        } else if k == 4 {
            Primitive::I64
        } else if k == 5 {
            Primitive::I128
        } else if k == 6 {
            Primitive::U8
        } else if k == 7 {
            Primitive::U16
        } else if k == 8 {
            Primitive::U32
        } else if k == 9 {
            Primitive::U64
        } else if k == 10 {
            Primitive::U128
        } else if k == 11 {
            Primitive::F32
        } else {
            Primitive::F64
        }
    }

    /// The name of the type, in ASCII.
    pub open spec fn spec_name(self) -> Seq<u8> {
        match self {
            Primitive::Bool => seq![99u8, 111, 114, 101, 58, 58, 98, 111, 111, 108],
            Primitive::I8 => seq![99u8, 111, 114, 101, 58, 58, 105, 56],
            Primitive::I16 => seq![99u8, 111, 114, 101, 58, 58, 105, 49, 54],
            Primitive::I32 => seq![99u8, 111, 114, 101, 58, 58, 105, 51, 50],
            Primitive::I64 => seq![99u8, 111, 114, 101, 58, 58, 105, 54, 52],
            Primitive::I128 => seq![99u8, 111, 114, 101, 58, 58, 105, 49, 50, 56],
            Primitive::U8 => seq![99u8, 111, 114, 101, 58, 58, 117, 56],
            Primitive::U16 => seq![99u8, 111, 114, 101, 58, 58, 117, 49, 54],
            Primitive::U32 => seq![99u8, 111, 114, 101, 58, 58, 117, 51, 50],
            Primitive::U64 => seq![99u8, 111, 114, 101, 58, 58, 117, 54, 52],
            Primitive::U128 => seq![99u8, 111, 114, 101, 58, 58, 117, 49, 50, 56],
            Primitive::F32 => seq![99u8, 111, 114, 101, 58, 58, 102, 51, 50],
            Primitive::F64 => seq![99u8, 111, 114, 101, 58, 58, 102, 54, 52],
        }
    }

    /// The name of the type, in ASCII.
    pub fn name(self) -> (name: Vec<u8>)
        ensures
            name@ == self.spec_name(),
    {
        let name = match self {
            Primitive::Bool => vec![99u8, 111, 114, 101, 58, 58, 98, 111, 111, 108],
            Primitive::I8 => vec![99u8, 111, 114, 101, 58, 58, 105, 56],
            Primitive::I16 => vec![99u8, 111, 114, 101, 58, 58, 105, 49, 54],
            Primitive::I32 => vec![99u8, 111, 114, 101, 58, 58, 105, 51, 50],
            Primitive::I64 => vec![99u8, 111, 114, 101, 58, 58, 105, 54, 52],
            Primitive::I128 => vec![99u8, 111, 114, 101, 58, 58, 105, 49, 50, 56],
            Primitive::U8 => vec![99u8, 111, 114, 101, 58, 58, 117, 56],
            Primitive::U16 => vec![99u8, 111, 114, 101, 58, 58, 117, 49, 54],
            Primitive::U32 => vec![99u8, 111, 114, 101, 58, 58, 117, 51, 50],
            Primitive::U64 => vec![99u8, 111, 114, 101, 58, 58, 117, 54, 52],
            Primitive::U128 => vec![99u8, 111, 114, 101, 58, 58, 117, 49, 50, 56],
            Primitive::F32 => vec![99u8, 111, 114, 101, 58, 58, 102, 51, 50],
            Primitive::F64 => vec![99u8, 111, 114, 101, 58, 58, 102, 54, 52],
        };
        assert(name@ =~= self.spec_name());
        name
    }

    /// The bytes of the GUID of the type: the hash of its name.
    pub open spec fn guid_bytes(self) -> Seq<u8> {
        crate::abi::md5_digest(self.spec_name())
    }

    /// The GUID of the type.
    pub fn guid(self) -> (guid: Guid)
        ensures
            guid.bytes() == self.guid_bytes(),
    {
        let name = self.name();
        Guid::from_bytes(name.as_slice())
    }

    /// The number of bytes of a value of the type.
    pub open spec fn spec_size(self) -> usize {
        match self {
            Primitive::Bool | Primitive::I8 | Primitive::U8 => 1,
            Primitive::I16 | Primitive::U16 => 2,
            Primitive::I32 | Primitive::U32 | Primitive::F32 => 4,
            Primitive::I64 | Primitive::U64 | Primitive::F64 => 8,
            Primitive::I128 | Primitive::U128 => 16,
        }
    }

    /// The number of bytes of a value of the type.
    #[verifier::when_used_as_spec(spec_size)]
    pub fn size(self) -> (n: usize)
        ensures
            n == self.spec_size(),
    {
        match self {
            Primitive::Bool | Primitive::I8 | Primitive::U8 => 1,
            Primitive::I16 | Primitive::U16 => 2,
            Primitive::I32 | Primitive::U32 | Primitive::F32 => 4,
            Primitive::I64 | Primitive::U64 | Primitive::F64 => 8,
            Primitive::I128 | Primitive::U128 => 16,
        }
    }

    /// Whether the type is a signed integer.
    pub open spec fn spec_is_signed(self) -> bool {
        self == Primitive::I8 || self == Primitive::I16 || self == Primitive::I32 || self
            == Primitive::I64 || self == Primitive::I128
    }

    /// Whether the type is a signed integer.
    #[verifier::when_used_as_spec(spec_is_signed)]
    pub fn is_signed(self) -> (b: bool)
        ensures
            b == self.spec_is_signed(),
    {
        match self {
            Primitive::I8 | Primitive::I16 | Primitive::I32 | Primitive::I64 | Primitive::I128 => {
                true
            },
            _ => false,
        }
    }

    /// Whether the type is an unsigned integer.
    pub open spec fn spec_is_unsigned(self) -> bool {
        self == Primitive::U8 || self == Primitive::U16 || self == Primitive::U32 || self
            == Primitive::U64 || self == Primitive::U128
    }

    /// Whether the type is an unsigned integer.
    #[verifier::when_used_as_spec(spec_is_unsigned)]
    pub fn is_unsigned(self) -> (b: bool)
        ensures
            b == self.spec_is_unsigned(),
    {
        match self {
            Primitive::U8 | Primitive::U16 | Primitive::U32 | Primitive::U64 | Primitive::U128 => {
                true
            },
            _ => false,
        }
    }

    /// Whether every value of the type has a value of `to` that stands for
    /// the same: the two types are the same, or both are integers, `to` has
    /// more bytes, and `to` is signed or the type itself is not.
    pub open spec fn spec_converts_to(self, to: Primitive) -> bool {
        self == to || (self.spec_size() < to.spec_size() && (self.spec_is_unsigned() && (
        to.spec_is_unsigned() || to.spec_is_signed()) || self.spec_is_signed()
            && to.spec_is_signed()))
    }

    /// Whether every value of the type has a value of `to` that stands for
    /// the same.
    #[verifier::when_used_as_spec(spec_converts_to)]
    pub fn converts_to(self, to: Primitive) -> (b: bool)
        ensures
            b == self.spec_converts_to(to),
    {
        self == to || (self.size() < to.size() && (self.is_unsigned() && (to.is_unsigned()
            || to.is_signed()) || self.is_signed() && to.is_signed()))
    }
}

/// The bytes of a value with `n` bytes that stands for the same number as
/// `bytes` does: `bytes`, followed by bytes that repeat its sign where
/// `signed` holds, and by zero bytes where not.
pub open spec fn widened(bytes: Seq<u8>, n: nat, signed: bool) -> Seq<u8> {
    Seq::new(
        n,
        |i: int|
            if i < bytes.len() {
                bytes[i]
            } else if signed && bytes.len() > 0 && bytes.last() >= 128 {
                255u8
            } else {
                0u8
            },
    )
}

/// The bytes of the value of type `to` that stands for what `bytes` stands
/// for as a value of type `from`.
pub open spec fn converted(from: Primitive, to: Primitive, bytes: Seq<u8>) -> Seq<u8> {
    if from == to {
        bytes
    } else {
        widened(bytes, to.spec_size() as nat, from.spec_is_signed())
    }
}

/// 256 to the power of `n`.
pub open spec fn pow256(n: nat) -> nat
    decreases n,
{
    if n == 0 {
        1
    } else {
        256 * pow256((n - 1) as nat)
    }
}

/// The number that the bytes stand for as an unsigned value, least
/// significant byte first.
pub open spec fn unsigned_value(bytes: Seq<u8>) -> nat
    decreases bytes.len(),
{
    if bytes.len() == 0 {
        0
    } else {
        unsigned_value(bytes.drop_last()) + (bytes.last() as nat) * pow256(
            (bytes.len() - 1) as nat,
        )
    }
}

/// The number that the bytes stand for as a signed value in two's complement,
/// least significant byte first.
pub open spec fn signed_value(bytes: Seq<u8>) -> int {
    if bytes.len() > 0 && bytes.last() >= 128 {
        unsigned_value(bytes) - pow256(bytes.len())
    } else {
        unsigned_value(bytes) as int
    }
}

/// The number that the bytes stand for as a value of the type.
pub open spec fn value_of(ty: Primitive, bytes: Seq<u8>) -> int {
    if ty.spec_is_signed() {
        signed_value(bytes)
    } else {
        unsigned_value(bytes) as int
    }
}

/// Widening keeps the number: an unsigned value that is filled up with zero
/// bytes stands for the same number, as an unsigned value and, once a byte
/// was added, as a signed one; a signed value that is filled up with its sign
/// stands for the same number.
pub proof fn lemma_widened_value(bytes: Seq<u8>, n: nat)
    requires
        0 < bytes.len() <= n,
    ensures
        unsigned_value(widened(bytes, n, false)) == unsigned_value(bytes),
        n > bytes.len() ==> signed_value(widened(bytes, n, false)) == unsigned_value(bytes),
        signed_value(widened(bytes, n, true)) == signed_value(bytes),
    decreases n,
{
    if n == bytes.len() {
        assert(widened(bytes, n, false) =~= bytes);
        assert(widened(bytes, n, true) =~= bytes);
    } else {
        let shorter = (n - 1) as nat;
        let p = pow256(shorter);
        lemma_widened_value(bytes, shorter);
        assert(pow256(n) == 256 * p);
        let zero = widened(bytes, n, false);
        assert(zero.drop_last() =~= widened(bytes, shorter, false));
        assert(zero.last() == 0);
        assert(unsigned_value(zero) == unsigned_value(zero.drop_last()) + (zero.last() as nat)
            * p);
        assert((0 as nat) * p == 0);
        let sign = widened(bytes, n, true);
        let before = widened(bytes, shorter, true);
        assert(sign.drop_last() =~= before);
        assert(before.last() >= 128 <==> bytes.last() >= 128);
        assert(unsigned_value(sign) == unsigned_value(before) + (sign.last() as nat) * p);
        if bytes.last() >= 128 {
            assert(sign.last() == 255);
            assert((255 as nat) * p == 255 * p);
        } else {
            assert(sign.last() == 0);
        }
    }
}

/// A conversion between integer types keeps the number that the value stands
/// for.
pub proof fn lemma_conversion_keeps_the_value(from: Primitive, to: Primitive, bytes: Seq<u8>)
    requires
        from.spec_converts_to(to),
        bytes.len() == from.spec_size(),
    ensures
        converted(from, to, bytes).len() == to.spec_size(),
        value_of(to, converted(from, to, bytes)) == value_of(from, bytes),
{
    if from != to {
        lemma_widened_value(bytes, to.spec_size() as nat);
    }
}

/// The GUIDs of the primitive types, computed once.
pub struct CastTable {
    guids: Vec<Guid>,
}

impl CastTable {
    /// Whether the table holds the GUID of each primitive type, in the order
    /// of their declaration.
    pub closed spec fn wf(&self) -> bool {
        &&& self.guids@.len() == PRIMITIVES
        &&& forall|k: int|
            0 <= k < PRIMITIVES ==> (#[trigger] self.guids@[k]).bytes()
                == Primitive::spec_from_index(k).guid_bytes()
    }

    /// Computes the GUIDs of the primitive types.
    pub fn new() -> (table: CastTable)
        ensures
            table.wf(),
    {
        let mut guids: Vec<Guid> = Vec::new();
        let mut k: usize = 0;
        while k < PRIMITIVES
            invariant
                0 <= k <= PRIMITIVES,
                guids@.len() == k,
                forall|i: int|
                    0 <= i < k ==> (#[trigger] guids@[i]).bytes() == Primitive::spec_from_index(
                        i,
                    ).guid_bytes(),
            decreases PRIMITIVES - k,
        {
            guids.push(Primitive::from_index(k).guid());
            k += 1;
        }
        CastTable { guids }
    }

    /// The first primitive type, in the order of their declaration, among
    /// those from number `k` on that has the given GUID.
    pub open spec fn lookup_from(guid: Guid, k: int) -> Option<Primitive>
        decreases PRIMITIVES - k,
    {
        if k < 0 || k >= PRIMITIVES {
            None
        } else if Primitive::spec_from_index(k).guid_bytes() == guid.bytes() {
            Some(Primitive::spec_from_index(k))
        } else {
            Self::lookup_from(guid, k + 1)
        }
    }

    /// The primitive type with the given GUID, if there is one.
    pub open spec fn spec_lookup(guid: Guid) -> Option<Primitive> {
        Self::lookup_from(guid, 0)
    }

    /// The primitive type with the given GUID, if there is one.
    pub fn lookup(&self, guid: &Guid) -> (p: Option<Primitive>)
        requires
            self.wf(),
        ensures
            p == Self::spec_lookup(*guid),
    {
        let mut k: usize = 0;
        while k < PRIMITIVES
            invariant
                0 <= k <= PRIMITIVES,
                self.wf(),
                Self::lookup_from(*guid, k as int) == Self::spec_lookup(*guid),
            decreases PRIMITIVES - k,
        {
            if self.guids[k].same(guid) {
                return Some(Primitive::from_index(k));
            }
            k += 1;
        }
        None
    }

    /// What a cast from the type with GUID `old_guid` to that with GUID
    /// `new_guid` writes, given the bytes of the source from the source
    /// value's place on: the converted value, where both GUIDs are those of
    /// primitive types, the first converts to the second, and the source
    /// holds a whole value.
    pub open spec fn cast_result(old_guid: Guid, new_guid: Guid, src: Seq<u8>) -> Option<
        Seq<u8>,
    > {
        match (Self::spec_lookup(old_guid), Self::spec_lookup(new_guid)) {
            (Some(from), Some(to)) => if from.spec_converts_to(to) && from.spec_size()
                <= src.len() {
                Some(converted(from, to, src.subrange(0, from.spec_size() as int)))
            } else {
                None
            },
            _ => None,
        }
    }

    /// `dest` after a cast of the value at place `from` of `src` to place
    /// `at` of it, or `None` where no cast is made: the types do not convert,
    /// or the converted value has no room in `dest` there.
    pub open spec fn cast_into(
        old_guid: Guid,
        new_guid: Guid,
        src: Seq<u8>,
        from: int,
        dest: Seq<u8>,
        at: int,
    ) -> Option<Seq<u8>> {
        if from > src.len() {
            None
        } else {
            match Self::cast_result(old_guid, new_guid, src.subrange(from, src.len() as int)) {
                Some(value) => if at + value.len() <= dest.len() {
                    Some(crate::bytes::overlay(dest, at, value))
                } else {
                    None
                },
                None => None,
            }
        }
    }

    /// Converts the value of the primitive type with GUID `old_guid` at place
    /// `from` of `src` to the primitive type with GUID `new_guid`, and writes
    /// it to place `at` of `dest`. Returns `false`, and writes nothing, where
    /// there is no such conversion or a value reaches beyond its buffer.
    pub fn try_cast(
        &self,
        old_guid: &Guid,
        new_guid: &Guid,
        src: &Vec<u8>,
        from: usize,
        dest: &mut Vec<u8>,
        at: usize,
    ) -> (done: bool)
        requires
            self.wf(),
        ensures
            done == Self::cast_into(
                *old_guid,
                *new_guid,
                src@,
                from as int,
                old(dest)@,
                at as int,
            ) is Some,
            done ==> final(dest)@ == Self::cast_into(
                *old_guid,
                *new_guid,
                src@,
                from as int,
                old(dest)@,
                at as int,
            )->Some_0,
            !done ==> final(dest)@ == old(dest)@,
    {
        if from > src.len() {
            return false;
        }
        let found_old = self.lookup(old_guid);
        let found_new = self.lookup(new_guid);
        let (old_ty, new_ty) = match (found_old, found_new) {
            (Some(a), Some(b)) => (a, b),
            _ => {
                return false;
            },
        };
        let old_size = old_ty.size();
        let new_size = new_ty.size();
        if !old_ty.converts_to(new_ty) || old_size > src.len() - from {
            return false;
        }
        let ghost tail = src@.subrange(from as int, src@.len() as int);
        let ghost value = converted(old_ty, new_ty, tail.subrange(0, old_size as int));
        assert(tail.subrange(0, old_size as int) =~= src@.subrange(
            from as int,
            from + old_size,
        ));
        if at > dest.len() || new_size > dest.len() - at {
            return false;
        }
        copy_bytes(dest, at, src, from, old_size);
        if old_size < new_size {
            let fill: u8 = if old_ty.is_signed() && src[from + old_size - 1] >= 128 {
                255
            } else {
                0
            };
            let room = dest.len();
            let mut k: usize = old_size;
            while k < new_size
                invariant
                    old_size <= k <= new_size,
                    dest@.len() == old(dest)@.len(),
                    dest@.len() == room,
                    at + new_size <= room,
                    forall|i: int| 0 <= i < at ==> dest@[i] == old(dest)@[i],
                    forall|i: int| at + new_size <= i < dest@.len() ==> dest@[i] == old(dest)@[i],
                    forall|i: int| at + k <= i < at + new_size ==> dest@[i] == old(dest)@[i],
                    forall|i: int| 0 <= i < k ==> dest@[at + i] == value[i],
                    value.len() == new_size,
                    forall|i: int| old_size <= i < new_size ==> value[i] == fill,
                decreases new_size - k,
            {
                dest[at + k] = fill;
                k += 1;
            }
        }
        assert(dest@ =~= crate::bytes::overlay(old(dest)@, at as int, value));
        true
    }
}

/// Converts the value of the primitive type with GUID `old_guid` at place
/// `from` of `src` to the primitive type with GUID `new_guid`, and writes it
/// to place `at` of `dest`. Returns `false`, and writes nothing, where there
/// is no such conversion or a value reaches beyond its buffer.
pub fn try_cast_from_to(
    old_guid: Guid,
    new_guid: Guid,
    src: &Vec<u8>,
    from: usize,
    dest: &mut Vec<u8>,
    at: usize,
) -> (done: bool)
    ensures
        done == CastTable::cast_into(old_guid, new_guid, src@, from as int, old(dest)@, at as int)
            is Some,
        done ==> final(dest)@ == CastTable::cast_into(
            old_guid,
            new_guid,
            src@,
            from as int,
            old(dest)@,
            at as int,
        )->Some_0,
        !done ==> final(dest)@ == old(dest)@,
{
    let table = CastTable::new();
    table.try_cast(&old_guid, &new_guid, src, from, dest, at)
}

} // verus!
