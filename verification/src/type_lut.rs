//! A lookup table from the identifiers of types to handles of their type
//! information, as it is used to link an assembly at runtime.

use crate::abi::TypeId;
use vstd::prelude::*;

verus! {

/// A handle to the information of a type: an address in the memory of the
/// runtime, or zero where the type is not linked yet.
#[derive(Clone, Copy, Debug, PartialEq, Eq, Hash, Structural)]
pub struct TypeHandle(pub usize);

/// Represents a lookup table for type information. This is used for runtime
/// linking.
///
/// Type IDs and handles are stored separately for cache efficiency.
pub struct TypeLut {
    /// Type IDs
    type_ids: Vec<TypeId>,
    /// Type information handles
    type_handles: Vec<TypeHandle>,
}

impl TypeLut {
    /// The type IDs of the table, in their order.
    pub closed spec fn ids(&self) -> Seq<TypeId> {
        self.type_ids@
    }

    /// The handles of the table, in the order of the type IDs.
    pub closed spec fn handles(&self) -> Seq<TypeHandle> {
        self.type_handles@
    }

    /// Whether the table has as many handles as type IDs, and no more than a
    /// `u32` counts.
    pub open spec fn wf(&self) -> bool {
        self.ids().len() == self.handles().len() && self.ids().len() <= u32::MAX
    }

    /// The table of the given type IDs and handles, unless there are more of
    /// the one than of the other or more than a `u32` counts.
    pub fn new(type_ids: Vec<TypeId>, type_handles: Vec<TypeHandle>) -> (lut: Option<TypeLut>)
        ensures
            lut is Some <==> type_ids@.len() == type_handles@.len() && type_ids@.len() <= u32::MAX,
            lut is Some ==> lut->Some_0.wf() && lut->Some_0.ids() == type_ids@
                && lut->Some_0.handles() == type_handles@,
    {
        if type_ids.len() != type_handles.len() || type_ids.len() > u32::MAX as usize {
            None
        } else {
            Some(TypeLut { type_ids, type_handles })
        }
    }

    /// Number of types
    pub fn num_entries(&self) -> (n: u32)
        requires
            self.wf(),
        ensures
            n == self.ids().len(),
    {
        self.type_ids.len() as u32
    }

    /// Returns the pairs of type IDs and type handles, in their order.
    pub fn iter(&self) -> (pairs: Vec<(&TypeId, &TypeHandle)>)
        requires
            self.wf(),
        ensures
            pairs@.len() == self.ids().len(),
            forall|i: int|
                0 <= i < pairs@.len() ==> *(#[trigger] pairs@[i]).0 == self.ids()[i]
                    && *pairs@[i].1 == self.handles()[i],
    {
        let mut pairs: Vec<(&TypeId, &TypeHandle)> = Vec::new();
        let mut i: usize = 0;
        while i < self.type_ids.len()
            invariant
                0 <= i <= self.type_ids@.len(),
                self.type_ids@.len() == self.type_handles@.len(),
                pairs@.len() == i,
                forall|k: int|
                    0 <= k < i ==> *(#[trigger] pairs@[k]).0 == self.type_ids@[k] && *pairs@[k].1
                        == self.type_handles@[k],
            decreases self.type_ids@.len() - i,
        {
            pairs.push((&self.type_ids[i], &self.type_handles[i]));
            i += 1;
        }
        pairs
    }

    /// Returns the pairs of type IDs and mutable type handles, in their
    /// order. The table holds what the caller leaves in the handles.
    pub fn iter_mut(&mut self) -> (pairs: Vec<(&TypeId, &mut TypeHandle)>)
        requires
            old(self).wf(),
        ensures
            final(self).wf(),
            final(self).ids() == old(self).ids(),
            pairs@.len() == old(self).ids().len(),
            forall|i: int|
                0 <= i < pairs@.len() ==> *(#[trigger] pairs@[i]).0 == old(self).ids()[i]
                    && *pairs@[i].1 == old(self).handles()[i],
            final(self).handles() == Seq::new(pairs@.len(), |i: int| *final(pairs@[i].1)),
    {
        let n = self.type_ids.len();
        let ids = &self.type_ids;
        let mut rest: &mut [TypeHandle] = self.type_handles.as_mut_slice();
        let ghost target = final(rest)@;
        let mut pairs: Vec<(&TypeId, &mut TypeHandle)> = Vec::new();
        let mut i: usize = 0;
        assert(rest@.subrange(0, n as int) =~= rest@);
        while i < n
            invariant
                0 <= i <= n,
                ids@.len() == n,
                ids@ == old(self).ids(),
                old(self).handles().len() == n,
                rest@ == old(self).handles().subrange(i as int, n as int),
                pairs@.len() == i,
                forall|k: int|
                    0 <= k < i ==> *(#[trigger] pairs@[k]).0 == old(self).ids()[k]
                        && *pairs@[k].1 == old(self).handles()[k],
                target == Seq::new(i as nat, |k: int| *final(pairs@[k].1)) + final(rest)@,
            decreases n - i,
        {
            let ghost done = Seq::new(i as nat, |k: int| *final(pairs@[k].1));
            let ghost before = pairs@;
            let current = rest;
            let (head, tail) = current.split_at_mut(1);
            rest = tail;
            match head.first_mut() {
                Some(handle) => {
                    pairs.push((&ids[i], handle));
                },
                None => {},
            }
            i += 1;
            proof {
                assert(rest@ =~= old(self).handles().subrange(i as int, n as int));
                assert(Seq::new(i as nat, |k: int| *final(pairs@[k].1)) =~= done.push(
                    *final(pairs@[i - 1].1),
                ));
                let left = final(rest)@;
                assert(target =~= Seq::new(i as nat, |k: int| *final(pairs@[k].1)) + left);
            }
        }
        assert(target =~= Seq::new(pairs@.len(), |k: int| *final(pairs@[k].1)));
        pairs
    }

    /// Returns mutable type handles. The table holds what the caller leaves
    /// in them.
    pub fn type_handles_mut(&mut self) -> (handles: &mut [TypeHandle])
        requires
            old(self).wf(),
        ensures
            final(handles)@.len() == handles@.len() ==> final(self).wf(),
            handles@ == old(self).handles(),
            final(self).handles() == final(handles)@,
            final(self).ids() == old(self).ids(),
    {
        self.type_handles.as_mut_slice()
    }

    /// Returns type IDs.
    pub fn type_ids(&self) -> (ids: &[TypeId])
        ensures
            ids@ == self.ids(),
    {
        self.type_ids.as_slice()
    }

    /// Returns a type handle, without doing bounds checking.
    pub fn get_type_handle_unchecked(&self, idx: u32) -> (handle: TypeHandle)
        requires
            self.wf(),
            idx < self.handles().len(),
        ensures
            handle == self.handles()[idx as int],
    {
        self.type_handles[idx as usize]
    }

    /// Returns a type handle at the given index, or `None` if out of bounds.
    pub fn get_type_handle(&self, idx: u32) -> (handle: Option<TypeHandle>)
        requires
            self.wf(),
        ensures
            handle == if idx < self.handles().len() {
                Some(self.handles()[idx as int])
            } else {
                None
            },
    {
        if idx < self.num_entries() {
            Some(self.get_type_handle_unchecked(idx))
        } else {
            None
        }
    }

    /// Returns a mutable reference to a type handle, without doing bounds
    /// checking.
    pub fn get_type_handle_unchecked_mut(&mut self, idx: u32) -> (handle: &mut TypeHandle)
        requires
            old(self).wf(),
            idx < old(self).handles().len(),
        ensures
            final(self).wf(),
            *handle == old(self).handles()[idx as int],
            final(self).handles() == old(self).handles().update(idx as int, *final(handle)),
            final(self).ids() == old(self).ids(),
    {
        &mut self.type_handles[idx as usize]
    }

    /// Returns a mutable reference to a type handle at the given index, or
    /// `None` if out of bounds.
    pub fn get_type_handle_mut(&mut self, idx: u32) -> (handle: Option<&mut TypeHandle>)
        requires
            old(self).wf(),
        ensures
            final(self).wf(),
            handle is Some <==> idx < old(self).handles().len(),
            final(self).ids() == old(self).ids(),
            match handle {
                Some(h) => *h == old(self).handles()[idx as int] && final(self).handles() == old(
                    self,
                ).handles().update(idx as int, *final(h)),
                None => final(self).handles() == old(self).handles(),
            },
    {
        if idx < self.num_entries() {
            Some(self.get_type_handle_unchecked_mut(idx))
        } else {
            None
        }
    }
}

} // verus!
