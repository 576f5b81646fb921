//! What the collector and its host share: handles, events and their
//! observers, what a type must offer, and object records.

use crate::abi::Guid;
use crate::layout::{Layout, MemoryLayoutError};
use vstd::prelude::*;

verus! {

/// A stable identifier of an allocation. The handle whose number is zero
/// denotes no object: it is what a zeroed handle slot holds.
#[derive(Clone, Copy, Debug, PartialEq, Eq, Hash, Structural)]
pub struct GcPtr {
    raw: u64,
}

impl GcPtr {
    /// The number of the handle.
    pub closed spec fn spec_raw(&self) -> u64 {
        self.raw
    }

    /// The handle with the given number.
    pub fn from_raw(raw: u64) -> (h: GcPtr)
        ensures
            h.spec_raw() == raw,
    {
        GcPtr { raw }
    }

    /// The number of the handle.
    #[verifier::when_used_as_spec(spec_raw)]
    pub fn raw(&self) -> (raw: u64)
        ensures
            raw == self.spec_raw(),
    {
        self.raw
    }

    /// The handle whose number is `i`.
    pub closed spec fn at(i: int) -> GcPtr {
        GcPtr { raw: i as u64 }
    }

    /// The handle whose number is `i` has that number, where it is one.
    pub broadcast proof fn lemma_at(i: int)
        requires
            0 <= i <= u64::MAX,
        ensures
            #[trigger] Self::at(i).spec_raw() == i,
    {
    }

    /// The handle that denotes no object.
    pub fn null() -> (h: GcPtr)
        ensures
            h.spec_raw() == 0,
    {
        GcPtr { raw: 0 }
    }

    /// Whether the handle denotes no object.
    pub fn is_null(&self) -> (b: bool)
        ensures
            b == (self.spec_raw() == 0),
    {
        self.raw == 0
    }

    /// Two handles with the same number are the same handle.
    pub proof fn lemma_raw_injective(a: GcPtr, b: GcPtr)
        ensures
            a.spec_raw() == b.spec_raw() <==> a == b,
            Self::at(a.spec_raw() as int) == a,
    {
    }
}

/// An event of the collector, as its observer sees it.
#[derive(Clone, Copy, Debug, PartialEq, Eq, Structural)]
pub enum Event {
    /// A collection started.
    Start,
    /// A collection ended.
    End,
    /// An object was allocated.
    Allocation(GcPtr),
    /// An object was freed.
    Deallocation(GcPtr),
}

/// A sink for the events of a collector. It is called while the collector is
/// at work and must not call back into it.
pub trait Observer {
    /// The events that the observer was handed so far, oldest first.
    open spec fn events(&self) -> Seq<Event> {
        arbitrary()
    }

    /// Hands one event to the observer.
    fn event(&mut self, event: Event)
        ensures
            final(self).events() == old(self).events().push(event),
    ;
}

/// An observer that keeps every event, oldest first.
#[derive(Debug)]
pub struct EventLog {
    log: Vec<Event>,
}

impl EventLog {
    /// An observer that has seen no event.
    pub fn new() -> (observer: EventLog)
        ensures
            observer.events() == Seq::<Event>::empty(),
    {
        EventLog { log: Vec::new() }
    }

    /// The events seen so far, oldest first.
    pub fn seen(&self) -> (log: &Vec<Event>)
        ensures
            log@ == self.events(),
    {
        &self.log
    }

    /// Hands out the events seen so far and forgets them.
    pub fn take(&mut self) -> (log: Vec<Event>)
        ensures
            log@ == old(self).events(),
            final(self).events() == Seq::<Event>::empty(),
    {
        let mut log: Vec<Event> = Vec::new();
        core::mem::swap(&mut self.log, &mut log);
        log
    }
}

impl Default for EventLog {
    /// An observer that has seen no event.
    fn default() -> (observer: EventLog)
        ensures
            observer.events() == Seq::<Event>::empty(),
    {
        EventLog::new()
    }
}

impl Observer for EventLog {
    closed spec fn events(&self) -> Seq<Event> {
        self.log@
    }

    fn event(&mut self, event: Event) {
        self.log.push(event);
    }
}

/// An observer that drops every event.
pub struct NoopObserver {
    told: Ghost<Seq<Event>>,
}

impl NoopObserver {
    /// An observer that has been told nothing.
    pub fn new() -> (observer: NoopObserver)
        ensures
            observer.events() == Seq::<Event>::empty(),
    {
        NoopObserver { told: Ghost(Seq::empty()) }
    }
}

impl Default for NoopObserver {
    /// An observer that has been told nothing.
    fn default() -> (observer: NoopObserver)
        ensures
            observer.events() == Seq::<Event>::empty(),
    {
        NoopObserver::new()
    }
}

impl Observer for NoopObserver {
    closed spec fn events(&self) -> Seq<Event> {
        self.told@
    }

    fn event(&mut self, event: Event) {
        self.told = Ghost(self.told@.push(event));
    }
}

/// A snapshot of what a collector holds.
#[derive(Clone, Copy, Debug, PartialEq, Eq, Structural)]
pub struct Stats {
    /// The number of bytes that the live objects count for: the sum of the
    /// sizes of their value layouts.
    pub allocated_bytes: u128,
}

/// Coloring used in the mark phase of a collection.
#[derive(Clone, Copy, Debug, PartialEq, Eq, Structural)]
pub enum Color {
    /// A white object has not been seen yet by the mark phase
    White,
    /// A gray object has been seen by the mark phase but has not yet been visited
    Gray,
    /// A black object has been visited by the mark phase
    Black,
}

/// What a type must offer so that the collector can manage its objects: its
/// layout and identity, how it is composed, and which handles one of its
/// objects holds.
pub trait MarkSweepType: Sized {
    /// The layout of one value of the type.
    open spec fn layout_spec(&self) -> Layout {
        arbitrary()
    }

    /// Whether a value of the type is stored in place where it is a field or
    /// an element, rather than behind a handle.
    open spec fn is_stack_allocated_spec(&self) -> bool {
        arbitrary()
    }

    /// Whether the type is a struct.
    open spec fn is_struct_spec(&self) -> bool {
        arbitrary()
    }

    /// The element type, where the type is an array.
    open spec fn element_spec(&self) -> Option<Self> {
        arbitrary()
    }

    /// The name of the type.
    open spec fn name_spec(&self) -> Seq<char> {
        arbitrary()
    }

    /// The GUID of the type.
    open spec fn guid_spec(&self) -> Guid {
        arbitrary()
    }

    /// The handles that an object of the type holds, given its payload and
    /// the number of elements stored in it.
    open spec fn trace_spec(&self, payload: Seq<u8>, length: usize) -> Seq<GcPtr> {
        arbitrary()
    }

    /// The layout of one value of the type.
    fn layout(&self) -> (l: Layout)
        ensures
            l == self.layout_spec(),
    ;

    /// Whether a value of the type is stored in place where it is a field or
    /// an element, rather than behind a handle.
    fn is_stack_allocated(&self) -> (b: bool)
        ensures
            b == self.is_stack_allocated_spec(),
    ;

    /// Whether the type is a struct.
    fn is_struct(&self) -> (b: bool)
        ensures
            b == self.is_struct_spec(),
    ;

    /// The element type, where the type is an array.
    fn as_array(&self) -> (e: Option<Self>)
        ensures
            e == self.element_spec(),
    ;

    /// The name of the type.
    fn name(&self) -> (n: String)
        ensures
            n@ == self.name_spec(),
    ;

    /// The GUID of the type.
    fn guid(&self) -> (g: Guid)
        ensures
            g == self.guid_spec(),
    ;

    /// The handles that an object of the type holds, given its payload and
    /// the number of elements stored in it.
    fn trace(&self, payload: &Vec<u8>, length: usize) -> (r: Vec<GcPtr>)
        ensures
            r@ == self.trace_spec(payload@, length),
    ;

    /// A copy of the descriptor.
    fn clone_type(&self) -> (t: Self)
        ensures
            t == *self,
    ;
}

/// The size and the alignment of the memory that an object of type `ty` with
/// room for `capacity` elements owns, or the error where there is no such
/// layout: the type's own layout unless it is an array; for an array the
/// repeated layout of its element where the element is stored in place, and
/// that of `capacity` handles where it is not.
pub open spec fn value_layout_spec<T: MarkSweepType>(ty: T, capacity: usize) -> Result<
    (usize, usize),
    MemoryLayoutError,
> {
    match ty.element_spec() {
        Some(element) => if element.is_stack_allocated_spec() {
            crate::layout::repeat_layout_spec(element.layout_spec(), capacity)
        } else {
            Layout::handle_array_spec(capacity)
        },
        None => Ok((ty.layout_spec().spec_size(), ty.layout_spec().spec_align())),
    }
}

/// The layout of the memory that an object of type `ty` with room for
/// `capacity` elements owns.
pub fn value_layout_of<T: MarkSweepType>(ty: &T, capacity: usize) -> (r: Result<
    Layout,
    MemoryLayoutError,
>)
    ensures
        Layout::parts(r) == value_layout_spec(*ty, capacity),
{
    match ty.as_array() {
        Some(element) => if element.is_stack_allocated() {
            crate::layout::repeat_layout(element.layout(), capacity)
        } else {
            Layout::handle_array(capacity)
        },
        None => Ok(ty.layout()),
    }
}

/// An entry of the collector's table: the memory of an object, its type and
/// what the collector knows about it.
#[derive(Debug)]
pub struct ObjectInfo<T: MarkSweepType> {
    /// The memory that holds the object's value or elements.
    pub payload: Vec<u8>,
    /// The number of elements stored: 1 unless the object is an array.
    pub length: usize,
    /// The number of elements that the payload has room for.
    pub capacity: usize,
    /// The number of outstanding roots on the object.
    pub roots: u32,
    /// The color of the object in the current collection.
    pub color: Color,
    /// The type of the object.
    pub ty: T,
}

/// The mathematical value of an object record.
pub struct ObjectView<T> {
    pub payload: Seq<u8>,
    pub length: usize,
    pub capacity: usize,
    pub roots: u32,
    pub color: Color,
    pub ty: T,
}

impl<T> ObjectView<T> {
    /// The record of a new object with room for `n` elements: unrooted,
    /// white, with the payload given.
    pub open spec fn fresh(ty: T, payload: Seq<u8>, n: usize) -> ObjectView<T> {
        ObjectView { payload, length: n, capacity: n, roots: 0, color: Color::White, ty }
    }
}

impl<T: MarkSweepType> View for ObjectInfo<T> {
    type V = ObjectView<T>;

    open spec fn view(&self) -> ObjectView<T> {
        ObjectView {
            payload: self.payload@,
            length: self.length,
            capacity: self.capacity,
            roots: self.roots,
            color: self.color,
            ty: self.ty,
        }
    }
}

impl<T: MarkSweepType> ObjectInfo<T> {
    /// Returns the memory layout of the value stored with this object.
    pub fn value_layout(&self) -> (r: Result<Layout, MemoryLayoutError>)
        ensures
            Layout::parts(r) == value_layout_spec(self.ty, self.capacity),
    {
        value_layout_of(&self.ty, self.capacity)
    }

    /// The number of bytes that the value layout of this object asks for, or
    /// 0 where the object has no such layout.
    pub fn value_size(&self) -> (size: usize)
        ensures
            size == crate::heap::Heap::value_size(self@),
    {
        match self.value_layout() {
            Ok(layout) => layout.size(),
            Err(_) => 0,
        }
    }
}

} // verus!
