use mun_memory::abi::Guid;
use mun_memory::cast::Primitive;
use mun_memory::gc::{Event, EventLog, GcPtr, MarkSweepType, NoopObserver, Observer, Stats};
use mun_memory::layout::{Layout, LayoutError, MemoryLayoutError};
use mun_memory::mapping::{Action, Conversion, FieldMapping, Mapping};
use mun_memory::mark_sweep::{InvalidReference, MarkSweep};

#[derive(Clone, Debug, PartialEq)]
enum Kind {
    Primitive,
    Struct { gc: bool },
    Array(Box<Ty>),
}

/// A type descriptor for the tests. `handles` are the offsets of the fields
/// that hold a handle.
#[derive(Clone, Debug, PartialEq)]
struct Ty {
    name: String,
    guid: Guid,
    size: usize,
    align: usize,
    kind: Kind,
    handles: Vec<usize>,
}

fn read_handle(payload: &[u8], at: usize) -> GcPtr {
    let mut bytes = [0u8; 8];
    bytes.copy_from_slice(&payload[at..at + 8]);
    GcPtr::from_raw(u64::from_le_bytes(bytes))
}

impl MarkSweepType for Ty {
    fn layout(&self) -> Layout {
        Layout::from_size_align(self.size, self.align).unwrap()
    }

    fn is_stack_allocated(&self) -> bool {
        match &self.kind {
            Kind::Primitive => true,
            Kind::Struct { gc } => !gc,
            Kind::Array(_) => false,
        }
    }

    fn is_struct(&self) -> bool {
        matches!(self.kind, Kind::Struct { .. })
    }

    fn as_array(&self) -> Option<Ty> {
        match &self.kind {
            Kind::Array(element) => Some((**element).clone()),
            _ => None,
        }
    }

    fn name(&self) -> String {
        self.name.clone()
    }

    fn guid(&self) -> Guid {
        self.guid
    }

    fn trace(&self, payload: &Vec<u8>, length: usize) -> Vec<GcPtr> {
        let mut found = Vec::new();
        match &self.kind {
            Kind::Array(element) => {
                if !element.is_stack_allocated() {
                    for k in 0..length {
                        let handle = read_handle(payload, 8 * k);
                        if !handle.is_null() {
                            found.push(handle);
                        }
                    }
                }
            }
            _ => {
                for at in &self.handles {
                    let handle = read_handle(payload, *at);
                    if !handle.is_null() {
                        found.push(handle);
                    }
                }
            }
        }
        found
    }

    fn clone_type(&self) -> Ty {
        self.clone()
    }
}

fn primitive(p: Primitive) -> Ty {
    Ty {
        name: String::from_utf8(p.name()).unwrap(),
        guid: p.guid(),
        size: p.size(),
        align: p.size(),
        kind: Kind::Primitive,
        handles: vec![],
    }
}

fn scalar(name: &str, size: usize, align: usize) -> Ty {
    Ty {
        name: name.to_string(),
        guid: Guid::from_str(name),
        size,
        align,
        kind: Kind::Primitive,
        handles: vec![],
    }
}

/// A struct type. `version` tells apart the types that share a name.
fn structure(name: &str, version: &str, gc: bool, size: usize, handles: Vec<usize>) -> Ty {
    Ty {
        name: name.to_string(),
        guid: Guid::from_str(&format!("{}{}", name, version)),
        size,
        align: 8,
        kind: Kind::Struct { gc },
        handles,
    }
}

fn array_of(element: Ty) -> Ty {
    Ty {
        name: format!("[{}]", element.name),
        guid: Guid::from_str(&format!("[{}]", element.name)),
        size: 8,
        align: 8,
        kind: Kind::Array(Box::new(element)),
        handles: vec![],
    }
}

fn collector() -> MarkSweep<Ty, EventLog> {
    MarkSweep::with_observer(EventLog::new())
}

fn no_plan() -> Mapping<Ty> {
    Mapping {
        deletions: vec![],
        conversions: vec![],
        identical: vec![],
    }
}

fn copy(new_ty: Ty, new_offset: usize, old_offset: usize) -> FieldMapping<Ty> {
    FieldMapping {
        new_ty,
        new_offset,
        action: Action::Copy { old_offset },
    }
}

fn insert(new_ty: Ty, new_offset: usize) -> FieldMapping<Ty> {
    FieldMapping {
        new_ty,
        new_offset,
        action: Action::Insert,
    }
}

fn cast(new_ty: Ty, new_offset: usize, old_ty: Ty, old_offset: usize) -> FieldMapping<Ty> {
    FieldMapping {
        new_ty,
        new_offset,
        action: Action::Cast { old_offset, old_ty },
    }
}

fn conversion(old: &Ty, new: &Ty, field_mapping: Vec<FieldMapping<Ty>>) -> (Ty, Conversion<Ty>) {
    (
        old.clone(),
        Conversion {
            field_mapping,
            new_ty: new.clone(),
        },
    )
}

fn handle_bytes(handle: GcPtr) -> Vec<u8> {
    handle.raw().to_le_bytes().to_vec()
}

#[test]
fn single_alloc_and_free() {
    let mut gc = collector();
    let handle = gc.alloc_object(scalar("Thing", 8, 8));
    assert_eq!(gc.stats().allocated_bytes, 8);
    assert_eq!(gc.payload(handle).len(), 8);
    assert!(gc.collect());
    assert_eq!(gc.stats().allocated_bytes, 0);
    assert!(!gc.contains(handle));
    assert_eq!(
        gc.observer().seen(),
        &vec![
            Event::Allocation(handle),
            Event::Start,
            Event::Deallocation(handle),
            Event::End
        ]
    );
}

#[test]
fn root_survives() {
    let mut gc = collector();
    let a = gc.alloc_object(scalar("A", 8, 8));
    let b = gc.alloc_object(scalar("B", 4, 4));
    assert_ne!(a, b);
    gc.root(a);
    assert!(gc.collect());
    assert!(gc.contains(a));
    assert!(!gc.contains(b));
    assert_eq!(gc.stats().allocated_bytes, 8);
    gc.unroot(a);
    assert!(gc.collect());
    assert!(!gc.contains(a));
    assert_eq!(gc.stats().allocated_bytes, 0);
}

#[test]
fn transitive_mark() {
    let mut gc = collector();
    let leaf = gc.alloc_object(scalar("Leaf", 8, 8));
    let container = gc.alloc_object(structure("Container", "", true, 8, vec![0]));
    assert!(gc.write(container, 0, &handle_bytes(leaf)));
    gc.root(container);
    assert!(!gc.collect());
    assert!(gc.contains(container));
    assert!(gc.contains(leaf));
    assert!(gc.write(container, 0, &handle_bytes(GcPtr::null())));
    assert!(gc.collect());
    assert!(gc.contains(container));
    assert!(!gc.contains(leaf));
}

#[test]
fn array_layout() {
    let mut gc = collector();
    let element = scalar("Triple", 3, 4);
    let array = array_of(element);
    let handle = gc.alloc_array(array.clone(), 4).unwrap();
    assert_eq!(gc.payload(handle).len(), 16);
    assert_eq!(gc.object(handle).length, 4);
    assert_eq!(gc.object(handle).capacity, 4);
    assert_eq!(gc.object(handle).value_layout().unwrap().size(), 16);
    assert_eq!(gc.object(handle).value_layout().unwrap().align(), 4);
    assert_eq!(gc.object(handle).value_size(), 16);
    assert_eq!(gc.stats().allocated_bytes, 16);
    assert!(gc.collect());
    assert!(!gc.contains(handle));
    assert_eq!(gc.stats().allocated_bytes, 0);
    assert_eq!(
        gc.observer().seen(),
        &vec![
            Event::Allocation(handle),
            Event::Start,
            Event::Deallocation(handle),
            Event::End
        ]
    );
}

#[test]
fn array_of_handles_has_a_slot_for_each_element() {
    let mut gc = collector();
    let element = structure("Node", "", true, 16, vec![]);
    let array = array_of(element.clone());
    let a = gc.alloc_object(element.clone());
    let b = gc.alloc_object(element.clone());
    let c = gc.alloc_object(element);
    let handle = gc.alloc_array(array, 3).unwrap();
    assert_eq!(gc.payload(handle).len(), 24);
    assert_eq!(gc.payload(handle), &vec![0u8; 24]);
    assert!(gc.write(handle, 0, &handle_bytes(a)));
    assert!(gc.write(handle, 16, &handle_bytes(c)));
    gc.root(handle);
    assert!(gc.collect());
    assert!(gc.contains(a));
    assert!(!gc.contains(b));
    assert!(gc.contains(c));
}

#[test]
fn array_that_is_too_large_is_refused() {
    let mut gc = collector();
    let before = gc.stats();
    let wide = array_of(scalar("Wide", 16, 8));
    assert_eq!(
        gc.alloc_array(wide.clone(), usize::MAX),
        Err(MemoryLayoutError::OutOfBounds)
    );
    assert_eq!(
        gc.alloc_array(wide, usize::MAX / 16),
        Err(MemoryLayoutError::LayoutError(LayoutError {}))
    );
    let handles = array_of(structure("Node", "", true, 16, vec![]));
    assert_eq!(
        gc.alloc_array(handles, usize::MAX / 8),
        Err(MemoryLayoutError::LayoutError(LayoutError {}))
    );
    assert_eq!(gc.stats(), before);
    assert!(gc.observer().seen().is_empty());
}

#[test]
fn alloc_gives_zeroed_memory_and_a_white_unrooted_record() {
    let mut gc = collector();
    let ty = scalar("Blob", 24, 8);
    let handle = gc.alloc_object(ty.clone());
    assert!(!handle.is_null());
    assert_eq!(gc.payload(handle), &vec![0u8; 24]);
    assert_eq!(gc.roots(handle), 0);
    assert_eq!(gc.object(handle).length, 1);
    assert_eq!(gc.object(handle).capacity, 1);
    assert_eq!(gc.ptr_type(handle), ty);
}

#[test]
fn ptr_type_has_the_size_of_the_payload() {
    let mut gc = collector();
    let handles = vec![
        gc.alloc_object(scalar("A", 1, 1)),
        gc.alloc_object(scalar("B", 12, 4)),
        gc.alloc_object(structure("C", "", true, 40, vec![])),
    ];
    for handle in handles {
        assert_eq!(gc.ptr_type(handle).layout().size(), gc.payload(handle).len());
        assert_eq!(
            gc.object(handle).value_layout().unwrap().size(),
            gc.payload(handle).len()
        );
    }
}

#[test]
fn stats_are_the_sum_of_the_type_sizes() {
    let mut gc = collector();
    assert_eq!(gc.stats(), Stats { allocated_bytes: 0 });
    let a = gc.alloc_object(scalar("A", 8, 8));
    let _b = gc.alloc_object(scalar("B", 3, 1));
    let c = gc.alloc_object(scalar("C", 100, 4));
    assert_eq!(gc.stats().allocated_bytes, 111);
    gc.root(a);
    gc.root(c);
    gc.collect();
    assert_eq!(gc.stats().allocated_bytes, 108);
    gc.unroot(c);
    gc.collect();
    assert_eq!(gc.stats().allocated_bytes, 8);
}

#[test]
fn stats_count_the_value_layout_of_an_array() {
    let mut gc = collector();
    let scalar_handle = gc.alloc_object(scalar("A", 5, 1));
    let values = gc.alloc_array(array_of(scalar("Wide", 9, 8)), 3).unwrap();
    let handles = gc
        .alloc_array(array_of(structure("Node", "", true, 16, vec![])), 2)
        .unwrap();
    let empty = gc.alloc_array(array_of(scalar("Wide", 9, 8)), 0).unwrap();
    assert_eq!(gc.payload(values).len(), 48);
    assert_eq!(gc.payload(handles).len(), 16);
    assert_eq!(gc.payload(empty).len(), 0);
    assert_eq!(gc.stats().allocated_bytes, 5 + 48 + 16);
    gc.root(scalar_handle);
    gc.root(handles);
    assert!(gc.collect());
    assert_eq!(gc.stats().allocated_bytes, 5 + 16);
}

#[test]
fn collect_twice_frees_nothing_the_second_time() {
    let mut gc = collector();
    let kept = gc.alloc_object(scalar("Kept", 8, 8));
    let _lost = gc.alloc_object(scalar("Lost", 8, 8));
    gc.root(kept);
    assert!(gc.collect());
    let stats = gc.stats();
    assert!(!gc.collect());
    assert_eq!(gc.stats(), stats);
    assert!(gc.contains(kept));
    let seen = gc.observer().seen();
    assert_eq!(&seen[seen.len() - 2..], &[Event::Start, Event::End]);
}

#[test]
fn allocate_root_collect_unroot_collect() {
    let mut gc = collector();
    let handle = gc.alloc_object(scalar("Thing", 16, 8));
    gc.root(handle);
    assert!(!gc.collect());
    assert!(gc.contains(handle));
    gc.unroot(handle);
    assert!(gc.collect());
    assert!(!gc.contains(handle));
}

#[test]
fn roots_are_counted() {
    let mut gc = collector();
    let handle = gc.alloc_object(scalar("Thing", 16, 8));
    gc.root(handle);
    gc.root(handle);
    assert_eq!(gc.roots(handle), 2);
    gc.unroot(handle);
    assert!(!gc.collect());
    assert!(gc.contains(handle));
    gc.unroot(handle);
    assert_eq!(gc.roots(handle), 0);
    gc.unroot(handle);
    assert_eq!(gc.roots(handle), 0);
    assert!(gc.collect());
}

#[test]
fn cycles_are_collected() {
    let mut gc = collector();
    let node = structure("Node", "", true, 8, vec![0]);
    let a = gc.alloc_object(node.clone());
    let b = gc.alloc_object(node);
    assert!(gc.write(a, 0, &handle_bytes(b)));
    assert!(gc.write(b, 0, &handle_bytes(a)));
    gc.root(a);
    assert!(!gc.collect());
    assert!(gc.contains(a) && gc.contains(b));
    gc.unroot(a);
    assert!(gc.collect());
    assert!(!gc.contains(a) && !gc.contains(b));
}

#[test]
fn deallocations_come_between_start_and_end_in_handle_order() {
    let mut gc = collector();
    let a = gc.alloc_object(scalar("A", 8, 8));
    let b = gc.alloc_object(scalar("B", 8, 8));
    let c = gc.alloc_object(scalar("C", 8, 8));
    gc.root(b);
    gc.observer_mut().take();
    assert!(gc.collect());
    assert_eq!(
        gc.observer().seen(),
        &vec![
            Event::Start,
            Event::Deallocation(a),
            Event::Deallocation(c),
            Event::End
        ]
    );
}

#[test]
fn invalid_reference_is_detected() {
    let mut gc = collector();
    let holder = gc.alloc_object(structure("Holder", "", true, 8, vec![0]));
    let other = gc.alloc_object(scalar("Other", 8, 8));
    let dangling = GcPtr::from_raw(77);
    assert!(gc.write(holder, 0, &handle_bytes(dangling)));
    assert_eq!(gc.try_collect(), Ok(true));
    assert!(!gc.contains(holder));
    assert!(!gc.contains(other));

    let holder = gc.alloc_object(structure("Holder", "", true, 8, vec![0]));
    let other = gc.alloc_object(scalar("Other", 8, 8));
    assert!(gc.write(holder, 0, &handle_bytes(dangling)));
    gc.root(holder);
    let stats = gc.stats();
    assert_eq!(
        gc.try_collect(),
        Err(InvalidReference { handle: dangling })
    );
    assert!(gc.contains(holder));
    assert!(gc.contains(other));
    assert_eq!(gc.stats(), stats);
    assert!(gc.write(holder, 0, &handle_bytes(other)));
    assert_eq!(gc.try_collect(), Ok(false));
}

#[test]
fn write_stays_within_the_payload() {
    let mut gc = collector();
    let handle = gc.alloc_object(scalar("Thing", 4, 4));
    assert!(gc.write(handle, 1, &vec![1, 2, 3]));
    assert_eq!(gc.payload(handle), &vec![0, 1, 2, 3]);
    assert!(!gc.write(handle, 2, &vec![9, 9, 9]));
    assert!(!gc.write(handle, 5, &vec![]));
    assert!(!gc.write(handle, usize::MAX, &vec![9]));
    assert!(gc.write(handle, 4, &vec![]));
    assert_eq!(gc.payload(handle), &vec![0, 1, 2, 3]);
}

#[test]
fn default_collector_is_empty() {
    let mut gc: MarkSweep<Ty, EventLog> = MarkSweep::default();
    assert_eq!(gc.stats().allocated_bytes, 0);
    assert!(!gc.contains(GcPtr::null()));
    assert!(!gc.contains(GcPtr::from_raw(1)));
    assert!(!gc.collect());
    assert_eq!(gc.observer().seen(), &vec![Event::Start, Event::End]);
}

#[test]
fn noop_observer_is_accepted() {
    let mut gc: MarkSweep<Ty, NoopObserver> = MarkSweep::with_observer(NoopObserver::new());
    let handle = gc.alloc_object(scalar("Thing", 8, 8));
    assert!(gc.collect());
    assert!(!gc.contains(handle));
}

#[test]
fn event_log_takes_what_it_saw() {
    let mut log = EventLog::new();
    log.event(Event::Start);
    log.event(Event::End);
    assert_eq!(log.take(), vec![Event::Start, Event::End]);
    assert!(log.seen().is_empty());
}

#[test]
fn struct_schema_migration() {
    let mut gc = collector();
    let i32_ty = primitive(Primitive::I32);
    let old_foo = structure("Foo", "{a: i32, b: i32}", true, 8, vec![]);
    let new_foo = structure("Foo", "{b: i32, c: i32}", true, 8, vec![]);
    let handle = gc.alloc_object(old_foo.clone());
    assert!(gc.write(handle, 0, &7i32.to_le_bytes().to_vec()));
    assert!(gc.write(handle, 4, &9i32.to_le_bytes().to_vec()));
    gc.root(handle);
    let mapping = Mapping {
        deletions: vec![],
        conversions: vec![conversion(
            &old_foo,
            &new_foo,
            vec![copy(i32_ty.clone(), 0, 4), insert(i32_ty, 4)],
        )],
        identical: vec![],
    };
    let deleted = gc.map_memory(mapping);
    assert!(deleted.is_empty());
    assert!(gc.contains(handle));
    assert_eq!(gc.payload(handle), &vec![9, 0, 0, 0, 0, 0, 0, 0]);
    assert_eq!(gc.ptr_type(handle), new_foo);
    assert_eq!(gc.roots(handle), 1);
    assert_eq!(gc.object(handle).length, 1);
    assert_eq!(gc.object(handle).capacity, 1);
}

#[test]
fn gc_to_value_demotion_with_a_target_that_is_mapped_already() {
    let mut gc = collector();
    let i64_ty = primitive(Primitive::I64);
    let old_inner = structure("Inner", "gc", true, 8, vec![]);
    let new_inner = structure("Inner", "value", false, 8, vec![]);
    let old_outer = structure("Outer", "{inner: gc}", true, 8, vec![0]);
    let new_outer = structure("Outer", "{inner: value}", true, 8, vec![]);
    let inner = gc.alloc_object(old_inner.clone());
    let outer = gc.alloc_object(old_outer.clone());
    assert!(gc.write(inner, 0, &42i64.to_le_bytes().to_vec()));
    assert!(gc.write(outer, 0, &handle_bytes(inner)));
    gc.root(outer);
    let mapping = Mapping {
        deletions: vec![],
        conversions: vec![
            conversion(&old_inner, &new_inner, vec![copy(i64_ty.clone(), 0, 0)]),
            conversion(
                &old_outer,
                &new_outer,
                vec![cast(new_inner.clone(), 0, old_inner.clone(), 0)],
            ),
        ],
        identical: vec![],
    };
    gc.map_memory(mapping);
    assert_eq!(gc.ptr_type(inner), new_inner);
    assert_eq!(gc.ptr_type(outer), new_outer);
    assert_eq!(gc.payload(outer), &42i64.to_le_bytes().to_vec());
    assert_eq!(gc.payload(inner), &42i64.to_le_bytes().to_vec());
    assert!(gc.collect());
    assert!(gc.contains(outer));
    assert!(!gc.contains(inner));
}

#[test]
fn gc_to_value_demotion_with_a_target_that_is_still_to_be_mapped() {
    let mut gc = collector();
    let i32_ty = primitive(Primitive::I32);
    let i64_ty = primitive(Primitive::I64);
    let old_inner = structure("Inner", "gc {x: i32}", true, 4, vec![]);
    let new_inner = structure("Inner", "value {x: i64}", false, 8, vec![]);
    let old_outer = structure("Outer", "{inner: gc}", true, 8, vec![0]);
    let new_outer = structure("Outer", "{inner: value}", true, 8, vec![]);
    let inner = gc.alloc_object(old_inner.clone());
    let outer = gc.alloc_object(old_outer.clone());
    assert!(gc.write(inner, 0, &(-5i32).to_le_bytes().to_vec()));
    assert!(gc.write(outer, 0, &handle_bytes(inner)));
    let mapping = Mapping {
        deletions: vec![],
        conversions: vec![
            conversion(
                &old_outer,
                &new_outer,
                vec![cast(new_inner.clone(), 0, old_inner.clone(), 0)],
            ),
            conversion(
                &old_inner,
                &new_inner,
                vec![cast(i64_ty, 0, i32_ty, 0)],
            ),
        ],
        identical: vec![],
    };
    gc.map_memory(mapping);
    assert_eq!(gc.payload(outer), &(-5i64).to_le_bytes().to_vec());
    assert_eq!(gc.payload(inner), &(-5i64).to_le_bytes().to_vec());
    assert_eq!(gc.ptr_type(inner), new_inner);
}

#[test]
fn one_target_of_two_fields_is_mapped_once_and_copied_twice() {
    let mut gc = collector();
    let i16_ty = primitive(Primitive::I16);
    let old_inner = structure("Inner", "gc", true, 2, vec![]);
    let new_inner = structure("Inner", "value", false, 2, vec![]);
    let old_outer = structure("Outer", "{a: gc, b: gc}", true, 16, vec![0, 8]);
    let new_outer = structure("Outer", "{a: value, b: value}", true, 4, vec![]);
    let inner = gc.alloc_object(old_inner.clone());
    let outer = gc.alloc_object(old_outer.clone());
    assert!(gc.write(inner, 0, &vec![0x34, 0x12]));
    assert!(gc.write(outer, 0, &handle_bytes(inner)));
    assert!(gc.write(outer, 8, &handle_bytes(inner)));
    let mapping = Mapping {
        deletions: vec![],
        conversions: vec![
            conversion(&old_inner, &new_inner, vec![copy(i16_ty, 0, 0)]),
            conversion(
                &old_outer,
                &new_outer,
                vec![
                    cast(new_inner.clone(), 0, old_inner.clone(), 0),
                    cast(new_inner.clone(), 2, old_inner.clone(), 8),
                ],
            ),
        ],
        identical: vec![],
    };
    gc.map_memory(mapping);
    assert_eq!(gc.payload(outer), &vec![0x34, 0x12, 0x34, 0x12]);
}

#[test]
fn identical_types_are_exchanged_without_touching_payloads() {
    let mut gc = collector();
    let old_a = structure("A", "old", true, 8, vec![]);
    let new_a = structure("A", "new", true, 8, vec![]);
    let b = scalar("B", 4, 4);
    let first = gc.alloc_object(old_a.clone());
    let second = gc.alloc_object(b.clone());
    let third = gc.alloc_object(old_a.clone());
    assert!(gc.write(first, 0, &vec![1, 2, 3, 4, 5, 6, 7, 8]));
    assert!(gc.write(second, 0, &vec![9, 9, 9, 9]));
    gc.root(third);
    gc.observer_mut().take();
    let stats = gc.stats();
    let mapping = Mapping {
        deletions: vec![],
        conversions: vec![],
        identical: vec![(old_a.clone(), new_a.clone()), (b.clone(), b.clone())],
    };
    let deleted = gc.map_memory(mapping);
    assert!(deleted.is_empty());
    assert_eq!(gc.ptr_type(first), new_a);
    assert_eq!(gc.ptr_type(second), b);
    assert_eq!(gc.ptr_type(third), new_a);
    assert_eq!(gc.payload(first), &vec![1, 2, 3, 4, 5, 6, 7, 8]);
    assert_eq!(gc.payload(second), &vec![9, 9, 9, 9]);
    assert_eq!(gc.payload(third), &vec![0; 8]);
    assert_eq!(gc.roots(third), 1);
    assert_eq!(gc.stats(), stats);
    assert!(gc.observer().seen().is_empty());
}

#[test]
fn identical_pairs_apply_one_after_the_other() {
    let mut gc = collector();
    let a = scalar("A", 4, 4);
    let b = scalar("B", 4, 4);
    let c = scalar("C", 4, 4);
    let first = gc.alloc_object(a.clone());
    let second = gc.alloc_object(b.clone());
    let mapping = Mapping {
        deletions: vec![],
        conversions: vec![],
        identical: vec![(a.clone(), b.clone()), (b.clone(), c.clone())],
    };
    gc.map_memory(mapping);
    assert_eq!(gc.ptr_type(first), c);
    assert_eq!(gc.ptr_type(second), c);
}

#[test]
fn deleted_types_are_reported_and_their_objects_stay() {
    let mut gc = collector();
    let gone = scalar("Gone", 8, 8);
    let stays = scalar("Stays", 8, 8);
    let a = gc.alloc_object(gone.clone());
    let b = gc.alloc_object(stays.clone());
    let c = gc.alloc_object(gone.clone());
    assert!(gc.write(a, 0, &vec![5; 8]));
    let mapping = Mapping {
        deletions: vec![gone.clone()],
        conversions: vec![],
        identical: vec![(stays.clone(), stays.clone())],
    };
    let deleted = gc.map_memory(mapping);
    assert_eq!(deleted, vec![a, c]);
    assert!(gc.contains(a) && gc.contains(b) && gc.contains(c));
    assert_eq!(gc.ptr_type(a), gone);
    assert_eq!(gc.payload(a), &vec![5; 8]);
}

#[test]
fn every_type_is_on_a_new_side_or_deleted_after_a_migration() {
    let mut gc = collector();
    let i32_ty = primitive(Primitive::I32);
    let gone = scalar("Gone", 8, 8);
    let same = scalar("Same", 8, 8);
    let same_new = scalar("Same'", 8, 8);
    let old_foo = structure("Foo", "old", true, 4, vec![]);
    let new_foo = structure("Foo", "new", true, 8, vec![]);
    let handles = vec![
        gc.alloc_object(gone.clone()),
        gc.alloc_object(same.clone()),
        gc.alloc_object(old_foo.clone()),
        gc.alloc_object(same.clone()),
    ];
    let mapping = Mapping {
        deletions: vec![gone.clone()],
        conversions: vec![conversion(&old_foo, &new_foo, vec![copy(i32_ty, 4, 0)])],
        identical: vec![(same.clone(), same_new.clone())],
    };
    let deleted = gc.map_memory(mapping);
    for handle in handles {
        let ty = gc.ptr_type(handle);
        let listed = ty == same_new || ty == new_foo;
        assert!(listed || (ty == gone && deleted.contains(&handle)));
    }
    assert_eq!(gc.stats().allocated_bytes, 8 + 8 + 8 + 8);
}

#[test]
fn types_that_the_plan_does_not_name_stay() {
    let mut gc = collector();
    let ty = scalar("Free", 4, 4);
    let handle = gc.alloc_object(ty.clone());
    assert!(gc.write(handle, 0, &vec![1, 2, 3, 4]));
    let deleted = gc.map_memory(no_plan());
    assert!(deleted.is_empty());
    assert_eq!(gc.ptr_type(handle), ty);
    assert_eq!(gc.payload(handle), &vec![1, 2, 3, 4]);
}

#[test]
fn copy_keeps_the_bytes_and_insert_leaves_zero() {
    let mut gc = collector();
    let u64_ty = primitive(Primitive::U64);
    let u16_ty = primitive(Primitive::U16);
    let old = structure("S", "old", true, 16, vec![]);
    let new = structure("S", "new", true, 24, vec![]);
    let handle = gc.alloc_object(old.clone());
    let bytes: Vec<u8> = (1..=16).collect();
    assert!(gc.write(handle, 0, &bytes));
    let mapping = Mapping {
        deletions: vec![],
        conversions: vec![conversion(
            &old,
            &new,
            vec![
                copy(u64_ty.clone(), 16, 8),
                insert(u64_ty, 8),
                copy(u16_ty, 0, 3),
            ],
        )],
        identical: vec![],
    };
    gc.map_memory(mapping);
    assert_eq!(
        gc.payload(handle),
        &vec![4, 5, 0, 0, 0, 0, 0, 0, 0, 0, 0, 0, 0, 0, 0, 0, 9, 10, 11, 12, 13, 14, 15, 16]
    );
    assert_eq!(gc.stats().allocated_bytes, 24);
}

#[test]
fn field_actions_beyond_a_payload_are_skipped() {
    let mut gc = collector();
    let u64_ty = primitive(Primitive::U64);
    let old = structure("S", "old", true, 8, vec![]);
    let new = structure("S", "new", true, 8, vec![]);
    let handle = gc.alloc_object(old.clone());
    assert!(gc.write(handle, 0, &vec![7; 8]));
    let mapping = Mapping {
        deletions: vec![],
        conversions: vec![conversion(
            &old,
            &new,
            vec![
                copy(u64_ty.clone(), 0, 1),
                copy(u64_ty.clone(), 1, 0),
                copy(u64_ty.clone(), usize::MAX, 0),
                cast(u64_ty.clone(), 4, u64_ty.clone(), 0),
                insert(structure("T", "", true, 8, vec![]), 1),
            ],
        )],
        identical: vec![],
    };
    gc.observer_mut().take();
    gc.map_memory(mapping);
    assert_eq!(gc.payload(handle), &vec![0; 8]);
    assert!(gc.observer().seen().is_empty());
}

#[test]
fn primitive_fields_are_cast() {
    let mut gc = collector();
    let old = structure("S", "{a: i8, b: u16, c: bool}", true, 8, vec![]);
    let new = structure("S", "{a: i32, b: u64, c: u8}", true, 24, vec![]);
    let handle = gc.alloc_object(old.clone());
    assert!(gc.write(handle, 0, &vec![0x9c, 0, 0x34, 0x12, 1]));
    let mapping = Mapping {
        deletions: vec![],
        conversions: vec![conversion(
            &old,
            &new,
            vec![
                cast(primitive(Primitive::I32), 0, primitive(Primitive::I8), 0),
                cast(primitive(Primitive::U64), 8, primitive(Primitive::U16), 2),
                cast(primitive(Primitive::U8), 16, primitive(Primitive::Bool), 4),
            ],
        )],
        identical: vec![],
    };
    gc.map_memory(mapping);
    let payload = gc.payload(handle);
    assert_eq!(&payload[0..4], &(-100i32).to_le_bytes());
    assert_eq!(&payload[8..16], &0x1234u64.to_le_bytes());
    assert_eq!(payload[16], 0);
}

#[test]
fn insert_of_a_gc_field_allocates_a_zeroed_object() {
    let mut gc = collector();
    let child = structure("Child", "", true, 12, vec![]);
    let old = structure("Parent", "old", true, 4, vec![]);
    let new = structure("Parent", "new", true, 8, vec![0]);
    let a = gc.alloc_object(old.clone());
    let b = gc.alloc_object(old.clone());
    gc.root(a);
    gc.root(b);
    gc.observer_mut().take();
    let mapping = Mapping {
        deletions: vec![],
        conversions: vec![conversion(&old, &new, vec![insert(child.clone(), 0)])],
        identical: vec![],
    };
    gc.map_memory(mapping);
    let child_a = read_handle(gc.payload(a), 0);
    let child_b = read_handle(gc.payload(b), 0);
    assert_ne!(child_a, child_b);
    assert_ne!(child_a, a);
    assert_ne!(child_a, b);
    assert!(gc.contains(child_a) && gc.contains(child_b));
    assert_eq!(gc.ptr_type(child_a), child);
    assert_eq!(gc.payload(child_a), &vec![0; 12]);
    assert_eq!(gc.roots(child_a), 0);
    assert_eq!(
        gc.observer().seen(),
        &vec![Event::Allocation(child_a), Event::Allocation(child_b)]
    );
    assert_eq!(gc.stats().allocated_bytes, 8 + 8 + 12 + 12);
    assert!(!gc.collect());
    gc.unroot(a);
    assert!(gc.collect());
    assert!(!gc.contains(a) && !gc.contains(child_a));
    assert!(gc.contains(b) && gc.contains(child_b));
}

#[test]
fn value_struct_is_mapped_in_place() {
    let mut gc = collector();
    let i32_ty = primitive(Primitive::I32);
    let old_inner = structure("Inner", "old", false, 8, vec![]);
    let new_inner = structure("Inner", "new", false, 8, vec![]);
    let old_outer = structure("Outer", "old", true, 16, vec![]);
    let new_outer = structure("Outer", "new", true, 16, vec![]);
    let handle = gc.alloc_object(old_outer.clone());
    let bytes: Vec<u8> = (1..=16).collect();
    assert!(gc.write(handle, 0, &bytes));
    let mapping = Mapping {
        deletions: vec![],
        conversions: vec![
            conversion(
                &old_inner,
                &new_inner,
                vec![copy(i32_ty.clone(), 0, 4), copy(i32_ty.clone(), 4, 0)],
            ),
            conversion(
                &old_outer,
                &new_outer,
                vec![
                    cast(new_inner.clone(), 8, old_inner.clone(), 0),
                    cast(new_inner.clone(), 0, old_inner.clone(), 8),
                ],
            ),
        ],
        identical: vec![],
    };
    gc.map_memory(mapping);
    assert_eq!(
        gc.payload(handle),
        &vec![13, 14, 15, 16, 9, 10, 11, 12, 5, 6, 7, 8, 1, 2, 3, 4]
    );
}

#[test]
fn value_struct_of_another_name_is_left_zero() {
    let mut gc = collector();
    let old_inner = structure("Inner", "", false, 8, vec![]);
    let other = structure("Other", "", false, 8, vec![]);
    let old_outer = structure("Outer", "old", true, 8, vec![]);
    let new_outer = structure("Outer", "new", true, 8, vec![]);
    let handle = gc.alloc_object(old_outer.clone());
    assert!(gc.write(handle, 0, &vec![3; 8]));
    let mapping = Mapping {
        deletions: vec![],
        conversions: vec![conversion(
            &old_outer,
            &new_outer,
            vec![cast(other, 0, old_inner, 0)],
        )],
        identical: vec![],
    };
    gc.map_memory(mapping);
    assert_eq!(gc.payload(handle), &vec![0; 8]);
}

#[test]
fn value_struct_is_promoted_to_a_gc_object() {
    let mut gc = collector();
    let i32_ty = primitive(Primitive::I32);
    let old_inner = structure("Inner", "value", false, 4, vec![]);
    let new_inner = structure("Inner", "gc", true, 4, vec![]);
    let old_outer = structure("Outer", "old", true, 4, vec![]);
    let new_outer = structure("Outer", "new", true, 8, vec![0]);
    let handle = gc.alloc_object(old_outer.clone());
    assert!(gc.write(handle, 0, &77i32.to_le_bytes().to_vec()));
    gc.root(handle);
    let mapping = Mapping {
        deletions: vec![],
        conversions: vec![
            conversion(&old_inner, &new_inner, vec![copy(i32_ty, 0, 0)]),
            conversion(
                &old_outer,
                &new_outer,
                vec![cast(new_inner.clone(), 0, old_inner.clone(), 0)],
            ),
        ],
        identical: vec![],
    };
    gc.map_memory(mapping);
    let inner = read_handle(gc.payload(handle), 0);
    assert!(gc.contains(inner));
    assert_ne!(inner, handle);
    assert_eq!(gc.ptr_type(inner), new_inner);
    assert_eq!(gc.payload(inner), &77i32.to_le_bytes().to_vec());
    assert!(!gc.collect());
}

#[test]
fn value_struct_of_another_name_is_promoted_to_a_zeroed_object() {
    let mut gc = collector();
    let old_inner = structure("Inner", "value", false, 4, vec![]);
    let other = structure("Other", "gc", true, 4, vec![]);
    let old_outer = structure("Outer", "old", true, 4, vec![]);
    let new_outer = structure("Outer", "new", true, 8, vec![0]);
    let handle = gc.alloc_object(old_outer.clone());
    assert!(gc.write(handle, 0, &vec![1, 2, 3, 4]));
    let mapping = Mapping {
        deletions: vec![],
        conversions: vec![conversion(
            &old_outer,
            &new_outer,
            vec![cast(other.clone(), 0, old_inner, 0)],
        )],
        identical: vec![],
    };
    gc.map_memory(mapping);
    let inner = read_handle(gc.payload(handle), 0);
    assert!(gc.contains(inner));
    assert_eq!(gc.ptr_type(inner), other);
    assert_eq!(gc.payload(inner), &vec![0; 4]);
}

#[test]
fn gc_struct_of_the_same_name_keeps_its_handle() {
    let mut gc = collector();
    let i32_ty = primitive(Primitive::I32);
    let old_inner = structure("Inner", "old", true, 4, vec![]);
    let new_inner = structure("Inner", "new", true, 4, vec![]);
    let old_outer = structure("Outer", "old", true, 16, vec![8]);
    let new_outer = structure("Outer", "new", true, 8, vec![0]);
    let inner = gc.alloc_object(old_inner.clone());
    let outer = gc.alloc_object(old_outer.clone());
    assert!(gc.write(inner, 0, &vec![4, 3, 2, 1]));
    assert!(gc.write(outer, 8, &handle_bytes(inner)));
    gc.observer_mut().take();
    let mapping = Mapping {
        deletions: vec![],
        conversions: vec![
            conversion(
                &old_outer,
                &new_outer,
                vec![cast(new_inner.clone(), 0, old_inner.clone(), 8)],
            ),
            conversion(&old_inner, &new_inner, vec![copy(i32_ty, 0, 0)]),
        ],
        identical: vec![],
    };
    gc.map_memory(mapping);
    assert_eq!(read_handle(gc.payload(outer), 0), inner);
    assert_eq!(gc.ptr_type(inner), new_inner);
    assert_eq!(gc.payload(inner), &vec![4, 3, 2, 1]);
    assert!(gc.observer().seen().is_empty());
}

#[test]
fn gc_struct_of_another_name_gets_a_new_zeroed_object() {
    let mut gc = collector();
    let old_inner = structure("Inner", "", true, 4, vec![]);
    let other = structure("Other", "", true, 6, vec![]);
    let old_outer = structure("Outer", "old", true, 8, vec![0]);
    let new_outer = structure("Outer", "new", true, 8, vec![0]);
    let inner = gc.alloc_object(old_inner.clone());
    let outer = gc.alloc_object(old_outer.clone());
    assert!(gc.write(outer, 0, &handle_bytes(inner)));
    let mapping = Mapping {
        deletions: vec![],
        conversions: vec![conversion(
            &old_outer,
            &new_outer,
            vec![cast(other.clone(), 0, old_inner, 0)],
        )],
        identical: vec![],
    };
    gc.map_memory(mapping);
    let fresh = read_handle(gc.payload(outer), 0);
    assert_ne!(fresh, inner);
    assert!(gc.contains(fresh));
    assert_eq!(gc.ptr_type(fresh), other);
    assert_eq!(gc.payload(fresh), &vec![0; 6]);
}

#[test]
fn gc_struct_of_another_name_demoted_is_left_zero() {
    let mut gc = collector();
    let old_inner = structure("Inner", "", true, 8, vec![]);
    let other = structure("Other", "", false, 8, vec![]);
    let old_outer = structure("Outer", "old", true, 8, vec![0]);
    let new_outer = structure("Outer", "new", true, 8, vec![]);
    let inner = gc.alloc_object(old_inner.clone());
    let outer = gc.alloc_object(old_outer.clone());
    assert!(gc.write(inner, 0, &vec![8; 8]));
    assert!(gc.write(outer, 0, &handle_bytes(inner)));
    let mapping = Mapping {
        deletions: vec![],
        conversions: vec![conversion(
            &old_outer,
            &new_outer,
            vec![cast(other, 0, old_inner, 0)],
        )],
        identical: vec![],
    };
    gc.map_memory(mapping);
    assert_eq!(gc.payload(outer), &vec![0; 8]);
}

#[test]
fn conversions_that_contain_themselves_come_to_an_end() {
    let mut gc = collector();
    let old = structure("Loop", "old", false, 8, vec![]);
    let new = structure("Loop", "new", false, 8, vec![]);
    let handle = gc.alloc_object(old.clone());
    assert!(gc.write(handle, 0, &vec![1; 8]));
    let mapping = Mapping {
        deletions: vec![],
        conversions: vec![conversion(
            &old,
            &new,
            vec![cast(new.clone(), 0, old.clone(), 0)],
        )],
        identical: vec![],
    };
    gc.map_memory(mapping);
    assert_eq!(gc.ptr_type(handle), new);
    assert_eq!(gc.payload(handle), &vec![0; 8]);
}

#[test]
fn handles_stay_valid_and_distinct_through_a_migration() {
    let mut gc = collector();
    let child = structure("Child", "", true, 1, vec![]);
    let old = structure("P", "old", true, 1, vec![]);
    let new = structure("P", "new", true, 16, vec![0, 8]);
    let mut before = Vec::new();
    for _ in 0..5 {
        before.push(gc.alloc_object(old.clone()));
    }
    let mapping = Mapping {
        deletions: vec![],
        conversions: vec![conversion(
            &old,
            &new,
            vec![insert(child.clone(), 0), insert(child.clone(), 8)],
        )],
        identical: vec![],
    };
    gc.map_memory(mapping);
    let mut all = before.clone();
    for handle in &before {
        assert!(gc.contains(*handle));
        all.push(read_handle(gc.payload(*handle), 0));
        all.push(read_handle(gc.payload(*handle), 8));
    }
    for (i, a) in all.iter().enumerate() {
        assert!(gc.contains(*a));
        for b in &all[i + 1..] {
            assert_ne!(a, b);
        }
    }
    let next = gc.alloc_object(child);
    assert!(!all.contains(&next));
}
