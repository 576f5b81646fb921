use mun_memory::abi::{Guid, Privacy, TypeId, ABI_VERSION};
use mun_memory::cast::{try_cast_from_to, CastTable, Primitive};
use mun_memory::layout::{repeat_layout, Layout, LayoutError, MemoryLayoutError};

#[test]
fn guid_from_str_is_md5_of_the_text() {
    let guid = Guid::from_str("input string");
    assert_eq!(
        guid.0,
        [
            0x16, 0x4c, 0x37, 0x5b, 0x4a, 0x5d, 0xf4, 0x4a, 0x33, 0x2c, 0xa3, 0x4b, 0xda, 0x6c,
            0xba, 0x9d
        ]
    );
    assert_eq!(Guid::from_bytes("input string".as_bytes()), guid);
}

#[test]
fn guid_from_str_differs_from_its_input() {
    let text = "0123456789abcdef";
    let guid = Guid::from_str(text);
    assert_ne!(&guid.0[..], text.as_bytes());
}

#[test]
fn guid_text_is_hyphenated_lower_case_hex() {
    let guid = Guid([
        0x16, 0x4c, 0x37, 0x5b, 0x4a, 0x5d, 0xf4, 0x4a, 0x33, 0x2c, 0xa3, 0x4b, 0xda, 0x6c, 0xba,
        0x9d,
    ]);
    assert_eq!(guid.to_string(), "164c375b-4a5d-f44a-332c-a34bda6cba9d");
    assert_eq!(
        guid.format_hyphenated(),
        "164c375b-4a5d-f44a-332c-a34bda6cba9d".as_bytes().to_vec()
    );
}

#[test]
fn guid_text_of_zero_and_of_all_ones() {
    assert_eq!(
        Guid([0; 16]).to_string(),
        "00000000-0000-0000-0000-000000000000"
    );
    assert_eq!(
        Guid([0xff; 16]).to_string(),
        "ffffffff-ffff-ffff-ffff-ffffffffffff"
    );
}

#[test]
fn guid_same_compares_all_bytes() {
    let a = Guid([7; 16]);
    let mut bytes = [7; 16];
    bytes[15] = 8;
    let b = Guid(bytes);
    assert!(a.same(&a));
    assert!(!a.same(&b));
    assert!(a == a);
    assert!(a != b);
}

#[test]
fn type_id_keeps_the_guid() {
    let guid = Guid::from_str("core::u8");
    let id = TypeId::from(guid);
    assert_eq!(id.guid, guid);
    assert_eq!(id.to_string(), "a079a753-b628-6ef7-6626-48e1f9ad043e");
}

#[test]
fn privacy_has_two_levels() {
    assert_ne!(Privacy::Public, Privacy::Private);
}

#[test]
fn abi_version_and_entry_points() {
    assert_eq!(ABI_VERSION, 0x0003_00);
    assert_eq!(mun_memory::abi::get_info_fn_name(), "get_info");
    assert_eq!(mun_memory::abi::get_version_fn_name(), "get_version");
    assert_eq!(
        mun_memory::abi::set_allocator_handle_fn_name(),
        "set_allocator_handle"
    );
}

#[test]
fn layout_accepts_powers_of_two_only() {
    assert!(Layout::from_size_align(8, 8).is_ok());
    assert!(Layout::from_size_align(0, 1).is_ok());
    assert_eq!(Layout::from_size_align(8, 0), Err(LayoutError {}));
    assert_eq!(Layout::from_size_align(8, 3), Err(LayoutError {}));
    assert_eq!(Layout::from_size_align(8, 12), Err(LayoutError {}));
    let layout = Layout::from_size_align(24, 16).unwrap();
    assert_eq!(layout.size(), 24);
    assert_eq!(layout.align(), 16);
}

#[test]
fn layout_rejects_sizes_that_round_up_beyond_isize() {
    let max = isize::MAX as usize;
    assert!(Layout::from_size_align(max, 1).is_ok());
    assert_eq!(Layout::from_size_align(max, 2), Err(LayoutError {}));
    assert!(Layout::from_size_align(max - 7, 8).is_ok());
    assert_eq!(Layout::from_size_align(max - 6, 8), Err(LayoutError {}));
}

#[test]
fn repeat_layout_pads_each_element_to_its_alignment() {
    let element = Layout::from_size_align(3, 4).unwrap();
    let array = repeat_layout(element, 4).unwrap();
    assert_eq!(array.size(), 16);
    assert_eq!(array.align(), 4);
    let none = repeat_layout(element, 0).unwrap();
    assert_eq!(none.size(), 0);
    let exact = repeat_layout(Layout::from_size_align(8, 8).unwrap(), 3).unwrap();
    assert_eq!(exact.size(), 24);
    let wide = repeat_layout(Layout::from_size_align(9, 8).unwrap(), 3).unwrap();
    assert_eq!(wide.size(), 48);
}

#[test]
fn repeat_layout_overflow_is_out_of_bounds() {
    let element = Layout::from_size_align(16, 8).unwrap();
    assert_eq!(
        repeat_layout(element, usize::MAX),
        Err(MemoryLayoutError::OutOfBounds)
    );
    assert_eq!(
        repeat_layout(element, usize::MAX / 16 + 1),
        Err(MemoryLayoutError::OutOfBounds)
    );
}

#[test]
fn repeat_layout_too_large_for_a_layout_is_a_layout_error() {
    let element = Layout::from_size_align(16, 8).unwrap();
    assert_eq!(
        repeat_layout(element, usize::MAX / 16),
        Err(MemoryLayoutError::LayoutError(LayoutError {}))
    );
}

#[test]
fn handle_array_takes_eight_bytes_per_handle() {
    let layout = Layout::handle_array(5).unwrap();
    assert_eq!(layout.size(), 40);
    assert_eq!(layout.align(), 8);
    assert_eq!(
        Layout::handle_array(usize::MAX),
        Err(MemoryLayoutError::LayoutError(LayoutError {}))
    );
    assert_eq!(
        Layout::handle_array(usize::MAX / 8),
        Err(MemoryLayoutError::LayoutError(LayoutError {}))
    );
}

#[test]
fn memory_layout_error_wraps_a_layout_error() {
    assert_eq!(
        MemoryLayoutError::from(LayoutError {}),
        MemoryLayoutError::LayoutError(LayoutError {})
    );
}

#[test]
fn primitive_guids_are_hashes_of_their_names() {
    assert_eq!(Primitive::U8.name(), "core::u8".as_bytes().to_vec());
    assert_eq!(Primitive::I128.name(), "core::i128".as_bytes().to_vec());
    assert_eq!(Primitive::Bool.name(), "core::bool".as_bytes().to_vec());
    assert_eq!(Primitive::U8.guid(), Guid::from_str("core::u8"));
    assert_eq!(
        Primitive::I16.guid().0,
        [5, 205, 124, 248, 66, 118, 216, 177, 232, 139, 140, 216, 141, 181, 137, 176]
    );
    let table = CastTable::new();
    for k in 0..13 {
        let p = Primitive::from_index(k);
        assert_eq!(table.lookup(&p.guid()), Some(p));
    }
    assert_eq!(table.lookup(&Guid::from_str("Foo")), None);
}

#[test]
fn primitive_sizes() {
    assert_eq!(Primitive::Bool.size(), 1);
    assert_eq!(Primitive::I16.size(), 2);
    assert_eq!(Primitive::U32.size(), 4);
    assert_eq!(Primitive::F32.size(), 4);
    assert_eq!(Primitive::F64.size(), 8);
    assert_eq!(Primitive::I64.size(), 8);
    assert_eq!(Primitive::U128.size(), 16);
}

#[test]
fn primitive_conversions_never_lose_a_value() {
    assert!(Primitive::I8.converts_to(Primitive::I16));
    assert!(Primitive::I8.converts_to(Primitive::I128));
    assert!(Primitive::U8.converts_to(Primitive::U16));
    assert!(Primitive::U8.converts_to(Primitive::I16));
    assert!(Primitive::U64.converts_to(Primitive::I128));
    assert!(Primitive::Bool.converts_to(Primitive::Bool));
    assert!(Primitive::F64.converts_to(Primitive::F64));
    assert!(!Primitive::I8.converts_to(Primitive::U16));
    assert!(!Primitive::I16.converts_to(Primitive::I8));
    assert!(!Primitive::U8.converts_to(Primitive::I8));
    assert!(!Primitive::Bool.converts_to(Primitive::U8));
    assert!(!Primitive::F32.converts_to(Primitive::F64));
    assert!(!Primitive::U32.converts_to(Primitive::F64));
}

#[test]
fn cast_sign_extends_signed_values() {
    let src = (-2i8).to_le_bytes().to_vec();
    let mut dest = vec![0u8; 4];
    let done = try_cast_from_to(
        Primitive::I8.guid(),
        Primitive::I32.guid(),
        &src,
        0,
        &mut dest,
        0,
    );
    assert!(done);
    assert_eq!(dest, (-2i32).to_le_bytes().to_vec());

    let src = 1234i16.to_le_bytes().to_vec();
    let mut dest = vec![0xaau8; 8];
    assert!(try_cast_from_to(
        Primitive::I16.guid(),
        Primitive::I64.guid(),
        &src,
        0,
        &mut dest,
        0
    ));
    assert_eq!(dest, 1234i64.to_le_bytes().to_vec());
}

#[test]
fn cast_zero_extends_unsigned_values() {
    let src = 200u8.to_le_bytes().to_vec();
    let mut dest = vec![0xffu8; 2];
    assert!(try_cast_from_to(
        Primitive::U8.guid(),
        Primitive::I16.guid(),
        &src,
        0,
        &mut dest,
        0
    ));
    assert_eq!(dest, 200i16.to_le_bytes().to_vec());

    let src = 0xdead_beefu32.to_le_bytes().to_vec();
    let mut dest = vec![0xffu8; 16];
    assert!(try_cast_from_to(
        Primitive::U32.guid(),
        Primitive::U128.guid(),
        &src,
        0,
        &mut dest,
        0
    ));
    assert_eq!(dest, 0xdead_beefu128.to_le_bytes().to_vec());
}

#[test]
fn cast_between_identical_guids_copies_the_bytes() {
    let src = vec![9u8, 1, 2, 3, 4, 5, 6, 7, 8, 9];
    let mut dest = vec![0u8; 12];
    assert!(try_cast_from_to(
        Primitive::F64.guid(),
        Primitive::F64.guid(),
        &src,
        1,
        &mut dest,
        2
    ));
    assert_eq!(dest, vec![0, 0, 1, 2, 3, 4, 5, 6, 7, 8, 0, 0]);
}

#[test]
fn cast_writes_at_the_places_given() {
    let src = vec![0u8, 0, 0x80];
    let mut dest = vec![1u8; 6];
    assert!(try_cast_from_to(
        Primitive::I8.guid(),
        Primitive::I16.guid(),
        &src,
        2,
        &mut dest,
        3
    ));
    assert_eq!(dest, vec![1, 1, 1, 0x80, 0xff, 1]);
}

#[test]
fn cast_without_conversion_leaves_the_destination() {
    let src = vec![1u8, 2, 3, 4];
    let mut dest = vec![0u8; 4];
    assert!(!try_cast_from_to(
        Primitive::I32.guid(),
        Primitive::I16.guid(),
        &src,
        0,
        &mut dest,
        0
    ));
    assert!(!try_cast_from_to(
        Guid::from_str("Foo"),
        Guid::from_str("Foo"),
        &src,
        0,
        &mut dest,
        0
    ));
    assert!(!try_cast_from_to(
        Primitive::I8.guid(),
        Guid::from_str("Bar"),
        &src,
        0,
        &mut dest,
        0
    ));
    assert_eq!(dest, vec![0u8; 4]);
}

#[test]
fn cast_beyond_a_buffer_leaves_the_destination() {
    let src = vec![1u8, 2];
    let mut dest = vec![0u8; 3];
    let i16_guid = Primitive::I16.guid();
    let i32_guid = Primitive::I32.guid();
    assert!(!try_cast_from_to(i16_guid, i32_guid, &src, 1, &mut dest, 0));
    assert!(!try_cast_from_to(i16_guid, i32_guid, &src, 3, &mut dest, 0));
    assert!(!try_cast_from_to(i16_guid, i32_guid, &src, 0, &mut dest, 0));
    assert!(!try_cast_from_to(i16_guid, i16_guid, &src, 0, &mut dest, 2));
    assert!(try_cast_from_to(i16_guid, i16_guid, &src, 0, &mut dest, 1));
    assert_eq!(dest, vec![0, 1, 2]);
}
