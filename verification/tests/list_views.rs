use tlv_account_resolution::error::{ProgramError, SplPodError};
use tlv_account_resolution::item::Record;
use tlv_account_resolution::list;
use tlv_account_resolution::list_trait::List;
use tlv_account_resolution::list_view::ListView;
use tlv_account_resolution::pods::{PodU128, PodU16, PodU32, PodU64};

// A 16-byte record with the layout of `{ a: u64, b: u32, padding: [u8; 4] }`
// kept at an alignment of eight.
type TestStruct = Record<16, 8>;

fn test_struct(a: u64, b: u32) -> TestStruct {
    let mut bytes = a.to_le_bytes().to_vec();
    bytes.extend_from_slice(&b.to_le_bytes());
    bytes.extend_from_slice(&[0; 4]);
    Record::new(&bytes)
}

// ---- the standalone mutable list (`PodU64` length prefix) ----

#[test]
fn init_and_push() {
    let size = list::ListView::<Record<33, 1>>::size_of(2).unwrap();
    let buffer = vec![0u8; size];

    let mut pod_slice = list::ListView::<Record<33, 1>>::init(buffer).unwrap();

    pod_slice.push(Record::new(&[1; 33])).unwrap();
    assert_eq!(pod_slice.len(), 1);

    pod_slice.push(Record::new(&[2; 33])).unwrap();
    assert_eq!(pod_slice.len(), 2);

    // Buffer should be full now
    let err = pod_slice.push(Record::new(&[3; 33])).unwrap_err();
    assert_eq!(err, SplPodError::BufferTooSmall.into());
}

fn make_buffer_u8<L>(capacity: usize, items: &[u8], length_size: usize) -> Vec<u8> {
    // Byte items need no alignment padding after the prefix.
    let mut buf = vec![0u8; length_size + capacity];
    let mut len_le = (items.len() as u128).to_le_bytes().to_vec();
    len_le.truncate(length_size);
    buf[..length_size].copy_from_slice(&len_le);
    buf[length_size..length_size + items.len()].copy_from_slice(items);
    buf
}

#[test]
fn remove_at_first_item() {
    let buff = make_buffer_u8::<PodU64>(15, &[10, 20, 30, 40], 8);
    let mut list_view = list::ListView::<u8>::unpack(buff).unwrap();
    let removed = list_view.remove(0).unwrap();
    assert_eq!(removed, 10);
    assert_eq!(list_view.len(), 3);
    assert_eq!(list_view.iter(), vec![20, 30, 40]);
    // the freed slot is zero-filled
    let buff = list_view.into_buffer();
    assert_eq!(buff[8 + 3], 0);
}

#[test]
fn remove_at_middle_item() {
    let buff = make_buffer_u8::<PodU64>(15, &[10, 20, 30, 40], 8);
    let mut list_view = list::ListView::<u8>::unpack(buff).unwrap();
    let removed = list_view.remove(2).unwrap();
    assert_eq!(removed, 30);
    assert_eq!(list_view.len(), 3);
    assert_eq!(list_view.iter(), vec![10, 20, 40]);
    let buff = list_view.into_buffer();
    assert_eq!(buff[8 + 3], 0);
}

#[test]
fn remove_at_last_item() {
    let buff = make_buffer_u8::<PodU64>(15, &[10, 20, 30, 40], 8);
    let mut list_view = list::ListView::<u8>::unpack(buff).unwrap();
    let removed = list_view.remove(3).unwrap();
    assert_eq!(removed, 40);
    assert_eq!(list_view.len(), 3);
    assert_eq!(list_view.iter(), vec![10, 20, 30]);
    let buff = list_view.into_buffer();
    assert_eq!(buff[8 + 3], 0);
}

#[test]
fn remove_at_out_of_bounds() {
    let buff = make_buffer_u8::<PodU64>(3, &[1, 2, 3], 8);
    let original_buff = buff.clone();

    let mut list_view = list::ListView::<u8>::unpack(buff).unwrap();
    let err = list_view.remove(3).unwrap_err();
    assert_eq!(err, ProgramError::InvalidArgument);

    // list_view should be unchanged
    assert_eq!(list_view.len(), 3);
    assert_eq!(list_view.iter(), vec![1, 2, 3]);

    assert_eq!(list_view.into_buffer(), original_buff);
}

#[test]
fn remove_at_single_element() {
    let buff = make_buffer_u8::<PodU64>(1, &[10], 8);
    let mut list_view = list::ListView::<u8>::unpack(buff).unwrap();
    let removed = list_view.remove(0).unwrap();
    assert_eq!(removed, 10);
    assert_eq!(list_view.len(), 0);
    assert_eq!(list_view.iter(), Vec::<u8>::new());
    let buff = list_view.into_buffer();
    assert_eq!(buff[8], 0);
}

#[test]
fn remove_at_empty_slice() {
    let buff = make_buffer_u8::<PodU64>(0, &[], 8);
    let original_buff = buff.clone();

    let mut list_view = list::ListView::<u8>::unpack(buff).unwrap();
    let err = list_view.remove(0).unwrap_err();
    assert_eq!(err, ProgramError::InvalidArgument);

    // Assert list state is unchanged
    assert_eq!(list_view.len(), 0);

    assert_eq!(list_view.into_buffer(), original_buff);
}

#[test]
fn test_different_length_types() {
    // Test with u16 length
    let buff16 = make_buffer_u8::<PodU16>(5, &[1, 2, 3], 2);
    let list16 = list::ListView::<u8, PodU16>::unpack(buff16).unwrap();
    assert_eq!(list16.len(), 3);

    // Test with u32 length
    let buff32 = make_buffer_u8::<PodU32>(5, &[4, 5, 6], 4);
    let list32 = list::ListView::<u8, PodU32>::unpack(buff32).unwrap();
    assert_eq!(list32.len(), 3);

    // Test with u64 length
    let buff64 = make_buffer_u8::<PodU64>(5, &[7, 8, 9], 8);
    let list64 = list::ListView::<u8, PodU64>::unpack(buff64).unwrap();
    assert_eq!(list64.len(), 3);
}

#[test]
fn test_alignment_in_practice() {
    // u32 length with u64 data - needs 4 bytes padding, so the data
    // region starts at an 8-byte aligned offset
    let size = list::ListView::<u64, PodU32>::size_of(2).unwrap();
    assert_eq!(size, 4 + 4 + 16);
    let data_start = list::ListView::<u64, PodU32>::size_of(0).unwrap();
    assert_eq!(data_start % 8, 0);
    let buffer = vec![0u8; size];
    let list = list::ListView::<u64, PodU32>::init(buffer).unwrap();
    assert_eq!(list.capacity(), 2);

    // u16 length with u64 data - needs 6 bytes padding
    let size = list::ListView::<u64, PodU16>::size_of(2).unwrap();
    assert_eq!(size, 2 + 6 + 16);
    let data_start = list::ListView::<u64, PodU16>::size_of(0).unwrap();
    assert_eq!(data_start % 8, 0);
    let buffer = vec![0u8; size];
    let list = list::ListView::<u64, PodU16>::init(buffer).unwrap();
    assert_eq!(list.capacity(), 2);
}

#[test]
fn test_length_too_large() {
    // Create a buffer with capacity for 2 items
    let capacity = 2;
    let buff_len = 4 + capacity;
    let mut buffer = vec![0u8; buff_len];

    // Manually write a length value that exceeds the capacity
    buffer[..4].copy_from_slice(&(capacity as u32 + 1).to_le_bytes());

    // Attempting to unpack should return BufferTooSmall error
    match list::ListView::<u8, PodU32>::unpack(buffer) {
        Err(err) => assert_eq!(err, SplPodError::BufferTooSmall.into()),
        Ok(_) => panic!("Expected BufferTooSmall error, but unpack succeeded"),
    }
}

// ---- the two-sided list view (`PodU32` length prefix by default) ----

#[test]
fn test_size_of_no_padding() {
    // Case 1: records of one byte never need padding.
    // 10 items * 1 byte/item + 4 bytes for length = 14
    assert_eq!(ListView::<u8, PodU32>::size_of(10).unwrap(), 14);

    // Case 2: the prefix size is a multiple of the record alignment.
    // 10 items * 4 bytes/item + 4 bytes for length = 44
    assert_eq!(ListView::<u32>::size_of(10).unwrap(), 44);

    // Case 3: 0 items. Size should just be the prefix size.
    assert_eq!(ListView::<u32>::size_of(0).unwrap(), 4);
}

#[test]
fn test_size_of_with_padding() {
    // Case 1: padding is required.
    // (10 items * 8 bytes/item) + 4 bytes for length + 4 bytes padding = 88
    assert_eq!(ListView::<u64, PodU32>::size_of(10).unwrap(), 88);

    // Case 2: a record kept at an alignment of sixteen.
    // (10 items * 16 bytes/item) + 4 for length + 12 for padding = 176
    assert_eq!(ListView::<Record<16, 16>, PodU32>::size_of(10).unwrap(), 176);

    // Case 3: 0 items with padding.
    // Total size = 4 + 4 = 8
    assert_eq!(ListView::<u64, PodU32>::size_of(0).unwrap(), 8);
}

#[test]
fn test_size_of_overflow() {
    // Case 1: the item-size multiplication overflows.
    let err = ListView::<Record<2, 1>, PodU32>::size_of(usize::MAX).unwrap_err();
    assert_eq!(err, SplPodError::CalculationFailure);

    // Case 2: the multiplication fits, but adding the prefix overflows.
    let err = ListView::<u8, PodU32>::size_of(usize::MAX).unwrap_err();
    assert_eq!(err, SplPodError::CalculationFailure);
}

fn build_test_buffer(length: u32, capacity: usize, items: &[u32]) -> Vec<u8> {
    let size = ListView::<u32, PodU32>::size_of(capacity).unwrap();
    let mut buffer = vec![0u8; size];
    buffer[0..4].copy_from_slice(&length.to_le_bytes());
    for (i, item) in items.iter().enumerate() {
        buffer[4 + 4 * i..8 + 4 * i].copy_from_slice(&item.to_le_bytes());
    }
    buffer
}

#[test]
fn test_unpack_success_no_padding() {
    let buf = build_test_buffer(2, 3, &[100, 200]);

    let view_ro = ListView::<u32, PodU32>::unpack(&buf).unwrap();
    assert_eq!(view_ro.len(), 2);
    assert_eq!(view_ro.capacity(), 3);
    assert_eq!(view_ro.as_slice(), &[100u32, 200u32]);

    let view_mut = ListView::<u32, PodU32>::unpack_mut(buf).unwrap();
    assert_eq!(view_mut.len(), 2);
    assert_eq!(view_mut.capacity(), 3);
    assert_eq!(view_mut.to_vec(), vec![100u32, 200u32]);
}

#[test]
fn test_unpack_success_with_padding() {
    // u64 records under a 4-byte prefix need 4 bytes of padding.
    let length: u32 = 2;
    let capacity: usize = 2;
    let buf_size = 4 + 4 + capacity * 8;
    let mut buf = vec![0u8; buf_size];
    buf[0..4].copy_from_slice(&length.to_le_bytes());
    buf[8..16].copy_from_slice(&100u64.to_le_bytes());
    buf[16..24].copy_from_slice(&200u64.to_le_bytes());

    let view_ro = ListView::<u64, PodU32>::unpack(&buf).unwrap();
    assert_eq!(view_ro.len(), 2);
    assert_eq!(view_ro.capacity(), capacity);
    assert_eq!(view_ro.as_slice(), &[100u64, 200u64]);

    let view_mut = ListView::<u64, PodU32>::unpack_mut(buf).unwrap();
    assert_eq!(view_mut.len(), 2);
    assert_eq!(view_mut.capacity(), capacity);
    assert_eq!(view_mut.to_vec(), vec![100u64, 200u64]);
}

#[test]
fn test_unpack_success_zero_length() {
    let buf = build_test_buffer(0, 5, &[]);

    let view_ro = ListView::<u32, PodU32>::unpack(&buf).unwrap();
    assert_eq!(view_ro.len(), 0);
    assert_eq!(view_ro.capacity(), 5);
    assert!(view_ro.is_empty());
    assert_eq!(view_ro.as_slice(), &[] as &[u32]);

    let view_mut = ListView::<u32, PodU32>::unpack_mut(buf).unwrap();
    assert_eq!(view_mut.len(), 0);
    assert_eq!(view_mut.capacity(), 5);
    assert!(view_mut.is_empty());
    assert_eq!(view_mut.to_vec(), Vec::<u32>::new());
}

#[test]
fn test_unpack_success_full_capacity() {
    let mut buf = vec![0u8; 4 + 3 * 4];
    buf[0..4].copy_from_slice(&3u32.to_le_bytes());
    buf[4..8].copy_from_slice(&1u32.to_le_bytes());
    buf[8..12].copy_from_slice(&2u32.to_le_bytes());
    buf[12..16].copy_from_slice(&3u32.to_le_bytes());

    let view_ro = ListView::<u32>::unpack(&buf).unwrap();
    assert_eq!(view_ro.len(), 3);
    assert_eq!(view_ro.capacity(), 3);
    assert_eq!(view_ro.as_slice(), &[1u32, 2, 3]);
}

#[test]
fn test_unpack_fail_buffer_too_small_for_header() {
    // u64 records under a 4-byte prefix: the header is 8 bytes.
    let mut buf = vec![0u8; 7];

    let err = ListView::<u64, PodU32>::unpack(&buf).unwrap_err();
    assert_eq!(err, SplPodError::BufferTooSmall);

    buf.truncate(7);
    let err = ListView::<u64, PodU32>::unpack_mut(buf).unwrap_err();
    assert_eq!(err, SplPodError::BufferTooSmall);
}

#[test]
fn test_unpack_fail_declared_length_exceeds_capacity() {
    let buf = build_test_buffer(4, 3, &[]);

    let err = ListView::<u32, PodU32>::unpack(&buf).unwrap_err();
    assert_eq!(err, SplPodError::BufferTooSmall);

    let err = ListView::<u32, PodU32>::unpack_mut(buf).unwrap_err();
    assert_eq!(err, SplPodError::BufferTooSmall);
}

#[test]
fn test_unpack_fail_data_part_not_multiple_of_item_size() {
    // data part is 5 bytes, not a multiple of the item size (4)
    let buf = vec![0u8; 4 + 5];

    let err = ListView::<u32, PodU32>::unpack(&buf).unwrap_err();
    assert_eq!(err, SplPodError::PodCast);

    let err = ListView::<u32, PodU32>::unpack_mut(buf).unwrap_err();
    assert_eq!(err, SplPodError::PodCast);
}

#[test]
fn test_unpack_empty_buffer() {
    let buf: Vec<u8> = vec![];
    let err = ListView::<u32, PodU32>::unpack(&buf).unwrap_err();
    assert_eq!(err, SplPodError::BufferTooSmall);

    let err = ListView::<u32, PodU32>::unpack_mut(buf).unwrap_err();
    assert_eq!(err, SplPodError::BufferTooSmall);
}

#[test]
fn test_init_success_no_padding() {
    let capacity: usize = 5;
    let buf_size = ListView::<u32, PodU32>::size_of(capacity).unwrap();
    let buf = vec![0xFFu8; buf_size];  // Pre-fill to ensure init zeroes it

    let view = ListView::<u32, PodU32>::init(buf).unwrap();

    assert_eq!(view.len(), 0);
    assert_eq!(view.capacity(), capacity);
    assert!(view.is_empty());

    // Check that the underlying buffer's length was actually zeroed
    let buf = view.into_buffer();
    assert_eq!(&buf[0..4], &[0u8; 4]);
}

#[test]
fn test_init_success_with_padding() {
    let capacity: usize = 3;
    let buf_size = ListView::<u64, PodU32>::size_of(capacity).unwrap();
    let buf = vec![0xFFu8; buf_size];  // Pre-fill to ensure init zeroes it

    let view = ListView::<u64, PodU32>::init(buf).unwrap();

    assert_eq!(view.len(), 0);
    assert_eq!(view.capacity(), capacity);
    assert!(view.is_empty());

    // Check that the underlying buffer's length was actually zeroed
    let buf = view.into_buffer();
    assert_eq!(&buf[0..4], &[0u8; 4]);
    // The padding bytes may or may not be zeroed, we don't assert on them.
}

#[test]
fn test_init_success_zero_capacity() {
    // Test initializing a buffer that can only hold the header.
    let buf_size = ListView::<u64, PodU32>::size_of(0).unwrap();
    assert_eq!(buf_size, 8);
    let buf = vec![0xFFu8; buf_size];

    let view = ListView::<u64, PodU32>::init(buf).unwrap();

    assert_eq!(view.len(), 0);
    assert_eq!(view.capacity(), 0);
    assert!(view.is_empty());

    // Check that the underlying buffer's length was actually zeroed
    let buf = view.into_buffer();
    assert_eq!(&buf[0..4], &[0u8; 4]);
}

#[test]
fn test_init_fail_buffer_too_small() {
    // Header requires 4 bytes
    let buf = vec![0u8; 3];
    let err = ListView::<u32, PodU32>::init(buf).unwrap_err();
    assert_eq!(err, SplPodError::BufferTooSmall);

    // With padding, header requires 8 bytes (4 for len, 4 for pad)
    let buf_padded = vec![0u8; 7];
    let err_padded = ListView::<u64, PodU32>::init(buf_padded).unwrap_err();
    assert_eq!(err_padded, SplPodError::BufferTooSmall);
}

#[test]
fn test_init_success_default_length_type() {
    // This test uses the default length type by omitting it.
    let capacity = 5;
    let buf_size = ListView::<u32>::size_of(capacity).unwrap();
    let buf = vec![0xFFu8; buf_size];  // Pre-fill to ensure init zeroes it

    let view = ListView::<u32>::init(buf).unwrap();

    assert_eq!(view.len(), 0);
    assert_eq!(view.capacity(), capacity);
    assert!(view.is_empty());

    // Check that the underlying buffer's length (4 bytes) was zeroed
    let buf = view.into_buffer();
    assert_eq!(&buf[0..4], &[0u8; 4]);
}

// ---- the read-only view ----

#[test]
fn test_len_and_capacity() {
    let buffer = build_test_buffer(3, 5, &[10, 20, 30]);
    let view = ListView::<u32>::unpack(&buffer).unwrap();

    assert_eq!(view.len(), 3);
    assert_eq!(view.capacity(), 5);
}

#[test]
fn test_as_slice() {
    // Buffer has capacity for 5, but we only use 3.
    let buffer = build_test_buffer(3, 5, &[10, 20, 30]);
    let view = ListView::<u32, PodU32>::unpack(&buffer).unwrap();

    // `as_slice()` should only return the first `len` items.
    assert_eq!(view.as_slice(), &[10u32, 20, 30]);
}

#[test]
fn test_is_empty() {
    // Not empty
    let buffer_full = build_test_buffer(1, 2, &[10]);
    let view_full = ListView::<u32>::unpack(&buffer_full).unwrap();
    assert!(!view_full.is_empty());

    // Empty
    let buffer_empty = build_test_buffer(0, 2, &[]);
    let view_empty = ListView::<u32>::unpack(&buffer_empty).unwrap();
    assert!(view_empty.is_empty());
}

#[test]
fn test_iter() {
    let items = [test_struct(1, 0), test_struct(2, 0)];
    let size = ListView::<TestStruct, PodU64>::size_of(3).unwrap();
    let mut buffer = vec![0u8; size];
    buffer[0..8].copy_from_slice(&2u64.to_le_bytes());
    buffer[8..24].copy_from_slice(&items[0].0);
    buffer[24..40].copy_from_slice(&items[1].0);
    let view = ListView::<TestStruct, PodU64>::unpack(&buffer).unwrap();

    let mut iter = view.as_slice().iter();
    assert_eq!(iter.next(), Some(&items[0]));
    assert_eq!(iter.next(), Some(&items[1]));
    assert_eq!(iter.next(), None);
    let collected: Vec<_> = view.as_slice().iter().collect();
    assert_eq!(collected, vec![&items[0], &items[1]]);
}

#[test]
fn test_iter_on_empty_list() {
    let buffer = build_test_buffer(0, 5, &[]);
    let view = ListView::<u32, PodU32>::unpack(&buffer).unwrap();

    assert_eq!(view.as_slice().iter().count(), 0);
    assert_eq!(view.as_slice().iter().next(), None);
}

#[test]
fn list_view_read_only_test_zero_capacity() {
    // Buffer is just big enough for the header (len + padding), no data.
    let size = ListView::<Record<16, 16>, PodU32>::size_of(0).unwrap();
    assert_eq!(size, 16);
    let buffer = vec![0u8; size];
    let view = ListView::<Record<16, 16>, PodU32>::unpack(&buffer).unwrap();

    assert_eq!(view.len(), 0);
    assert_eq!(view.capacity(), 0);
    assert!(view.is_empty());
    assert_eq!(view.as_slice(), &[] as &[Record<16, 16>]);
}

#[test]
fn test_with_padding() {
    // A record kept at an alignment of sixteen under a 4-byte prefix:
    // the header size should be 16 (4 for len + 12 for padding).
    let header_size = ListView::<Record<16, 16>>::size_of(0).unwrap();
    assert_eq!(header_size, 16);

    let items = [
        Record::<16, 16>(123u128.to_le_bytes()),
        Record::<16, 16>(456u128.to_le_bytes()),
    ];
    let size = ListView::<Record<16, 16>>::size_of(4).unwrap();
    let mut buffer = vec![0u8; size];
    buffer[0..4].copy_from_slice(&2u32.to_le_bytes());
    buffer[16..32].copy_from_slice(&items[0].0);
    buffer[32..48].copy_from_slice(&items[1].0);
    let view = ListView::<Record<16, 16>>::unpack(&buffer).unwrap();

    // Check if the public API works as expected despite internal padding
    assert_eq!(view.len(), 2);
    assert_eq!(view.capacity(), 4);
    assert_eq!(view.as_slice(), &items[..]);
}

#[test]
fn test_bytes_used_and_allocated() {
    // 3 live elements, capacity 5
    let buffer = build_test_buffer(3, 5, &[10, 20, 30]);
    let view = ListView::<u32>::unpack(&buffer).unwrap();

    let expected_used = ListView::<u32>::size_of(3).unwrap();
    let expected_cap = ListView::<u32>::size_of(5).unwrap();

    assert_eq!(view.bytes_used().unwrap(), expected_used);
    assert_eq!(view.bytes_allocated().unwrap(), expected_cap);
}

#[test]
fn test_get() {
    let buffer = build_test_buffer(3, 5, &[10, 20, 30]);
    let view = ListView::<u32>::unpack(&buffer).unwrap();

    // Get in-bounds elements
    assert_eq!(view.first(), Some(&10u32));
    assert_eq!(view.get(1), Some(&20u32));
    assert_eq!(view.get(2), Some(&30u32));

    // Get out-of-bounds element (index == len)
    assert_eq!(view.get(3), None);

    // Get way out-of-bounds
    assert_eq!(view.get(100), None);
}

#[test]
fn test_get_on_empty_list() {
    let buffer = build_test_buffer(0, 5, &[]);
    let view = ListView::<u32, PodU32>::unpack(&buffer).unwrap();
    assert_eq!(view.first(), None);
}

// ---- the mutable view ----

fn init_view_mut(capacity: usize) -> tlv_account_resolution::list_view_mut::ListViewMut<TestStruct, PodU32> {
    let size = ListView::<TestStruct, PodU32>::size_of(capacity).unwrap();
    let buffer = vec![0u8; size];
    ListView::<TestStruct, PodU32>::init(buffer).unwrap()
}

#[test]
fn test_push() {
    let mut view = init_view_mut(3);

    assert_eq!(view.len(), 0);
    assert!(view.is_empty());
    assert_eq!(view.capacity(), 3);

    // Push first item
    let item1 = test_struct(1, 10);
    view.push(item1).unwrap();
    assert_eq!(view.len(), 1);
    assert!(!view.is_empty());
    assert_eq!(view.to_vec(), vec![item1]);

    // Push second item
    let item2 = test_struct(2, 20);
    view.push(item2).unwrap();
    assert_eq!(view.len(), 2);
    assert_eq!(view.to_vec(), vec![item1, item2]);

    // Push third item to fill capacity
    let item3 = test_struct(3, 30);
    view.push(item3).unwrap();
    assert_eq!(view.len(), 3);
    assert_eq!(view.to_vec(), vec![item1, item2, item3]);

    // Try to push beyond capacity
    let item4 = test_struct(4, 40);
    let err = view.push(item4).unwrap_err();
    assert_eq!(err, SplPodError::BufferTooSmall.into());

    // Ensure state is unchanged
    assert_eq!(view.len(), 3);
    assert_eq!(view.to_vec(), vec![item1, item2, item3]);
}

#[test]
fn test_remove() {
    let mut view = init_view_mut(4);

    let item1 = test_struct(1, 10);
    let item2 = test_struct(2, 20);
    let item3 = test_struct(3, 30);
    let item4 = test_struct(4, 40);
    view.push(item1).unwrap();
    view.push(item2).unwrap();
    view.push(item3).unwrap();
    view.push(item4).unwrap();

    assert_eq!(view.len(), 4);
    assert_eq!(view.to_vec(), vec![item1, item2, item3, item4]);

    // Remove from the middle
    let removed = view.remove(1).unwrap();
    assert_eq!(removed, item2);
    assert_eq!(view.len(), 3);
    assert_eq!(view.to_vec(), vec![item1, item3, item4]);

    // Remove from the end
    let removed = view.remove(2).unwrap();
    assert_eq!(removed, item4);
    assert_eq!(view.len(), 2);
    assert_eq!(view.to_vec(), vec![item1, item3]);

    // Remove from the start
    let removed = view.remove(0).unwrap();
    assert_eq!(removed, item1);
    assert_eq!(view.len(), 1);
    assert_eq!(view.to_vec(), vec![item3]);

    // Remove the last element
    let removed = view.remove(0).unwrap();
    assert_eq!(removed, item3);
    assert_eq!(view.len(), 0);
    assert!(view.is_empty());
    assert_eq!(view.to_vec(), Vec::<TestStruct>::new());
}

#[test]
fn test_remove_out_of_bounds() {
    let mut view = init_view_mut(2);

    view.push(test_struct(1, 10)).unwrap();
    view.push(test_struct(2, 20)).unwrap();

    // Try to remove at index == len
    let err = view.remove(2).unwrap_err();
    assert_eq!(err, ProgramError::InvalidArgument);
    assert_eq!(view.len(), 2); // Unchanged

    // Try to remove at index > len
    let err = view.remove(100).unwrap_err();
    assert_eq!(err, ProgramError::InvalidArgument);
    assert_eq!(view.len(), 2); // Unchanged

    // Empty the view
    view.remove(1).unwrap();
    view.remove(0).unwrap();
    assert!(view.is_empty());

    // Try to remove from empty view
    let err = view.remove(0).unwrap_err();
    assert_eq!(err, ProgramError::InvalidArgument);
}

#[test]
fn test_iter_mut() {
    let mut view = init_view_mut(4);

    let item1 = test_struct(1, 10);
    let item2 = test_struct(2, 20);
    let item3 = test_struct(3, 30);
    view.push(item1).unwrap();
    view.push(item2).unwrap();
    view.push(item3).unwrap();

    assert_eq!(view.len(), 3);
    assert_eq!(view.capacity(), 4);

    // Modify each item in place: multiply the `a` field by 10
    for i in 0..view.len() {
        let item = view.item(i);
        let a = u64::from_le_bytes(item.0[0..8].try_into().unwrap());
        let b = u32::from_le_bytes(item.0[8..12].try_into().unwrap());
        view.set(i, test_struct(a * 10, b)).unwrap();
    }

    let expected_item1 = test_struct(10, 10);
    let expected_item2 = test_struct(20, 20);
    let expected_item3 = test_struct(30, 30);

    // Check that the underlying data is modified
    assert_eq!(view.len(), 3);
    assert_eq!(
        view.to_vec(),
        vec![expected_item1, expected_item2, expected_item3]
    );

    // Only the stored items are visible, not the whole capacity
    assert_eq!(view.to_vec().len(), 3);
}

#[test]
fn test_iter_mut_empty() {
    let view = init_view_mut(5);

    let mut count = 0;
    for _ in view.to_vec() {
        count += 1;
    }
    assert_eq!(count, 0);
    assert_eq!(view.to_vec().first(), None);
}

#[test]
fn list_view_mut_test_zero_capacity() {
    let mut view = init_view_mut(0);

    assert_eq!(view.len(), 0);
    assert_eq!(view.capacity(), 0);
    assert!(view.is_empty());

    let err = view.push(test_struct(1, 1)).unwrap_err();
    assert_eq!(err, SplPodError::BufferTooSmall.into());

    let err = view.remove(0).unwrap_err();
    assert_eq!(err, ProgramError::InvalidArgument);
}

#[test]
fn test_default_length_type() {
    let capacity = 2;
    let size = ListView::<TestStruct>::size_of(capacity).unwrap();
    let buffer = vec![0u8; size];

    // Initialize the view without specifying a length type: the default
    // prefix is four bytes.
    let view = ListView::<TestStruct>::init(buffer).unwrap();

    assert_eq!(view.capacity(), capacity);
    assert_eq!(view.len(), 0);
    assert_eq!(size, 4 + 4 + capacity * 16);
}

#[test]
fn test_bytes_used_and_allocated_mut() {
    // capacity 3, start empty
    let mut view = init_view_mut(3);

    // Empty view
    assert_eq!(
        view.bytes_used().unwrap(),
        ListView::<TestStruct, PodU32>::size_of(0).unwrap()
    );
    assert_eq!(
        view.bytes_allocated().unwrap(),
        ListView::<TestStruct, PodU32>::size_of(view.capacity()).unwrap()
    );

    // After pushing elements
    view.push(test_struct(1, 2)).unwrap();
    view.push(test_struct(3, 4)).unwrap();
    view.push(test_struct(5, 6)).unwrap();
    assert_eq!(
        view.bytes_used().unwrap(),
        ListView::<TestStruct, PodU32>::size_of(3).unwrap()
    );
    assert_eq!(
        view.bytes_allocated().unwrap(),
        ListView::<TestStruct, PodU32>::size_of(view.capacity()).unwrap()
    );
}

#[test]
fn test_get_and_get_mut() {
    let mut view = init_view_mut(3);

    let item0 = test_struct(1, 10);
    let item1 = test_struct(2, 20);
    view.push(item0).unwrap();
    view.push(item1).unwrap();

    // Test get()
    assert_eq!(view.get(0), Some(item0));
    assert_eq!(view.get(1), Some(item1));
    assert_eq!(view.get(2), None); // out of bounds
    assert_eq!(view.get(100), None); // way out of bounds

    // Overwrite an item in place
    let modified_item0 = test_struct(111, 110);
    view.set(0, modified_item0).unwrap();

    // Verify the modification
    assert_eq!(view.get(0), Some(modified_item0));
    assert_eq!(view.to_vec(), vec![modified_item0, item1]);

    // Overwriting out of bounds fails
    assert_eq!(view.set(2, item0).unwrap_err(), ProgramError::InvalidArgument);
}

#[test]
fn test_mutable_access_via_indexing() {
    let mut view = init_view_mut(3);

    let item0 = test_struct(1, 10);
    let item1 = test_struct(2, 20);
    view.push(item0).unwrap();
    view.push(item1).unwrap();

    assert_eq!(view.len(), 2);

    // Modify the stored record at position zero: set its `a` field to 99
    let b = u32::from_le_bytes(view.item(0).0[8..12].try_into().unwrap());
    view.set(0, test_struct(99, b)).unwrap();

    let expected_item0 = test_struct(99, 10);
    assert_eq!(view.get(0), Some(expected_item0));
    assert_eq!(view.to_vec(), vec![expected_item0, item1]);
}

#[test]
fn test_from_pod_slice_error_for_solana_program_error() {
    let result = list::ListView::<u8>::size_of(usize::MAX);
    assert!(result.is_err());
    let err = result.unwrap_err();
    let expected_err: ProgramError = SplPodError::CalculationFailure.into();
    assert_eq!(err, expected_err);
}

#[test]
fn push_past_the_prefix_range_fails() {
    // A two-byte prefix can store at most 65535 records; a buffer with
    // room for one more still refuses the 65536th push.
    let capacity = 65536 + 8;
    let buffer = vec![0u8; 2 + capacity];
    let mut view = ListView::<u8, PodU16>::init(buffer).unwrap();
    for i in 0..65535u32 {
        view.push((i % 251) as u8).unwrap();
    }
    assert_eq!(view.len(), 65535);
    let err = view.push(7).unwrap_err();
    assert_eq!(err, SplPodError::ValueOutOfRange.into());
    assert_eq!(view.len(), 65535);
}

#[test]
fn u128_prefix_roundtrip() {
    let buffer = vec![0u8; 16 + 3];
    let mut view = ListView::<u8, PodU128>::init(buffer).unwrap();
    view.push(5).unwrap();
    view.push(6).unwrap();
    assert_eq!(view.len(), 2);
    assert_eq!(view.to_vec(), vec![5, 6]);
    let buffer = view.into_buffer();
    assert_eq!(&buffer[0..16], &[2, 0, 0, 0, 0, 0, 0, 0, 0, 0, 0, 0, 0, 0, 0, 0]);
}
