use kvstore::page::{array_from_vec, PageError, PageFormat, PAGE_SIZE};

#[test]
fn test_page_serialization() {
    let page = PageFormat::new();
    let bytes = page.serialize();
    let deserialized = PageFormat::deserialize(bytes).unwrap();
    assert_eq!(page, deserialized);
}

#[test]
fn test_read_write_header_footer() {
    let mut page = PageFormat::new();
    page.set_header([1u8, 2, 3, 4, 5, 6, 7, 8, 9, 10, 11, 12, 13, 14, 15, 16]);
    page.set_footer([21u8, 22, 23, 24, 25, 26, 27, 28, 29, 210, 211, 212, 213, 214, 215, 216]);
    let header = page.get_header();
    let footer = page.get_footer();
    assert_eq!(page.get_header(), header);
    assert_eq!(page.get_footer(), footer);
    assert_eq!(*header, [1u8, 2, 3, 4, 5, 6, 7, 8, 9, 10, 11, 12, 13, 14, 15, 16]);
    assert_eq!(*footer, [21u8, 22, 23, 24, 25, 26, 27, 28, 29, 210, 211, 212, 213, 214, 215, 216]);
}

#[test]
fn test_page_size() {
    let page = PageFormat::new();
    let bytes = page.serialize();
    assert_eq!(bytes.len(), 4096);
}

#[test]
fn new_page_defaults() {
    let page = PageFormat::new();
    assert_eq!(*page.get_header(), [0u8; 16]);
    assert_eq!(*page.get_footer(), [0u8; 16]);
    assert_eq!(page.num_slots(), 0);
    assert_eq!(page.slot_cap(), 10);
    assert!(page.slots().iter().all(|b| *b == 0));
}

#[test]
fn layout_of_default_page() {
    let bytes = PageFormat::new().serialize();
    assert_eq!(&bytes[16..20], &[0u8, 0, 0, 0]);
    assert_eq!(&bytes[20..24], &[10u8, 0, 0, 0]);
    assert!(bytes[..16].iter().all(|b| *b == 0));
    assert!(bytes[24..].iter().all(|b| *b == 0));
}

#[test]
fn layout_of_fields() {
    let mut page = PageFormat::new();
    page.set_header([0xAA; 16]);
    page.set_footer([0xBB; 16]);
    page.set_slots(&[1, 2, 3]);
    let bytes = page.serialize();
    assert_eq!(bytes.len(), PAGE_SIZE);
    assert!(bytes[..16].iter().all(|b| *b == 0xAA));
    assert_eq!(&bytes[24..28], &[1u8, 2, 3, 0]);
    assert!(bytes[4080..].iter().all(|b| *b == 0xBB));
}

#[test]
fn counters_are_little_endian() {
    let mut bytes = vec![0u8; 4096];
    bytes[16..20].copy_from_slice(&[0x78, 0x56, 0x34, 0x12]);
    bytes[20..24].copy_from_slice(&[0x01, 0x02, 0x00, 0x00]);
    let page = PageFormat::deserialize(bytes.clone()).unwrap();
    assert_eq!(page.num_slots(), 0x1234_5678);
    assert_eq!(page.slot_cap(), 0x0201);
    assert_eq!(page.serialize(), bytes);
}

#[test]
fn round_trip_all_ff() {
    let bytes = vec![0xFFu8; 4096];
    let page = PageFormat::deserialize(bytes.clone()).unwrap();
    assert_eq!(page.num_slots(), u32::MAX);
    assert_eq!(page.slot_cap(), u32::MAX);
    assert_eq!(page.serialize(), bytes);
    let again = PageFormat::deserialize(page.serialize()).unwrap();
    assert!(again == page);
}

#[test]
fn round_trip_mixed_fill() {
    let mut state: u32 = 12345;
    let mut bytes = vec![0u8; 4096];
    for b in bytes.iter_mut() {
        state = state.wrapping_mul(1103515245).wrapping_add(12345);
        *b = (state >> 16) as u8;
    }
    let page = PageFormat::deserialize(bytes.clone()).unwrap();
    assert_eq!(page.serialize(), bytes);
    let again = PageFormat::deserialize(page.serialize()).unwrap();
    assert!(again == page);
}

#[test]
fn decode_rejects_short_buffer() {
    let r = PageFormat::deserialize(vec![0u8; 100]);
    assert_eq!(r.err(), Some(PageError::WrongLength(100)));
}

#[test]
fn decode_rejects_long_buffer() {
    let r = PageFormat::deserialize(vec![0u8; 5000]);
    assert_eq!(r.err(), Some(PageError::WrongLength(5000)));
}

#[test]
fn decode_rejects_empty_buffer() {
    let r = PageFormat::deserialize(Vec::new());
    assert_eq!(r.err(), Some(PageError::WrongLength(0)));
}

#[test]
fn set_slots_keeps_tail() {
    let mut page = PageFormat::new();
    page.set_slots(&[9u8; 10]);
    page.set_slots(&[7u8; 4]);
    let slots = page.slots();
    assert_eq!(&slots[..4], &[7u8; 4]);
    assert_eq!(&slots[4..10], &[9u8; 6]);
    assert!(slots[10..].iter().all(|b| *b == 0));
}

#[test]
fn set_slots_cuts_long_input() {
    let mut page = PageFormat::new();
    page.set_slots(&vec![5u8; 5000]);
    assert!(page.slots().iter().all(|b| *b == 5));
    assert_eq!(page.serialize().len(), 4096);
}

#[test]
fn pages_differing_in_one_byte_are_unequal() {
    let a = PageFormat::new();
    let mut b = PageFormat::new();
    b.set_slots(&[0, 0, 1]);
    assert!(!(a == b));
}

#[test]
fn array_from_vec_takes_prefix() {
    let a: [u8; 4] = array_from_vec::<4>(vec![1, 2, 3, 4, 5, 6]);
    assert_eq!(a, [1, 2, 3, 4]);
}

#[test]
fn debug_lists_fields_in_layout_order() {
    let text = format!("{:?}", PageFormat::new());
    let h = text.find("header").unwrap();
    let n = text.find("num_slots").unwrap();
    let c = text.find("slot_cap").unwrap();
    let s = text.find(", slots:").unwrap();
    let f = text.find("footer").unwrap();
    assert!(text.starts_with("PageFormat"));
    assert!(h < n && n < c && c < s && s < f);
}
