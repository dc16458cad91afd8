use kvstore::file::{FileOp, MockFile, SyncFile};
use kvstore::page::PageFormat;
use kvstore::page_map::{PageId, PageIdGenerator, PageMap};
use kvstore::store::{Store, StoreError};

#[test]
fn test_open_and_create_store() {
    let store = Store::new(MockFile::new());
    assert_eq!(store.len(), 0);
    assert_eq!(store.get_file().bytes().len(), 0);
}

#[test]
fn storage_manager_test_write_and_read_page() {
    let mut ids = PageIdGenerator::new();
    let mut store = Store::new(MockFile::new());
    let id = store.allocate_page(&mut ids).unwrap();
    let page = PageFormat::new();
    store.write_page(&page, &id).unwrap();
    let read = store.read_page(id).unwrap();
    assert_eq!(page, read);
}

#[test]
fn test_store_test_write_and_read_page() {
    let mut ids = PageIdGenerator::new();
    let mut store = Store::new(MockFile::new());
    let id = store.allocate_page(&mut ids).unwrap();
    let page = PageFormat::new();
    store.write_page(&page, &id).unwrap();
    let read = store.read_page(id).unwrap();
    assert_eq!(page, read);
}

#[test]
fn test_multiple_pages() {
    let mut ids = PageIdGenerator::new();
    let mut store = Store::new(MockFile::new());
    for _i in 0..5 {
        let id = store.allocate_page(&mut ids).unwrap();
        let page = PageFormat::new();
        store.write_page(&page, &id).unwrap();
    }
    assert_eq!(store.len(), 5);
}

#[test]
fn test_map_page_to_location() {
    let mut map = PageMap::new();
    let page_id = PageId::new(0);
    let location = 0;
    map.map_page(page_id, location);
    assert_eq!(map.get_location(&page_id), Some(location));
}

#[test]
fn test_get_page_location() {
    let store = Store::new(MockFile::new());
    let page_id = PageId::new(1);
    assert!(store.get_page_location(&page_id).is_none());
}

#[test]
fn test_allocate_page() {
    let mut ids = PageIdGenerator::new();
    let mut store = Store::new(MockFile::new());
    let page_id = store.allocate_page(&mut ids).unwrap();
    assert!(store.get_page_location(&page_id).is_some());
}

#[test]
fn test_drop() {
    let store = Store::new(MockFile::new());
    let file = store.close().unwrap();
    assert!(file.is_flushed());
    assert!(file.is_synced());
    assert_eq!(file.ops_log(), &vec![FileOp::Flush, FileOp::SyncData, FileOp::SyncAll]);
}

#[test]
fn allocation_syncs_data_once() {
    let mut ids = PageIdGenerator::new();
    let mut store = Store::new(MockFile::new());
    let _ = store.allocate_page(&mut ids).unwrap();
    assert_eq!(store.get_file().ops_log(), &vec![FileOp::SyncData]);
}

#[test]
fn five_allocations_at_consecutive_offsets() {
    let mut store = Store::new(MockFile::new());
    let mut counter = PageIdGenerator::new();
    let mut ids = Vec::new();
    for _ in 0..5 {
        ids.push(store.allocate_page(&mut counter).unwrap());
    }
    assert_eq!(store.len(), 5);
    let offsets: Vec<u64> = ids.iter().map(|id| store.get_page_location(id).unwrap()).collect();
    assert_eq!(offsets, vec![0, 4096, 8192, 12288, 16384]);
    for a in 0..5 {
        for b in 0..5 {
            if a != b {
                assert!(ids[a] != ids[b]);
            }
        }
    }
    assert_eq!(store.get_file().bytes().len(), 5 * 4096);
}

#[test]
fn header_footer_written_and_read_back() {
    let mut ids = PageIdGenerator::new();
    let mut store = Store::new(MockFile::new());
    let id = store.allocate_page(&mut ids).unwrap();
    let mut page = PageFormat::new();
    let header: [u8; 16] = [1, 2, 3, 4, 5, 6, 7, 8, 9, 10, 11, 12, 13, 14, 15, 16];
    let footer: [u8; 16] = [21, 22, 23, 24, 25, 26, 27, 28, 29, 30, 31, 32, 33, 34, 35, 36];
    page.set_header(header);
    page.set_footer(footer);
    store.write_page(&page, &id).unwrap();
    let read = store.read_page(id).unwrap();
    assert_eq!(*read.get_header(), header);
    assert_eq!(*read.get_footer(), footer);
    assert!(read.slots().iter().all(|b| *b == 0));
    assert!(read == page);
}

#[test]
fn writes_stay_in_place() {
    let mut ids = PageIdGenerator::new();
    let mut store = Store::new(MockFile::new());
    let a = store.allocate_page(&mut ids).unwrap();
    let b = store.allocate_page(&mut ids).unwrap();
    let mut pa = PageFormat::new();
    pa.set_header([0xA1; 16]);
    let mut pb = PageFormat::new();
    pb.set_footer([0xB2; 16]);
    store.write_page(&pa, &a).unwrap();
    store.write_page(&pb, &b).unwrap();
    store.write_page(&pa, &a).unwrap();
    assert_eq!(store.get_file().bytes().len(), 2 * 4096);
    assert!(store.read_page(a).unwrap() == pa);
    assert!(store.read_page(b).unwrap() == pb);
}

#[test]
fn unknown_id_is_not_allocated() {
    let mut ids = PageIdGenerator::new();
    let mut store = Store::new(MockFile::new());
    let _ = store.allocate_page(&mut ids).unwrap();
    let stranger = PageId::new(99);
    assert!(matches!(store.read_page(stranger), Err(StoreError::PageNotAllocated)));
    let page = PageFormat::new();
    assert!(matches!(store.write_page(&page, &stranger), Err(StoreError::PageNotAllocated)));
    assert_eq!(store.get_file().bytes().len(), 4096);
}

#[test]
fn pages_survive_reopen() {
    let mut ids = PageIdGenerator::new();
    let mut store = Store::new(MockFile::new());
    let a = store.allocate_page(&mut ids).unwrap();
    let b = store.allocate_page(&mut ids).unwrap();
    let mut pa = PageFormat::new();
    pa.set_slots(&[1, 2, 3, 4]);
    let mut pb = PageFormat::new();
    pb.set_header([7; 16]);
    store.write_page(&pa, &a).unwrap();
    store.write_page(&pb, &b).unwrap();
    let offset_b = store.get_page_location(&b).unwrap() as usize;
    let file = store.close().unwrap();
    let bytes = file.bytes().clone();

    let reopened = Store::new(MockFile::from_bytes(bytes));
    let contents = reopened.get_file().bytes();
    assert_eq!(&contents[0..4096], pa.serialize().as_slice());
    assert_eq!(&contents[offset_b..offset_b + 4096], pb.serialize().as_slice());
    let back = PageFormat::deserialize(contents[offset_b..offset_b + 4096].to_vec()).unwrap();
    assert!(back == pb);
}

#[test]
fn reopened_store_appends_after_old_pages() {
    let mut ids = PageIdGenerator::new();
    let mut store = Store::new(MockFile::new());
    let _ = store.allocate_page(&mut ids).unwrap();
    let file = store.close().unwrap();
    let mut reopened = Store::new(MockFile::from_bytes(file.bytes().clone()));
    let id = reopened.allocate_page(&mut ids).unwrap();
    assert_eq!(reopened.get_page_location(&id), Some(4096));
    assert_eq!(reopened.len(), 1);
}

#[test]
fn unaligned_file_refuses_allocation() {
    let mut ids = PageIdGenerator::new();
    let mut store = Store::new(MockFile::from_bytes(vec![0u8; 100]));
    assert!(matches!(store.allocate_page(&mut ids), Err(StoreError::UnalignedFile(100))));
    assert_eq!(store.len(), 0);
}

#[test]
fn stores_sharing_a_counter_never_repeat_handles() {
    let mut ids = PageIdGenerator::new();
    let first = ids.next_id().unwrap();
    assert!(first == PageId::new(0));
    let mut store_a = Store::new(MockFile::new());
    let mut store_b = Store::new(MockFile::new());
    let a1 = store_a.allocate_page(&mut ids).unwrap();
    let b1 = store_b.allocate_page(&mut ids).unwrap();
    let a2 = store_a.allocate_page(&mut ids).unwrap();
    assert!(a1 == PageId::new(1));
    assert!(b1 == PageId::new(2));
    assert!(a2 == PageId::new(3));
    assert!(a1 < b1 && b1 < a2);
    assert_eq!(store_b.get_page_location(&b1), Some(0));
}

#[test]
fn reused_counter_value_is_refused() {
    let mut store = Store::new(MockFile::new());
    let mut ids = PageIdGenerator::new();
    let _ = store.allocate_page(&mut ids).unwrap();
    let mut restarted = PageIdGenerator::new();
    assert!(matches!(store.allocate_page(&mut restarted), Err(StoreError::IdInUse)));
    assert_eq!(store.len(), 1);
    assert_eq!(store.get_file().bytes().len(), 4096);
}

#[test]
fn short_file_read_is_io_error() {
    let mut file = MockFile::from_bytes(vec![1u8; 10]);
    file.seek(4).unwrap();
    assert!(file.read_exact(7).is_err());
    assert_eq!(file.read_exact(6).unwrap(), vec![1u8; 6]);
}

#[test]
fn mock_file_write_past_end_fills_zeros() {
    let mut file = MockFile::new();
    file.seek(3).unwrap();
    file.write_all(&[9, 9]).unwrap();
    assert_eq!(file.bytes(), &vec![0u8, 0, 0, 9, 9]);
    file.seek(1).unwrap();
    file.write_all(&[5]).unwrap();
    assert_eq!(file.bytes(), &vec![0u8, 5, 0, 9, 9]);
    assert_eq!(file.len().unwrap(), 5);
}

#[test]
fn mock_file_set_synced() {
    let mut file = MockFile::new();
    assert!(!file.is_synced());
    file.set_synced(true);
    assert!(file.is_synced());
    assert!(!file.is_flushed());
}

#[test]
fn page_id_generator_counts_up() {
    let mut ids = PageIdGenerator::new();
    let a = ids.next_id().unwrap();
    let b = ids.next_id().unwrap();
    assert!(a < b);
    assert!(a == PageId::new(0));
    assert!(b == PageId::new(1));
    assert!(a.clone() == a);
}

#[test]
fn write_to_disk_appends_one_page() {
    let mut file = MockFile::from_bytes(vec![3u8; 4096]);
    let mut page = PageFormat::new();
    page.set_header([4; 16]);
    page.write_to_disk(&mut file).unwrap();
    let bytes = file.bytes();
    assert_eq!(bytes.len(), 8192);
    assert!(bytes[..4096].iter().all(|b| *b == 3));
    assert_eq!(&bytes[4096..], page.serialize().as_slice());
    assert!(file.is_synced());
}
