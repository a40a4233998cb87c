use starryfuse::dirent::{DirItem, DirListing};
use starryfuse::error::VfsError;
use starryfuse::node::NodeType;
use starryfuse::vfs::FuseFs;

fn entry(ino: u64, off: u64, type_: u32, name: &[u8]) -> Vec<u8> {
    let mut all = Vec::new();
    all.extend_from_slice(&ino.to_le_bytes());
    all.extend_from_slice(&off.to_le_bytes());
    all.extend_from_slice(&(name.len() as u32).to_le_bytes());
    all.extend_from_slice(&type_.to_le_bytes());
    all.extend_from_slice(name);
    all
}

fn listing(entries: &[Vec<u8>]) -> Vec<u8> {
    let mut all = Vec::new();
    for e in entries {
        all.extend_from_slice(e);
        while all.len() % 8 != 0 {
            all.push(0);
        }
    }
    all
}

fn item(name: &str, ino: u64, node_type: NodeType, off: u64) -> DirItem {
    DirItem { name: String::from(name), ino, node_type, off }
}

fn read_all(data: Vec<u8>) -> Vec<DirItem> {
    let mut list = DirListing::new(data);
    let mut found = Vec::new();
    while let Some(i) = list.next_item() {
        found.push(i);
        list.answer(true);
    }
    assert_eq!(list.count(), found.len());
    found
}

#[test]
fn request_for_a_listing() {
    let call = FuseFs::new().root_node().read_dir_call(3);
    assert_eq!(call.opcode.code(), 28);
    assert_eq!(call.nodeid, 1);
    assert_eq!(call.in_data[8..16], 3u64.to_le_bytes());
    assert_eq!(call.in_data[16..20], 4096u32.to_le_bytes());
    assert_eq!(call.in_data.len(), 40);
}

#[test]
fn listing_of_a_root_directory() {
    let data = listing(&[
        entry(1, 1, 0o040000 >> 12, b"."),
        entry(1, 2, 0o040000 >> 12, b".."),
        entry(100, 3, 0o100000 >> 12, b"rw_test.txt"),
        entry(300, 4, 0o040000 >> 12, b"mydir"),
    ]);
    let mut list = FuseFs::new().root_node().read_dir(Ok(data)).unwrap();
    let expected = [
        item(".", 1, NodeType::Directory, 1),
        item("..", 1, NodeType::Directory, 2),
        item("rw_test.txt", 100, NodeType::RegularFile, 3),
        item("mydir", 300, NodeType::Directory, 4),
    ];
    for e in expected {
        assert_eq!(list.next_item(), Some(e));
        list.answer(true);
    }
    assert_eq!(list.next_item(), None);
    assert_eq!(list.count(), 4);
}

#[test]
fn failed_listing() {
    let result = FuseFs::new().root_node().read_dir(Err(VfsError::NotFound));
    assert!(matches!(result, Err(VfsError::NotFound)));
}

#[test]
fn empty_listing() {
    assert_eq!(read_all(Vec::new()), Vec::new());
    assert_eq!(read_all(vec![0; 23]), Vec::new());
}

#[test]
fn refusal_ends_the_listing() {
    let data = listing(&[entry(1, 1, 4, b"a"), entry(2, 2, 8, b"b"), entry(3, 3, 8, b"c")]);
    let mut list = DirListing::new(data);
    assert!(list.next_item().is_some());
    list.answer(true);
    assert!(list.next_item().is_some());
    list.answer(false);
    assert_eq!(list.next_item(), None);
    assert_eq!(list.count(), 1);
}

#[test]
fn name_that_is_no_text_is_skipped() {
    let data = listing(&[
        entry(1, 1, 8, b"\xff\xfe"),
        entry(2, 2, 8, "größe".as_bytes()),
        entry(3, 3, 8, b"\xc3"),
    ]);
    assert_eq!(read_all(data), vec![item("größe", 2, NodeType::RegularFile, 2)]);
}

#[test]
fn incomplete_entry_ends_the_listing() {
    let mut data = listing(&[entry(1, 1, 8, b"abcdefgh"), entry(2, 2, 8, b"long name")]);
    data.truncate(32 + 24 + 8);
    assert_eq!(read_all(data.clone()), vec![item("abcdefgh", 1, NodeType::RegularFile, 1)]);
    data.truncate(32 + 23);
    assert_eq!(read_all(data), vec![item("abcdefgh", 1, NodeType::RegularFile, 1)]);
    // A length far beyond the end.
    let mut data = entry(1, 1, 8, b"x");
    data[16..20].copy_from_slice(&u32::MAX.to_le_bytes());
    assert_eq!(read_all(data), Vec::new());
}

#[test]
fn last_entry_needs_no_padding() {
    let data = entry(7, 1, 4, b"abc");
    assert_eq!(read_all(data), vec![item("abc", 7, NodeType::Directory, 1)]);
}

#[test]
fn empty_names_are_entries() {
    let data = listing(&[entry(7, 1, 8, b""), entry(8, 2, 8, b"b")]);
    let expected =
        vec![item("", 7, NodeType::RegularFile, 1), item("b", 8, NodeType::RegularFile, 2)];
    assert_eq!(read_all(data), expected);
}

#[test]
fn only_low_bits_of_the_type_count() {
    let data = listing(&[
        entry(1, 1, 0x10_0004, b"a"),
        entry(1, 1, 0xfff0_0004, b"b"),
        entry(1, 1, 0x8_0004, b"c"),
        entry(1, 1, 10, b"d"),
        entry(1, 1, 0, b"e"),
    ]);
    let types: Vec<NodeType> = read_all(data).into_iter().map(|i| i.node_type).collect();
    assert_eq!(
        types,
        vec![
            NodeType::Directory,
            NodeType::Directory,
            NodeType::RegularFile,
            NodeType::RegularFile,
            NodeType::RegularFile,
        ]
    );
}
