use starryfuse::abi::FuseOpcode;
use starryfuse::dev::{DevRead, FuseConnection, FuseDev, IoEvents};
use starryfuse::error::{errno_error, VfsError, VfsResult};
use starryfuse::node::{MetadataUpdate, NodeType, Timestamp};
use starryfuse::vfs::{
    times_can_be_told, FuseCall, FuseFs, FuseNode, SendStep, SentRequest, MAX_RETRIES,
};

fn cat(parts: &[&[u8]]) -> Vec<u8> {
    let mut all = Vec::new();
    for part in parts {
        all.extend_from_slice(part);
    }
    all
}

fn u32_at(data: &[u8], at: usize) -> u32 {
    u32::from_le_bytes([data[at], data[at + 1], data[at + 2], data[at + 3]])
}

fn u64_at(data: &[u8], at: usize) -> u64 {
    u64::from(u32_at(data, at)) | u64::from(u32_at(data, at + 4)) << 32
}

struct Attr {
    ino: u64,
    size: u64,
    mode: u32,
    nlink: u32,
    time: (u64, u32),
}

fn attr(a: &Attr) -> Vec<u8> {
    cat(&[
        &a.ino.to_le_bytes(),
        &a.size.to_le_bytes(),
        &8u64.to_le_bytes(),
        &a.time.0.to_le_bytes(),
        &(a.time.0 + 1).to_le_bytes(),
        &(a.time.0 + 2).to_le_bytes(),
        &a.time.1.to_le_bytes(),
        &0u32.to_le_bytes(),
        &999_999_999u32.to_le_bytes(),
        &a.mode.to_le_bytes(),
        &a.nlink.to_le_bytes(),
        &1000u32.to_le_bytes(),
        &1001u32.to_le_bytes(),
        &77u32.to_le_bytes(),
        &512u32.to_le_bytes(),
        &0u32.to_le_bytes(),
    ])
}

fn attr_out(a: &Attr) -> Vec<u8> {
    cat(&[&1u64.to_le_bytes(), &[0; 8], &attr(a)])
}

fn entry_out(nodeid: u64, a: &Attr) -> Vec<u8> {
    cat(&[&nodeid.to_le_bytes(), &[0; 32], &attr(a)])
}

fn file(ino: u64, size: u64) -> Attr {
    Attr { ino, size, mode: 0o100644, nlink: 1, time: (0, 0) }
}

fn dir(ino: u64) -> Attr {
    Attr { ino, size: 4096, mode: 0o40755, nlink: 2, time: (0, 0) }
}

fn reply(unique: u64, error: i32, data: &[u8]) -> Vec<u8> {
    cat(&[
        &(16 + data.len() as u32).to_le_bytes(),
        &error.to_le_bytes(),
        &unique.to_le_bytes(),
        data,
    ])
}

/// Makes a call, lets the daemon answer it, and gives the outcome.
fn answer(
    dev: &mut FuseDev,
    call: FuseCall,
    daemon: &mut dyn FnMut(u32, u64, &[u8]) -> (i32, Vec<u8>),
) -> VfsResult<Vec<u8>> {
    let fs = FuseFs::new();
    let sent = fs.send_request(&mut dev.conn, call);
    let sent = match fs.await_reply(&mut dev.conn, sent) {
        SendStep::Yield(sent) => sent,
        SendStep::Done(_) => panic!("answered by nobody"),
    };
    let mut buf = [0u8; 8192];
    let n = match dev.read_at(&mut buf, 0) {
        DevRead::Ready(Ok(n)) => n,
        other => panic!("no request: {:?}", other),
    };
    assert_eq!(u32_at(&buf, 0) as usize, n);
    let (error, data) = daemon(u32_at(&buf, 4), u64_at(&buf, 16), &buf[40..n]);
    let unique = u64_at(&buf, 8);
    let out = reply(unique, error, &data);
    assert_eq!(dev.write_at(&out, 0), Ok(out.len()));
    match fs.await_reply(&mut dev.conn, sent) {
        SendStep::Done(outcome) => outcome,
        SendStep::Yield(_) => panic!("not answered"),
    }
}

#[test]
fn filesystem_defaults() {
    let fs = FuseFs::new();
    assert_eq!((fs.max_write, fs.flags), (4096, 0));
    assert_eq!(fs.name(), "fuse");
    assert_eq!(fs.stat_magic(), 0x65737566);
    assert_eq!(fs.root_node(), FuseNode { nodeid: 1, is_dir: true });
    assert_eq!(fs.root_node().inode(), 1);
}

#[test]
fn request_header_on_the_wire() {
    let mut dev = FuseDev { conn: FuseConnection::new() };
    let fs = FuseFs::new();
    let call = FuseCall { opcode: FuseOpcode::Link, nodeid: 9, in_data: vec![5, 6] };
    let sent = fs.send_request(&mut dev.conn, call);
    assert_eq!((sent.unique, sent.retries), (1, 0));
    let mut buf = [0u8; 64];
    assert_eq!(dev.read_at(&mut buf, 0), DevRead::Ready(Ok(42)));
    let expected = cat(&[
        &42u32.to_le_bytes(),
        &13u32.to_le_bytes(),
        &1u64.to_le_bytes(),
        &9u64.to_le_bytes(),
        &0u32.to_le_bytes(),
        &0u32.to_le_bytes(),
        &1u32.to_le_bytes(),
        &0u32.to_le_bytes(),
        &[5, 6],
    ]);
    assert_eq!(buf[..42].to_vec(), expected);
    let next = fs.send_request(&mut dev.conn, fs.init_call());
    assert_eq!(next.unique, 2);
}

#[test]
fn errors_of_the_daemon() {
    let cases = [
        (-2, VfsError::NotFound),
        (2, VfsError::NotFound),
        (-13, VfsError::PermissionDenied),
        (-17, VfsError::AlreadyExists),
        (-22, VfsError::InvalidInput),
        (22, VfsError::InvalidInput),
        (-38, VfsError::Io),
        (-5, VfsError::Io),
        (i32::MIN, VfsError::Io),
        (i32::MAX, VfsError::Io),
    ];
    for (errno, expected) in cases {
        assert_eq!(errno_error(errno), expected);
        let mut dev = FuseDev { conn: FuseConnection::new() };
        let call = FuseFs::new().root_node().metadata_call();
        let outcome = answer(&mut dev, call, &mut |_, _, _| (errno, vec![1, 2, 3]));
        assert_eq!(outcome, Err(expected));
    }
}

#[test]
fn unanswered_request_is_given_up() {
    let mut dev = FuseDev { conn: FuseConnection::new() };
    let fs = FuseFs::new();
    let mut sent = fs.send_request(&mut dev.conn, fs.init_call());
    for looks in 1..=MAX_RETRIES {
        sent = match fs.await_reply(&mut dev.conn, sent) {
            SendStep::Yield(sent) => sent,
            SendStep::Done(_) => panic!("given up too early"),
        };
        assert_eq!(sent.retries, looks);
    }
    assert_eq!(MAX_RETRIES, 50_000);
    assert_eq!(fs.await_reply(&mut dev.conn, sent), SendStep::Done(Err(VfsError::Io)));
    let mut buf = [0u8; 64];
    assert_eq!(dev.read_at(&mut buf, 0), DevRead::Wait);
}

#[test]
fn reply_at_the_last_look_counts() {
    let mut dev = FuseDev { conn: FuseConnection::new() };
    let fs = FuseFs::new();
    let sent = fs.send_request(&mut dev.conn, fs.init_call());
    let last = SentRequest { retries: MAX_RETRIES, ..sent };
    let mut buf = [0u8; 64];
    let _ = dev.read_at(&mut buf, 0);
    let _ = dev.write_at(&reply(1, 0, b"ok"), 0);
    assert_eq!(fs.await_reply(&mut dev.conn, last), SendStep::Done(Ok(b"ok".to_vec())));
}

#[test]
fn late_reply_goes_nowhere() {
    let mut dev = FuseDev { conn: FuseConnection::new() };
    let fs = FuseFs::new();
    let sent = fs.send_request(&mut dev.conn, fs.init_call());
    let mut buf = [0u8; 64];
    let _ = dev.read_at(&mut buf, 0);
    let last = SentRequest { retries: MAX_RETRIES, ..sent };
    assert_eq!(fs.await_reply(&mut dev.conn, last), SendStep::Done(Err(VfsError::Io)));
    // The next request gets the freed ticket, but not the late reply.
    let next = fs.send_request(&mut dev.conn, fs.init_call());
    assert_eq!(next.ticket, sent.ticket);
    let _ = dev.write_at(&reply(sent.unique, 0, b"late"), 0);
    assert!(matches!(fs.await_reply(&mut dev.conn, next), SendStep::Yield(_)));
}

#[test]
fn handshake() {
    let mut dev = FuseDev { conn: FuseConnection::new() };
    let fs = FuseFs::new();
    let mut seen = (0, 9, Vec::new());
    let outcome = answer(&mut dev, fs.init_call(), &mut |opcode, nodeid, args| {
        seen = (opcode, nodeid, args.to_vec());
        let mut data = cat(&[
            &7u32.to_le_bytes(),
            &33u32.to_le_bytes(),
            &4096u32.to_le_bytes(),
            &0u32.to_le_bytes(),
            &[0; 4],
            &4096u32.to_le_bytes(),
        ]);
        data.resize(64, 0);
        (0, data)
    });
    let args = cat(&[
        &7u32.to_le_bytes(),
        &33u32.to_le_bytes(),
        &4096u32.to_le_bytes(),
        &0u32.to_le_bytes(),
    ]);
    assert_eq!(seen, (26, 0, args));
    let out = fs.init_handshake(outcome).unwrap();
    assert_eq!((out.major, out.minor, out.max_write), (7, 33, 4096));
    assert_eq!(fs.init_handshake(Ok(vec![0; 63])), Err(VfsError::Io));
    assert_eq!(fs.init_handshake(Err(VfsError::NotFound)), Err(VfsError::NotFound));
}

#[test]
fn metadata_of_file_and_directory() {
    let mut dev = FuseDev { conn: FuseConnection::new() };
    let root = FuseFs::new().root_node();
    let outcome = answer(&mut dev, root.metadata_call(), &mut |opcode, nodeid, args| {
        assert_eq!((opcode, nodeid, args.len()), (3, 1, 0));
        (0, attr_out(&dir(1)))
    });
    let m = root.metadata(outcome).unwrap();
    assert_eq!(m.node_type, NodeType::Directory);
    assert_eq!((m.inode, m.size, m.mode, m.nlink), (1, 4096, 0o755, 2));

    let a = Attr { ino: 100, size: 13, mode: 0o104644, nlink: 3, time: (50, 1_500_000_000) };
    let outcome = Ok(attr_out(&a));
    assert!(times_can_be_told(&outcome));
    let m = root.metadata(outcome).unwrap();
    assert_eq!(m.node_type, NodeType::RegularFile);
    assert_eq!((m.inode, m.size, m.mode, m.nlink), (100, 13, 0o644, 3));
    assert_eq!((m.uid, m.gid, m.blocks, m.block_size), (1000, 1001, 8, 512));
    assert_eq!((m.device, m.rdev), (0, 0));
    assert_eq!(m.atime, Timestamp { secs: 51, nanos: 500_000_000 });
    assert_eq!(m.mtime, Timestamp { secs: 51, nanos: 0 });
    assert_eq!(m.ctime, Timestamp { secs: 52, nanos: 999_999_999 });
}

#[test]
fn node_types_by_mode() {
    let root = FuseFs::new().root_node();
    let cases = [
        (0o040000, NodeType::Directory),
        (0o100000, NodeType::RegularFile),
        (0o120777, NodeType::Symlink),
        (0o020666, NodeType::RegularFile),
        (0o140000, NodeType::RegularFile),
        (0, NodeType::RegularFile),
    ];
    for (mode, expected) in cases {
        let a = Attr { ino: 1, size: 0, mode, nlink: 1, time: (0, 0) };
        let m = root.metadata(Ok(attr_out(&a))).unwrap();
        assert_eq!(m.node_type, expected);
        assert_eq!(u32::from(m.mode), mode & 0o777);
    }
}

#[test]
fn short_or_failed_metadata() {
    let root = FuseFs::new().root_node();
    assert_eq!(root.metadata(Ok(vec![0; 103])), Err(VfsError::InvalidInput));
    assert_eq!(root.metadata(Ok(Vec::new())), Err(VfsError::InvalidInput));
    assert_eq!(root.metadata(Err(VfsError::Io)), Err(VfsError::Io));
    assert!(root.metadata(Ok(vec![0; 104])).is_ok());
    assert!(times_can_be_told(&Ok(vec![0; 103])));
    assert!(times_can_be_told(&Err(VfsError::Io)));
}

#[test]
fn time_beyond_the_clock() {
    let a = Attr { ino: 1, size: 0, mode: 0, nlink: 1, time: (u64::MAX - 2, 3_000_000_000) };
    assert!(!times_can_be_told(&Ok(attr_out(&a))));
    let a = Attr { time: (u64::MAX - 2, 2_999_999_999), ..a };
    assert!(times_can_be_told(&Ok(attr_out(&a))));
    assert_eq!(Timestamp::new(1, 4_000_000_001), Timestamp { secs: 5, nanos: 1 });
}

#[test]
fn metadata_updates() {
    let node = FuseNode { nodeid: 3, is_dir: false };
    let none = MetadataUpdate { mode: None, owner: None, atime: None, mtime: None };
    let time = Some(Timestamp { secs: 1, nanos: 2 });
    assert_eq!(node.update_metadata(none), Ok(()));
    assert_eq!(node.update_metadata(MetadataUpdate { atime: time, ..none }), Ok(()));
    assert_eq!(node.update_metadata(MetadataUpdate { mtime: time, ..none }), Ok(()));
    assert_eq!(
        node.update_metadata(MetadataUpdate { mode: Some(0o600), mtime: time, ..none }),
        Err(VfsError::OperationNotSupported)
    );
    assert_eq!(
        node.update_metadata(MetadataUpdate { owner: Some((0, 0)), ..none }),
        Err(VfsError::OperationNotSupported)
    );
}

#[test]
fn operations_without_the_daemon() {
    let node = FuseNode { nodeid: 3, is_dir: false };
    assert_eq!(node.sync(true), Ok(()));
    assert_eq!(node.append(b"x"), Err(VfsError::OperationNotSupported));
    assert_eq!(node.ioctl(1, 2), Err(VfsError::OperationNotSupported));
    assert!(!node.is_cacheable());
    let both = IoEvents { readable: true, writable: true, error: false, hangup: false };
    assert_eq!(node.poll(), both);
}

#[test]
fn reading_a_file() {
    let node = FuseNode { nodeid: 100, is_dir: false };
    let call = node.read_at_call(64, 5);
    assert_eq!((call.opcode, call.nodeid), (FuseOpcode::Read, 100));
    assert_eq!(u64_at(&call.in_data, 8), 5);
    assert_eq!(u32_at(&call.in_data, 16), 64);
    assert_eq!(call.in_data.len(), 40);
    let mut buf = [9u8; 8];
    assert_eq!(node.read_at(&mut buf, Ok(b"hello".to_vec())), Ok(5));
    assert_eq!(&buf, b"hello\x09\x09\x09");
    assert_eq!(node.read_at(&mut buf, Ok(b"0123456789".to_vec())), Ok(8));
    assert_eq!(&buf, b"01234567");
    assert_eq!(node.read_at(&mut buf, Err(VfsError::NotFound)), Err(VfsError::NotFound));
    assert_eq!(&buf, b"01234567");
    assert_eq!(node.read_at(&mut buf, Ok(Vec::new())), Ok(0));
    assert_eq!(&buf, b"01234567");
}

#[test]
fn lengths_are_cut_to_the_wire() {
    let node = FuseNode { nodeid: 1, is_dir: false };
    let call = node.read_at_call(0x1_0000_0005, 0);
    assert_eq!(u32_at(&call.in_data, 16), 5);
}

#[test]
fn writing_a_file() {
    let node = FuseNode { nodeid: 100, is_dir: false };
    let call = node.write_at_call(b"data", 7);
    assert_eq!((call.opcode, call.nodeid), (FuseOpcode::Write, 100));
    assert_eq!(u64_at(&call.in_data, 8), 7);
    assert_eq!(u32_at(&call.in_data, 16), 4);
    assert_eq!(call.in_data[40..], *b"data");
    assert_eq!(node.write_at(Ok(vec![4, 0, 0, 0, 0, 0, 0, 0])), Ok(4));
    assert_eq!(node.write_at(Ok(vec![4, 0, 0, 0, 0, 0, 0])), Err(VfsError::Io));
    assert_eq!(node.write_at(Err(VfsError::PermissionDenied)), Err(VfsError::PermissionDenied));
}

#[test]
fn names_on_the_wire() {
    let node = FuseNode { nodeid: 1, is_dir: true };
    let lookup = node.lookup_call("test.txt");
    assert_eq!((lookup.opcode, lookup.nodeid), (FuseOpcode::Lookup, 1));
    assert_eq!(lookup.in_data, b"test.txt\0".to_vec());
    let unlink = node.unlink_call("é");
    assert_eq!(unlink.opcode, FuseOpcode::Unlink);
    assert_eq!(unlink.in_data, vec![0xc3, 0xa9, 0]);
    let symlink = node.set_symlink_call("/a/b");
    assert_eq!(symlink.opcode, FuseOpcode::Symlink);
    assert_eq!(symlink.in_data, b"/a/b\0".to_vec());
    let link = node.link_call("n", 258);
    assert_eq!(link.opcode, FuseOpcode::Link);
    assert_eq!(link.in_data, b"\x02\x01\0\0\0\0\0\0n\0".to_vec());
    let rename = node.rename_call("old", 7, "new");
    assert_eq!(rename.opcode, FuseOpcode::Rename);
    assert_eq!(rename.in_data, b"\x07\0\0\0\0\0\0\0old\0new\0".to_vec());
    assert_eq!(node.lookup_call("").in_data, vec![0]);
}

#[test]
fn replies_without_contents() {
    let node = FuseNode { nodeid: 1, is_dir: true };
    assert_eq!(node.unlink(Ok(Vec::new())), Ok(()));
    assert_eq!(node.rename(Ok(vec![1])), Ok(()));
    assert_eq!(node.set_symlink(Ok(Vec::new())), Ok(()));
    assert_eq!(node.unlink(Err(VfsError::NotFound)), Err(VfsError::NotFound));
    assert_eq!(node.rename(Err(VfsError::Io)), Err(VfsError::Io));
    assert_eq!(node.set_symlink(Err(VfsError::Io)), Err(VfsError::Io));
}

#[test]
fn looking_names_up() {
    let root = FuseFs::new().root_node();
    let entry = root.lookup("test.txt", Ok(entry_out(100, &file(100, 13)))).unwrap();
    assert_eq!(entry.node, FuseNode { nodeid: 100, is_dir: false });
    assert_eq!(entry.node_type, NodeType::RegularFile);
    assert_eq!(entry.name, "test.txt");
    let entry = root.lookup("mydir", Ok(entry_out(300, &dir(300)))).unwrap();
    assert_eq!(entry.node, FuseNode { nodeid: 300, is_dir: true });
    assert_eq!(entry.node_type, NodeType::Directory);
    // A symbolic link is handled like a file here.
    let link = Attr { mode: 0o120777, ..file(5, 0) };
    let entry = root.lookup("l", Ok(entry_out(5, &link))).unwrap();
    assert_eq!((entry.node.is_dir, entry.node_type), (false, NodeType::RegularFile));
    assert_eq!(root.lookup("x", Ok(vec![0; 127])), Err(VfsError::NotFound));
    assert_eq!(root.lookup("x", Err(VfsError::Io)), Err(VfsError::Io));
}

#[test]
fn linking() {
    let root = FuseFs::new().root_node();
    let entry = root.link("two", Ok(entry_out(100, &file(100, 1)))).unwrap();
    assert_eq!((entry.node.nodeid, entry.name.as_str()), (100, "two"));
    let entry = root.link("d", Ok(entry_out(300, &dir(300)))).unwrap();
    assert_eq!((entry.node.is_dir, entry.node_type), (true, NodeType::Directory));
    assert_eq!(root.link("x", Ok(vec![0; 127])), Err(VfsError::Io));
    assert_eq!(root.link("x", Err(VfsError::AlreadyExists)), Err(VfsError::AlreadyExists));
}

#[test]
fn creating_files() {
    let root = FuseFs::new().root_node();
    let ty = NodeType::RegularFile;
    let call = root.create_call("newfile.txt", ty, 0o644).unwrap();
    assert_eq!((call.opcode, call.nodeid), (FuseOpcode::Create, 1));
    let args = cat(&[
        &(0o100u32 | 0o2 | 0o1000).to_le_bytes(),
        &0o100644u32.to_le_bytes(),
        &[0; 8],
        b"newfile.txt\0",
    ]);
    assert_eq!(call.in_data, args);
    let mut data = entry_out(200, &dir(200));
    data.resize(144, 0);
    let entry = root.create("newfile.txt", ty, Ok(data.clone())).unwrap();
    assert_eq!(entry.node, FuseNode { nodeid: 200, is_dir: false });
    assert_eq!(entry.node_type, NodeType::RegularFile);
    assert_eq!(entry.name, "newfile.txt");
    data.pop();
    assert_eq!(root.create("newfile.txt", ty, Ok(data)), Err(VfsError::Io));
    assert_eq!(root.create("x", ty, Err(VfsError::AlreadyExists)), Err(VfsError::AlreadyExists));
}

#[test]
fn creating_directories() {
    let mut dev = FuseDev { conn: FuseConnection::new() };
    let root = FuseFs::new().root_node();
    let ty = NodeType::Directory;
    let call = root.create_call("mydir", ty, 0o755).unwrap();
    let outcome = answer(&mut dev, call, &mut |opcode, nodeid, args| {
        assert_eq!((opcode, nodeid), (9, 1));
        assert_eq!(args, cat(&[&0o755u32.to_le_bytes(), &[0; 4], b"mydir\0"]));
        (0, entry_out(300, &dir(300)))
    });
    let entry = root.create("mydir", ty, outcome).unwrap();
    assert_eq!(entry.node, FuseNode { nodeid: 300, is_dir: true });
    assert_eq!(entry.node_type, NodeType::Directory);
    assert_eq!(entry.name, "mydir");
    assert_eq!(root.create("mydir", ty, Ok(vec![0; 127])), Err(VfsError::Io));
    assert_eq!(root.create("x", ty, Err(VfsError::AlreadyExists)), Err(VfsError::AlreadyExists));
}

#[test]
fn nothing_else_can_be_created() {
    let root = FuseFs::new().root_node();
    for ty in [
        NodeType::Symlink,
        NodeType::Fifo,
        NodeType::Socket,
        NodeType::BlockDevice,
        NodeType::CharacterDevice,
        NodeType::Unknown,
    ] {
        assert_eq!(root.create_call("d", ty, 0o755), Err(VfsError::OperationNotSupported));
        assert_eq!(root.create("d", ty, Ok(vec![0; 144])), Err(VfsError::OperationNotSupported));
    }
}

#[test]
fn changing_the_length() {
    let node = FuseNode { nodeid: 100, is_dir: false };
    let call = node.set_len_call(0x1_0000_0002);
    assert_eq!((call.opcode.code(), call.nodeid), (4, 100));
    assert_eq!(call.in_data.len(), 88);
    assert_eq!(u32_at(&call.in_data, 0), 8);
    assert_eq!(u64_at(&call.in_data, 16), 0x1_0000_0002);
    assert!(call.in_data[24..].iter().all(|b| *b == 0));
    assert_eq!(node.set_len(Ok(vec![0; 104])), Ok(()));
    assert_eq!(node.set_len(Ok(Vec::new())), Ok(()));
    assert_eq!(node.set_len(Err(VfsError::NotFound)), Err(VfsError::NotFound));
}

#[test]
fn write_and_read_back_through_a_daemon() {
    let mut dev = FuseDev { conn: FuseConnection::new() };
    let mut content = b"hello from rw test!".to_vec();
    let node = FuseNode { nodeid: 100, is_dir: false };
    let mut daemon = |opcode: u32, nodeid: u64, args: &[u8]| -> (i32, Vec<u8>) {
        if nodeid != 100 {
            return (-2, Vec::new());
        }
        let offset = u64_at(args, 8) as usize;
        let size = u32_at(args, 16) as usize;
        match opcode {
            4 => {
                content.resize(u64_at(args, 16) as usize, 0);
                (0, attr_out(&file(100, content.len() as u64)))
            }
            15 => {
                let start = offset.min(content.len());
                let end = (start + size).min(content.len());
                (0, content[start..end].to_vec())
            }
            16 => {
                let data = &args[40..];
                assert_eq!(data.len(), size);
                if offset + size > content.len() {
                    content.resize(offset + size, 0);
                }
                content[offset..offset + size].copy_from_slice(data);
                (0, cat(&[&(size as u32).to_le_bytes(), &[0; 4]]))
            }
            _ => (-38, Vec::new()),
        }
    };
    let mut buf = [0u8; 64];
    let outcome = answer(&mut dev, node.read_at_call(buf.len(), 0), &mut daemon);
    assert_eq!(node.read_at(&mut buf, outcome), Ok(19));
    assert_eq!(&buf[..19], b"hello from rw test!");
    let outcome = answer(&mut dev, node.write_at_call(b"new file content", 11), &mut daemon);
    assert_eq!(node.write_at(outcome), Ok(16));
    let outcome = answer(&mut dev, node.read_at_call(buf.len(), 6), &mut daemon);
    assert_eq!(node.read_at(&mut buf, outcome), Ok(21));
    assert_eq!(&buf[..21], b"from new file content");
    // Truncated first, the file holds what is written and nothing else.
    let outcome = answer(&mut dev, node.set_len_call(0), &mut daemon);
    assert_eq!(node.set_len(outcome), Ok(()));
    let outcome = answer(&mut dev, node.write_at_call(b"new file content", 0), &mut daemon);
    assert_eq!(node.write_at(outcome), Ok(16));
    let outcome = answer(&mut dev, node.read_at_call(buf.len(), 0), &mut daemon);
    assert_eq!(node.read_at(&mut buf, outcome), Ok(16));
    assert_eq!(&buf[..16], b"new file content");
    let other = FuseNode { nodeid: 101, is_dir: false };
    let outcome = answer(&mut dev, other.read_at_call(buf.len(), 0), &mut daemon);
    assert_eq!(other.read_at(&mut buf, outcome), Err(VfsError::NotFound));
}
