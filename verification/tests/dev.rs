use starryfuse::abi::FuseInHeader;
use starryfuse::dev::{DevRead, FuseConnection, FuseDev, IoEvents};
use starryfuse::error::VfsError;

fn header(unique: u64) -> FuseInHeader {
    FuseInHeader { len: 43, opcode: 1, unique, nodeid: 1, uid: 0, gid: 0, pid: 1, padding: 0 }
}

fn device() -> FuseDev {
    FuseDev { conn: FuseConnection::new() }
}

fn reply(unique: u64, error: i32, data: &[u8]) -> Vec<u8> {
    let mut all = Vec::new();
    all.extend_from_slice(&(16 + data.len() as u32).to_le_bytes());
    all.extend_from_slice(&error.to_le_bytes());
    all.extend_from_slice(&unique.to_le_bytes());
    all.extend_from_slice(data);
    all
}

#[test]
fn numbers_start_at_one_and_count_up() {
    let mut conn = FuseConnection::new();
    assert_eq!(conn.next_unique(), 1);
    assert_eq!(conn.next_unique(), 2);
    assert_eq!(conn.next_unique(), 3);
    conn.unique_counter = u64::MAX;
    assert_eq!(conn.next_unique(), u64::MAX);
    assert_eq!(conn.next_unique(), 0);
}

#[test]
fn empty_device_makes_readers_wait() {
    let mut dev = device();
    let mut buf = [7u8; 64];
    assert_eq!(dev.read_at(&mut buf, 0), DevRead::Wait);
    assert_eq!(buf, [7u8; 64]);
    assert!(dev.must_wait());
    assert_eq!(FuseDev::after_wait(false), Ok(()));
    assert_eq!(FuseDev::after_wait(true), Err(VfsError::Interrupted));
}

#[test]
fn read_gives_header_and_arguments() {
    let mut dev = device();
    dev.conn.state.submit(header(5), vec![1, 2, 3]);
    assert!(!dev.must_wait());
    let mut buf = [7u8; 50];
    assert_eq!(dev.read_at(&mut buf, 99), DevRead::Ready(Ok(43)));
    assert_eq!(buf[..40].to_vec(), header(5).to_bytes());
    assert_eq!(buf[40..43], [1, 2, 3]);
    assert_eq!(buf[43..], [7u8; 7]);
    assert_eq!(dev.read_at(&mut buf, 0), DevRead::Wait);
}

#[test]
fn buffer_that_just_fits() {
    let mut dev = device();
    dev.conn.state.submit(header(5), vec![1, 2, 3]);
    let mut buf = [0u8; 43];
    assert_eq!(dev.read_at(&mut buf, 0), DevRead::Ready(Ok(43)));
}

#[test]
fn too_small_buffer_loses_the_request() {
    for room in [42usize, 39, 0] {
        let mut dev = device();
        let ticket = dev.conn.state.submit(header(5), vec![1, 2, 3]);
        let mut buf = vec![7u8; room];
        assert_eq!(dev.read_at(&mut buf, 0), DevRead::Ready(Err(VfsError::InvalidInput)));
        assert_eq!(buf, vec![7u8; room]);
        let mut large = [0u8; 64];
        assert_eq!(dev.read_at(&mut large, 0), DevRead::Wait);
        // A reply to it is a reply to nobody.
        assert_eq!(dev.write_at(&reply(5, 0, &[]), 0), Ok(16));
        assert!(!dev.conn.state.is_completed(ticket));
    }
}

#[test]
fn requests_come_out_in_order() {
    let mut dev = device();
    for unique in 1..=4 {
        dev.conn.state.submit(header(unique), Vec::new());
    }
    let mut buf = [0u8; 40];
    for unique in 1..=4 {
        assert_eq!(dev.read_at(&mut buf, 0), DevRead::Ready(Ok(40)));
        assert_eq!(buf.to_vec(), header(unique).to_bytes());
    }
    assert_eq!(dev.read_at(&mut buf, 0), DevRead::Wait);
}

#[test]
fn reply_completes_its_request_only() {
    let mut dev = device();
    let a = dev.conn.state.submit(header(1), Vec::new());
    let b = dev.conn.state.submit(header(2), Vec::new());
    let mut buf = [0u8; 40];
    let _ = dev.read_at(&mut buf, 0);
    let _ = dev.read_at(&mut buf, 0);
    assert_eq!(dev.write_at(&reply(2, 0, b"xy"), 0), Ok(18));
    assert!(!dev.conn.state.is_completed(a));
    assert!(dev.conn.state.is_completed(b));
    let done = dev.conn.state.release(b);
    assert_eq!(done.out_data, b"xy".to_vec());
    assert_eq!(done.out_header.map(|h| (h.len, h.error, h.unique)), Some((18, 0, 2)));
    assert!(done.completed);
}

#[test]
fn reply_before_the_read_is_ignored() {
    let mut dev = device();
    let a = dev.conn.state.submit(header(1), Vec::new());
    assert_eq!(dev.write_at(&reply(1, 0, &[]), 0), Ok(16));
    assert!(!dev.conn.state.is_completed(a));
}

#[test]
fn second_reply_is_ignored() {
    let mut dev = device();
    let a = dev.conn.state.submit(header(1), Vec::new());
    let mut buf = [0u8; 40];
    let _ = dev.read_at(&mut buf, 0);
    assert_eq!(dev.write_at(&reply(1, 0, b"first"), 0), Ok(21));
    assert_eq!(dev.write_at(&reply(1, -2, b"second"), 0), Ok(22));
    let done = dev.conn.state.release(a);
    assert_eq!(done.out_data, b"first".to_vec());
}

#[test]
fn short_reply_is_refused() {
    let mut dev = device();
    assert_eq!(dev.write_at(&[0; 15], 0), Err(VfsError::InvalidInput));
    assert_eq!(dev.write_at(&[], 0), Err(VfsError::InvalidInput));
    assert_eq!(dev.write_at(&[0; 16], 0), Ok(16));
}

#[test]
fn withdrawn_request_is_gone() {
    let mut dev = device();
    let a = dev.conn.state.submit(header(1), Vec::new());
    let b = dev.conn.state.submit(header(2), Vec::new());
    let c = dev.conn.state.submit(header(3), Vec::new());
    let mut buf = [0u8; 40];
    let _ = dev.read_at(&mut buf, 0);
    dev.conn.state.withdraw(b, 2);
    dev.conn.state.withdraw(a, 1);
    assert_eq!(dev.write_at(&reply(1, 0, &[]), 0), Ok(16));
    assert_eq!(dev.read_at(&mut buf, 0), DevRead::Ready(Ok(40)));
    assert_eq!(buf.to_vec(), header(3).to_bytes());
    assert_eq!(dev.read_at(&mut buf, 0), DevRead::Wait);
    assert!(!dev.conn.state.is_completed(c));
    // The freed tickets are given out again.
    assert_eq!(dev.conn.state.submit(header(4), Vec::new()), a);
    assert_eq!(dev.conn.state.submit(header(5), Vec::new()), b);
}

#[test]
fn shut_down_connection_reads_as_ended() {
    let mut dev = device();
    dev.conn.state.submit(header(1), Vec::new());
    dev.conn.state.aborted = true;
    let mut buf = [7u8; 64];
    assert_eq!(dev.read_at(&mut buf, 0), DevRead::Ready(Ok(0)));
    assert_eq!(buf, [7u8; 64]);
    assert!(!dev.must_wait());
}

#[test]
fn poll_tells_what_does_not_block() {
    let mut dev = device();
    let idle = IoEvents { readable: false, writable: true, error: false, hangup: false };
    assert_eq!(dev.poll(), idle);
    dev.conn.state.submit(header(1), Vec::new());
    assert_eq!(dev.poll(), IoEvents { readable: true, ..idle });
    dev.conn.state.aborted = true;
    assert_eq!(dev.poll(), IoEvents { readable: true, writable: true, error: true, hangup: true });
}
