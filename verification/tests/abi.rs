use starryfuse::abi::{
    i32_from_bits, FuseAttrOut, FuseCreateIn, FuseDirent, FuseEntryOut, FuseInHeader, FuseInitIn,
    FuseInitOut, FuseLinkIn, FuseMkdirIn, FuseOpcode, FuseOutHeader, FuseReadIn, FuseRenameIn,
    FuseSetattrIn, FuseWriteIn, FuseWriteOut, FUSE_ATTR_OUT_SIZE, FUSE_ENTRY_OUT_SIZE,
    FUSE_INIT_OUT_SIZE, FUSE_IN_HEADER_SIZE, FUSE_KERNEL_MINOR_VERSION, FUSE_KERNEL_VERSION,
    FUSE_OUT_HEADER_SIZE,
};
use starryfuse::bytes::{get_le, put_le};

fn cat(parts: &[&[u8]]) -> Vec<u8> {
    let mut all = Vec::new();
    for part in parts {
        all.extend_from_slice(part);
    }
    all
}

#[test]
fn opcodes_have_their_wire_numbers() {
    assert_eq!(FuseOpcode::Lookup.code(), 1);
    assert_eq!(FuseOpcode::Getattr.code(), 3);
    assert_eq!(FuseOpcode::Setattr.code(), 4);
    assert_eq!(FuseOpcode::Symlink.code(), 6);
    assert_eq!(FuseOpcode::Mkdir.code(), 9);
    assert_eq!(FuseOpcode::Unlink.code(), 10);
    assert_eq!(FuseOpcode::Rename.code(), 12);
    assert_eq!(FuseOpcode::Link.code(), 13);
    assert_eq!(FuseOpcode::Read.code(), 15);
    assert_eq!(FuseOpcode::Write.code(), 16);
    assert_eq!(FuseOpcode::Init.code(), 26);
    assert_eq!(FuseOpcode::Readdir.code(), 28);
    assert_eq!(FuseOpcode::Create.code(), 35);
}

#[test]
fn protocol_version() {
    assert_eq!(FUSE_KERNEL_VERSION, 7);
    assert_eq!(FUSE_KERNEL_MINOR_VERSION, 33);
}

#[test]
fn little_endian_integers() {
    let mut buf = vec![0xaa];
    put_le(&mut buf, 0x0102_0304, 4);
    assert_eq!(buf, vec![0xaa, 4, 3, 2, 1]);
    assert_eq!(get_le(&buf, 0, 1, 4), 0x0102_0304);
    assert_eq!(get_le(&buf, 1, 1, 2), 0x0203);
    assert_eq!(get_le(&[0xff; 8], 0, 0, 8), u64::MAX);
    assert_eq!(get_le(&[], 0, 0, 0), 0);
}

#[test]
fn signed_bits() {
    assert_eq!(i32_from_bits(0), 0);
    assert_eq!(i32_from_bits(5), 5);
    assert_eq!(i32_from_bits(0xffff_fffe), -2);
    assert_eq!(i32_from_bits(0x8000_0000), i32::MIN);
    assert_eq!(i32_from_bits(0x7fff_ffff), i32::MAX);
}

#[test]
fn in_header_on_the_wire() {
    let h = FuseInHeader {
        len: 47,
        opcode: 1,
        unique: 0x1122_3344_5566_7788,
        nodeid: 9,
        uid: 2,
        gid: 3,
        pid: 4,
        padding: 0,
    };
    let expected = cat(&[
        &47u32.to_le_bytes(),
        &1u32.to_le_bytes(),
        &0x1122_3344_5566_7788u64.to_le_bytes(),
        &9u64.to_le_bytes(),
        &2u32.to_le_bytes(),
        &3u32.to_le_bytes(),
        &4u32.to_le_bytes(),
        &0u32.to_le_bytes(),
    ]);
    assert_eq!(h.to_bytes(), expected);
    assert_eq!(expected.len(), FUSE_IN_HEADER_SIZE);
}

#[test]
fn out_header_from_the_wire() {
    let data = cat(&[&[9, 9], &16u32.to_le_bytes(), &(-2i32).to_le_bytes(), &7u64.to_le_bytes()]);
    assert_eq!(FuseOutHeader::from_bytes(&data, 2), FuseOutHeader { len: 16, error: -2, unique: 7 });
    assert_eq!(data.len(), FUSE_OUT_HEADER_SIZE + 2);
}

#[test]
fn arguments_on_the_wire() {
    assert_eq!(
        FuseInitIn { major: 7, minor: 33, max_readahead: 4096, flags: 0 }.to_bytes(),
        cat(&[&7u32.to_le_bytes(), &33u32.to_le_bytes(), &4096u32.to_le_bytes(), &[0; 4]])
    );
    let read = FuseReadIn {
        fh: 1,
        offset: 2,
        size: 3,
        read_flags: 4,
        lock_owner: 5,
        flags: 6,
        padding: 7,
    };
    assert_eq!(
        read.to_bytes(),
        cat(&[
            &1u64.to_le_bytes(),
            &2u64.to_le_bytes(),
            &3u32.to_le_bytes(),
            &4u32.to_le_bytes(),
            &5u64.to_le_bytes(),
            &6u32.to_le_bytes(),
            &7u32.to_le_bytes(),
        ])
    );
    let write = FuseWriteIn {
        fh: 1,
        offset: 2,
        size: 3,
        write_flags: 4,
        lock_owner: 5,
        flags: 6,
        padding: 7,
    };
    assert_eq!(write.to_bytes(), read.to_bytes());
    assert_eq!(
        FuseCreateIn { flags: 1, mode: 2, umask: 3, padding: 4 }.to_bytes(),
        cat(&[&1u32.to_le_bytes(), &2u32.to_le_bytes(), &3u32.to_le_bytes(), &4u32.to_le_bytes()])
    );
    assert_eq!(
        FuseMkdirIn { mode: 1, umask: 2 }.to_bytes(),
        cat(&[&1u32.to_le_bytes(), &2u32.to_le_bytes()])
    );
    let setattr = FuseSetattrIn {
        valid: 1,
        padding: 2,
        fh: 3,
        size: 4,
        lock_owner: 5,
        atime: 6,
        mtime: 7,
        ctime: 8,
        atimensec: 9,
        mtimensec: 10,
        ctimensec: 11,
        mode: 12,
        unused4: 13,
        uid: 14,
        gid: 15,
        unused5: 16,
    };
    let mut expected = cat(&[&1u32.to_le_bytes(), &2u32.to_le_bytes()]);
    for n in 3..=8u64 {
        expected.extend_from_slice(&n.to_le_bytes());
    }
    for n in 9..=16u32 {
        expected.extend_from_slice(&n.to_le_bytes());
    }
    assert_eq!(setattr.to_bytes(), expected);
    assert_eq!(FuseLinkIn { oldnodeid: 258 }.to_bytes(), vec![2, 1, 0, 0, 0, 0, 0, 0]);
    assert_eq!(FuseRenameIn { newdir: 259 }.to_bytes(), vec![3, 1, 0, 0, 0, 0, 0, 0]);
}

fn attr_bytes() -> Vec<u8> {
    cat(&[
        &1u64.to_le_bytes(),
        &2u64.to_le_bytes(),
        &3u64.to_le_bytes(),
        &4u64.to_le_bytes(),
        &5u64.to_le_bytes(),
        &6u64.to_le_bytes(),
        &7u32.to_le_bytes(),
        &8u32.to_le_bytes(),
        &9u32.to_le_bytes(),
        &0o100644u32.to_le_bytes(),
        &11u32.to_le_bytes(),
        &12u32.to_le_bytes(),
        &13u32.to_le_bytes(),
        &14u32.to_le_bytes(),
        &15u32.to_le_bytes(),
        &16u32.to_le_bytes(),
    ])
}

#[test]
fn attributes_from_the_wire() {
    let data = cat(&[&100u64.to_le_bytes(), &101u32.to_le_bytes(), &[0; 4], &attr_bytes()]);
    assert_eq!(data.len(), FUSE_ATTR_OUT_SIZE);
    let out = FuseAttrOut::from_bytes(&data, 0);
    assert_eq!(out.attr_valid, 100);
    assert_eq!(out.attr_valid_nsec, 101);
    let a = out.attr;
    assert_eq!((a.ino, a.size, a.blocks), (1, 2, 3));
    assert_eq!((a.atime, a.mtime, a.ctime), (4, 5, 6));
    assert_eq!((a.atimensec, a.mtimensec, a.ctimensec), (7, 8, 9));
    assert_eq!((a.mode, a.nlink, a.uid, a.gid), (0o100644, 11, 12, 13));
    assert_eq!((a.rdev, a.blksize, a.padding), (14, 15, 16));
}

#[test]
fn entry_from_the_wire() {
    let data = cat(&[
        &42u64.to_le_bytes(),
        &1u64.to_le_bytes(),
        &2u64.to_le_bytes(),
        &3u64.to_le_bytes(),
        &4u32.to_le_bytes(),
        &5u32.to_le_bytes(),
        &attr_bytes(),
    ]);
    assert_eq!(data.len(), FUSE_ENTRY_OUT_SIZE);
    let e = FuseEntryOut::from_bytes(&data, 0);
    assert_eq!((e.nodeid, e.generation, e.entry_valid, e.attr_valid), (42, 1, 2, 3));
    assert_eq!((e.entry_valid_nsec, e.attr_valid_nsec), (4, 5));
    assert_eq!(e.attr.mode, 0o100644);
}

#[test]
fn small_replies_from_the_wire() {
    assert_eq!(FuseWriteOut::from_bytes(&[5, 1, 0, 0, 0, 0, 0, 0], 0).size, 261);
    let mut init = cat(&[
        &7u32.to_le_bytes(),
        &31u32.to_le_bytes(),
        &1u32.to_le_bytes(),
        &2u32.to_le_bytes(),
        &3u16.to_le_bytes(),
        &4u16.to_le_bytes(),
        &8192u32.to_le_bytes(),
        &5u32.to_le_bytes(),
    ]);
    init.resize(FUSE_INIT_OUT_SIZE, 0);
    let out = FuseInitOut::from_bytes(&init, 0);
    assert_eq!((out.major, out.minor, out.max_write), (7, 31, 8192));
    assert_eq!((out.max_background, out.congestion_threshold, out.time_gran), (3, 4, 5));
    let dirent = cat(&[
        &6u64.to_le_bytes(),
        &7u64.to_le_bytes(),
        &8u32.to_le_bytes(),
        &9u32.to_le_bytes(),
    ]);
    let d = FuseDirent::from_bytes(&dirent, 0);
    assert_eq!((d.ino, d.off, d.namelen, d.type_), (6, 7, 8, 9));
}
