//! The FUSE wire format: opcodes, and the fixed records of requests and replies.
//!
//! All records are little-endian and laid out without gaps. For each of them
//! `bytes` says how a value stands on the wire and `decode` what bytes mean;
//! the kernel writes the records of requests and reads those of replies.
use vstd::prelude::*;

use crate::bytes::{get_le, put_le};
use crate::bytes::{law_le_value_of_bytes, le_bytes, le_value};
use crate::bytes::{lemma_le_bytes_len, lemma_le_limits, lemma_le_value_bound};

verus! {

/// Major version of the protocol.
pub const FUSE_KERNEL_VERSION: u32 = 7;

/// Minor version of the protocol.
pub const FUSE_KERNEL_MINOR_VERSION: u32 = 33;

/// The node number of the root directory.
pub const FUSE_ROOT_ID: u64 = 1;

/// Size of the record that follows the entry in the answer to a create.
pub const FUSE_OPEN_OUT_SIZE: usize = 16;

/// The bit of [`FuseSetattrIn::valid`] that says to change the size.
pub const FATTR_SIZE: u32 = 8;

/// What a request asks of the daemon.
#[derive(Debug, Clone, Copy, PartialEq, Eq, Structural)]
pub enum FuseOpcode {
    /// Find a name in a directory.
    Lookup,
    /// Read the attributes of a node.
    Getattr,
    /// Change the attributes of a node.
    Setattr,
    /// Make a symbolic link.
    Symlink,
    /// Make a directory.
    Mkdir,
    /// Remove a name.
    Unlink,
    /// Move a name.
    Rename,
    /// Give a node another name.
    Link,
    /// Read from a file.
    Read,
    /// Write to a file.
    Write,
    /// Agree on a protocol version.
    Init,
    /// List a directory.
    Readdir,
    /// Make a file.
    Create,
}

impl FuseOpcode {
    /// The number of the opcode on the wire.
    pub open spec fn number(self) -> u32 {
        match self {
            FuseOpcode::Lookup => 1,
            FuseOpcode::Getattr => 3,
            FuseOpcode::Setattr => 4,
            FuseOpcode::Symlink => 6,
            FuseOpcode::Mkdir => 9,
            FuseOpcode::Unlink => 10,
            FuseOpcode::Rename => 12,
            FuseOpcode::Link => 13,
            FuseOpcode::Read => 15,
            FuseOpcode::Write => 16,
            FuseOpcode::Init => 26,
            FuseOpcode::Readdir => 28,
            FuseOpcode::Create => 35,
        }
    }

    /// Gives the number of the opcode on the wire.
    pub fn code(self) -> (n: u32)
        ensures
            n == self.number(),
    {
        match self {
            FuseOpcode::Lookup => 1,
            FuseOpcode::Getattr => 3,
            FuseOpcode::Setattr => 4,
            FuseOpcode::Symlink => 6,
            FuseOpcode::Mkdir => 9,
            FuseOpcode::Unlink => 10,
            FuseOpcode::Rename => 12,
            FuseOpcode::Link => 13,
            FuseOpcode::Read => 15,
            FuseOpcode::Write => 16,
            FuseOpcode::Init => 26,
            FuseOpcode::Readdir => 28,
            FuseOpcode::Create => 35,
        }
    }
}

/// No two opcodes share a number.
pub proof fn law_opcode_numbers_distinct(a: FuseOpcode, b: FuseOpcode)
    ensures
        a.number() == b.number() ==> a == b,
{
}

/// The two's complement bits of a signed number.
pub open spec fn i32_bits(x: i32) -> nat {
    if x >= 0 {
        x as nat
    } else {
        (x + 0x1_0000_0000) as nat
    }
}

/// The signed number that 32 two's complement bits stand for.
pub open spec fn bits_i32(bits: nat) -> i32 {
    if bits < 0x8000_0000 {
        bits as i32
    } else {
        (bits - 0x1_0000_0000) as i32
    }
}

/// Reads 32 bits as a signed number.
pub fn i32_from_bits(bits: u32) -> (x: i32)
    ensures
        x == bits_i32(bits as nat),
{
    if bits < 0x8000_0000 {
        bits as i32
    } else {
        -((0xffff_ffff - bits) as i32) - 1
    }
}

/// Size of a [`FuseInHeader`] on the wire.
pub const FUSE_IN_HEADER_SIZE: usize = 40;

/// The header in front of every request.
#[derive(Debug, Clone, Copy, PartialEq, Eq, Structural)]
pub struct FuseInHeader {
    /// Length of the whole request, header and arguments.
    pub len: u32,
    /// What is asked, as a [`FuseOpcode`] number.
    pub opcode: u32,
    /// The number that the reply to this request carries.
    pub unique: u64,
    /// The node that the request is about.
    pub nodeid: u64,
    /// User of the calling process.
    pub uid: u32,
    /// Group of the calling process.
    pub gid: u32,
    /// The calling process.
    pub pid: u32,
    /// Unused.
    pub padding: u32,
}

impl FuseInHeader {
    /// The record as it stands on the wire.
    pub open spec fn bytes(self) -> Seq<u8> {
        le_bytes(self.len as nat, 4)
            + le_bytes(self.opcode as nat, 4)
            + le_bytes(self.unique as nat, 8)
            + le_bytes(self.nodeid as nat, 8)
            + le_bytes(self.uid as nat, 4)
            + le_bytes(self.gid as nat, 4)
            + le_bytes(self.pid as nat, 4)
            + le_bytes(self.padding as nat, 4)
    }

    /// The record that the bytes at the front of `s` spell.
    pub open spec fn decode(s: Seq<u8>) -> FuseInHeader {
        FuseInHeader {
            len: le_value(s.subrange(0, 4)) as u32,
            opcode: le_value(s.subrange(4, 8)) as u32,
            unique: le_value(s.subrange(8, 16)) as u64,
            nodeid: le_value(s.subrange(16, 24)) as u64,
            uid: le_value(s.subrange(24, 28)) as u32,
            gid: le_value(s.subrange(28, 32)) as u32,
            pid: le_value(s.subrange(32, 36)) as u32,
            padding: le_value(s.subrange(36, 40)) as u32,
        }
    }

    /// Writes the record out.
    pub fn to_bytes(&self) -> (buf: Vec<u8>)
        ensures
            buf@ == self.bytes(),
            buf@.len() == FUSE_IN_HEADER_SIZE,
    {
        let mut buf: Vec<u8> = Vec::new();
        put_le(&mut buf, self.len as u64, 4);
        assert(buf@ =~= le_bytes(self.len as nat, 4));
        put_le(&mut buf, self.opcode as u64, 4);
        put_le(&mut buf, self.unique, 8);
        put_le(&mut buf, self.nodeid, 8);
        put_le(&mut buf, self.uid as u64, 4);
        put_le(&mut buf, self.gid as u64, 4);
        put_le(&mut buf, self.pid as u64, 4);
        put_le(&mut buf, self.padding as u64, 4);
        proof {
            law_in_header_round_trip(*self);
        }
        buf
    }
}

/// Reading a written [`FuseInHeader`] gives back the same record, whatever follows it.
pub proof fn law_in_header_round_trip(x: FuseInHeader)
    ensures
        x.bytes().len() == FUSE_IN_HEADER_SIZE,
        forall|rest: Seq<u8>| #[trigger] FuseInHeader::decode(x.bytes() + rest) == x,
{
    broadcast use {lemma_le_bytes_len, law_le_value_of_bytes};

    lemma_le_limits();
    assert forall|rest: Seq<u8>| #[trigger] FuseInHeader::decode(x.bytes() + rest) == x by {
        let s = x.bytes() + rest;
        assert(s.subrange(0, 4) =~= le_bytes(x.len as nat, 4));
        assert(s.subrange(4, 8) =~= le_bytes(x.opcode as nat, 4));
        assert(s.subrange(8, 16) =~= le_bytes(x.unique as nat, 8));
        assert(s.subrange(16, 24) =~= le_bytes(x.nodeid as nat, 8));
        assert(s.subrange(24, 28) =~= le_bytes(x.uid as nat, 4));
        assert(s.subrange(28, 32) =~= le_bytes(x.gid as nat, 4));
        assert(s.subrange(32, 36) =~= le_bytes(x.pid as nat, 4));
        assert(s.subrange(36, 40) =~= le_bytes(x.padding as nat, 4));
    }
}

/// Size of a [`FuseOutHeader`] on the wire.
pub const FUSE_OUT_HEADER_SIZE: usize = 16;

/// The header in front of every reply.
#[derive(Debug, Clone, Copy, PartialEq, Eq, Structural)]
pub struct FuseOutHeader {
    /// Length of the whole reply.
    pub len: u32,
    /// Zero, or a negated Linux error number.
    pub error: i32,
    /// The number of the request that is answered.
    pub unique: u64,
}

impl FuseOutHeader {
    /// The record as it stands on the wire.
    pub open spec fn bytes(self) -> Seq<u8> {
        le_bytes(self.len as nat, 4)
            + le_bytes(i32_bits(self.error), 4)
            + le_bytes(self.unique as nat, 8)
    }

    /// The record that the bytes at the front of `s` spell.
    pub open spec fn decode(s: Seq<u8>) -> FuseOutHeader {
        FuseOutHeader {
            len: le_value(s.subrange(0, 4)) as u32,
            error: bits_i32(le_value(s.subrange(4, 8))),
            unique: le_value(s.subrange(8, 16)) as u64,
        }
    }

    /// Reads the record at `at`.
    pub fn from_bytes(data: &[u8], at: usize) -> (r: FuseOutHeader)
        requires
            at + FUSE_OUT_HEADER_SIZE <= data@.len(),
        ensures
            r == FuseOutHeader::decode(data@.skip(at as int)),
    {
        proof {
            lemma_le_limits();
        }
        let len: u32 = get_le(data, at, 0, 4) as u32;
        let raw: u32 = get_le(data, at, 4, 4) as u32;
        let error: i32 = i32_from_bits(raw);
        let unique: u64 = get_le(data, at, 8, 8);
        FuseOutHeader { len, error, unique }
    }
}

/// Reading a written [`FuseOutHeader`] gives back the same record, whatever follows it.
pub proof fn law_out_header_round_trip(x: FuseOutHeader)
    ensures
        x.bytes().len() == FUSE_OUT_HEADER_SIZE,
        forall|rest: Seq<u8>| #[trigger] FuseOutHeader::decode(x.bytes() + rest) == x,
{
    broadcast use {lemma_le_bytes_len, law_le_value_of_bytes};

    lemma_le_limits();
    assert forall|rest: Seq<u8>| #[trigger] FuseOutHeader::decode(x.bytes() + rest) == x by {
        let s = x.bytes() + rest;
        assert(s.subrange(0, 4) =~= le_bytes(x.len as nat, 4));
        assert(s.subrange(4, 8) =~= le_bytes(i32_bits(x.error), 4));
        assert(s.subrange(8, 16) =~= le_bytes(x.unique as nat, 8));
    }
}

/// Size of a [`FuseInitIn`] on the wire.
pub const FUSE_INIT_IN_SIZE: usize = 16;

/// Arguments of [`FuseOpcode::Init`].
#[derive(Debug, Clone, Copy, PartialEq, Eq, Structural)]
pub struct FuseInitIn {
    /// Major protocol version.
    pub major: u32,
    /// Minor protocol version.
    pub minor: u32,
    /// Largest read-ahead.
    pub max_readahead: u32,
    /// Requested features.
    pub flags: u32,
}

impl FuseInitIn {
    /// The record as it stands on the wire.
    pub open spec fn bytes(self) -> Seq<u8> {
        le_bytes(self.major as nat, 4)
            + le_bytes(self.minor as nat, 4)
            + le_bytes(self.max_readahead as nat, 4)
            + le_bytes(self.flags as nat, 4)
    }

    /// The record that the bytes at the front of `s` spell.
    pub open spec fn decode(s: Seq<u8>) -> FuseInitIn {
        FuseInitIn {
            major: le_value(s.subrange(0, 4)) as u32,
            minor: le_value(s.subrange(4, 8)) as u32,
            max_readahead: le_value(s.subrange(8, 12)) as u32,
            flags: le_value(s.subrange(12, 16)) as u32,
        }
    }

    /// Writes the record out.
    pub fn to_bytes(&self) -> (buf: Vec<u8>)
        ensures
            buf@ == self.bytes(),
            buf@.len() == FUSE_INIT_IN_SIZE,
    {
        let mut buf: Vec<u8> = Vec::new();
        put_le(&mut buf, self.major as u64, 4);
        assert(buf@ =~= le_bytes(self.major as nat, 4));
        put_le(&mut buf, self.minor as u64, 4);
        put_le(&mut buf, self.max_readahead as u64, 4);
        put_le(&mut buf, self.flags as u64, 4);
        proof {
            law_init_in_round_trip(*self);
        }
        buf
    }
}

/// Reading a written [`FuseInitIn`] gives back the same record, whatever follows it.
pub proof fn law_init_in_round_trip(x: FuseInitIn)
    ensures
        x.bytes().len() == FUSE_INIT_IN_SIZE,
        forall|rest: Seq<u8>| #[trigger] FuseInitIn::decode(x.bytes() + rest) == x,
{
    broadcast use {lemma_le_bytes_len, law_le_value_of_bytes};

    lemma_le_limits();
    assert forall|rest: Seq<u8>| #[trigger] FuseInitIn::decode(x.bytes() + rest) == x by {
        let s = x.bytes() + rest;
        assert(s.subrange(0, 4) =~= le_bytes(x.major as nat, 4));
        assert(s.subrange(4, 8) =~= le_bytes(x.minor as nat, 4));
        assert(s.subrange(8, 12) =~= le_bytes(x.max_readahead as nat, 4));
        assert(s.subrange(12, 16) =~= le_bytes(x.flags as nat, 4));
    }
}

/// Size of a [`FuseInitOut`] on the wire.
pub const FUSE_INIT_OUT_SIZE: usize = 64;

/// Answer to [`FuseOpcode::Init`]. The record ends in reserved words, which are not kept.
#[derive(Debug, Clone, Copy, PartialEq, Eq, Structural)]
pub struct FuseInitOut {
    /// Major protocol version.
    pub major: u32,
    /// Minor protocol version.
    pub minor: u32,
    /// Largest read-ahead.
    pub max_readahead: u32,
    /// Granted features.
    pub flags: u32,
    /// Most requests in the background.
    pub max_background: u16,
    /// Background requests that count as congestion.
    pub congestion_threshold: u16,
    /// Largest write.
    pub max_write: u32,
    /// Granularity of timestamps.
    pub time_gran: u32,
}

impl FuseInitOut {
    /// The record as it stands on the wire.
    pub open spec fn bytes(self) -> Seq<u8> {
        le_bytes(self.major as nat, 4)
            + le_bytes(self.minor as nat, 4)
            + le_bytes(self.max_readahead as nat, 4)
            + le_bytes(self.flags as nat, 4)
            + le_bytes(self.max_background as nat, 2)
            + le_bytes(self.congestion_threshold as nat, 2)
            + le_bytes(self.max_write as nat, 4)
            + le_bytes(self.time_gran as nat, 4)
            + le_bytes(0, 36)
    }

    /// The record that the bytes at the front of `s` spell.
    pub open spec fn decode(s: Seq<u8>) -> FuseInitOut {
        FuseInitOut {
            major: le_value(s.subrange(0, 4)) as u32,
            minor: le_value(s.subrange(4, 8)) as u32,
            max_readahead: le_value(s.subrange(8, 12)) as u32,
            flags: le_value(s.subrange(12, 16)) as u32,
            max_background: le_value(s.subrange(16, 18)) as u16,
            congestion_threshold: le_value(s.subrange(18, 20)) as u16,
            max_write: le_value(s.subrange(20, 24)) as u32,
            time_gran: le_value(s.subrange(24, 28)) as u32,
        }
    }

    /// Reads the record at `at`.
    pub fn from_bytes(data: &[u8], at: usize) -> (r: FuseInitOut)
        requires
            at + FUSE_INIT_OUT_SIZE <= data@.len(),
        ensures
            r == FuseInitOut::decode(data@.skip(at as int)),
    {
        proof {
            lemma_le_limits();
        }
        let major: u32 = get_le(data, at, 0, 4) as u32;
        let minor: u32 = get_le(data, at, 4, 4) as u32;
        let max_readahead: u32 = get_le(data, at, 8, 4) as u32;
        let flags: u32 = get_le(data, at, 12, 4) as u32;
        let max_background: u16 = get_le(data, at, 16, 2) as u16;
        let congestion_threshold: u16 = get_le(data, at, 18, 2) as u16;
        let max_write: u32 = get_le(data, at, 20, 4) as u32;
        let time_gran: u32 = get_le(data, at, 24, 4) as u32;
        FuseInitOut {
            major,
            minor,
            max_readahead,
            flags,
            max_background,
            congestion_threshold,
            max_write,
            time_gran,
        }
    }
}

/// Reading a written [`FuseInitOut`] gives back the same record, whatever follows it.
pub proof fn law_init_out_round_trip(x: FuseInitOut)
    ensures
        x.bytes().len() == FUSE_INIT_OUT_SIZE,
        forall|rest: Seq<u8>| #[trigger] FuseInitOut::decode(x.bytes() + rest) == x,
{
    broadcast use {lemma_le_bytes_len, law_le_value_of_bytes};

    lemma_le_limits();
    assert forall|rest: Seq<u8>| #[trigger] FuseInitOut::decode(x.bytes() + rest) == x by {
        let s = x.bytes() + rest;
        assert(s.subrange(0, 4) =~= le_bytes(x.major as nat, 4));
        assert(s.subrange(4, 8) =~= le_bytes(x.minor as nat, 4));
        assert(s.subrange(8, 12) =~= le_bytes(x.max_readahead as nat, 4));
        assert(s.subrange(12, 16) =~= le_bytes(x.flags as nat, 4));
        assert(s.subrange(16, 18) =~= le_bytes(x.max_background as nat, 2));
        assert(s.subrange(18, 20) =~= le_bytes(x.congestion_threshold as nat, 2));
        assert(s.subrange(20, 24) =~= le_bytes(x.max_write as nat, 4));
        assert(s.subrange(24, 28) =~= le_bytes(x.time_gran as nat, 4));
    }
}

/// Size of a [`FuseAttr`] on the wire.
pub const FUSE_ATTR_SIZE: usize = 88;

/// The attributes of a node.
#[derive(Debug, Clone, Copy, PartialEq, Eq, Structural)]
pub struct FuseAttr {
    /// Inode number.
    pub ino: u64,
    /// Size in bytes.
    pub size: u64,
    /// Blocks of 512 bytes.
    pub blocks: u64,
    /// Last access, in seconds.
    pub atime: u64,
    /// Last modification, in seconds.
    pub mtime: u64,
    /// Last status change, in seconds.
    pub ctime: u64,
    /// Nanoseconds of the last access.
    pub atimensec: u32,
    /// Nanoseconds of the last modification.
    pub mtimensec: u32,
    /// Nanoseconds of the last status change.
    pub ctimensec: u32,
    /// File type and permissions.
    pub mode: u32,
    /// Hard links.
    pub nlink: u32,
    /// Owner.
    pub uid: u32,
    /// Group.
    pub gid: u32,
    /// Device number of a special file.
    pub rdev: u32,
    /// Preferred block size.
    pub blksize: u32,
    /// Unused.
    pub padding: u32,
}

impl FuseAttr {
    /// The record as it stands on the wire.
    pub open spec fn bytes(self) -> Seq<u8> {
        le_bytes(self.ino as nat, 8)
            + le_bytes(self.size as nat, 8)
            + le_bytes(self.blocks as nat, 8)
            + le_bytes(self.atime as nat, 8)
            + le_bytes(self.mtime as nat, 8)
            + le_bytes(self.ctime as nat, 8)
            + le_bytes(self.atimensec as nat, 4)
            + le_bytes(self.mtimensec as nat, 4)
            + le_bytes(self.ctimensec as nat, 4)
            + le_bytes(self.mode as nat, 4)
            + le_bytes(self.nlink as nat, 4)
            + le_bytes(self.uid as nat, 4)
            + le_bytes(self.gid as nat, 4)
            + le_bytes(self.rdev as nat, 4)
            + le_bytes(self.blksize as nat, 4)
            + le_bytes(self.padding as nat, 4)
    }

    /// The record that the bytes at the front of `s` spell.
    pub open spec fn decode(s: Seq<u8>) -> FuseAttr {
        FuseAttr {
            ino: le_value(s.subrange(0, 8)) as u64,
            size: le_value(s.subrange(8, 16)) as u64,
            blocks: le_value(s.subrange(16, 24)) as u64,
            atime: le_value(s.subrange(24, 32)) as u64,
            mtime: le_value(s.subrange(32, 40)) as u64,
            ctime: le_value(s.subrange(40, 48)) as u64,
            atimensec: le_value(s.subrange(48, 52)) as u32,
            mtimensec: le_value(s.subrange(52, 56)) as u32,
            ctimensec: le_value(s.subrange(56, 60)) as u32,
            mode: le_value(s.subrange(60, 64)) as u32,
            nlink: le_value(s.subrange(64, 68)) as u32,
            uid: le_value(s.subrange(68, 72)) as u32,
            gid: le_value(s.subrange(72, 76)) as u32,
            rdev: le_value(s.subrange(76, 80)) as u32,
            blksize: le_value(s.subrange(80, 84)) as u32,
            padding: le_value(s.subrange(84, 88)) as u32,
        }
    }

    /// Reads the record at `at`.
    pub fn from_bytes(data: &[u8], at: usize) -> (r: FuseAttr)
        requires
            at + FUSE_ATTR_SIZE <= data@.len(),
        ensures
            r == FuseAttr::decode(data@.skip(at as int)),
    {
        proof {
            lemma_le_limits();
        }
        let ino: u64 = get_le(data, at, 0, 8);
        let size: u64 = get_le(data, at, 8, 8);
        let blocks: u64 = get_le(data, at, 16, 8);
        let atime: u64 = get_le(data, at, 24, 8);
        let mtime: u64 = get_le(data, at, 32, 8);
        let ctime: u64 = get_le(data, at, 40, 8);
        let atimensec: u32 = get_le(data, at, 48, 4) as u32;
        let mtimensec: u32 = get_le(data, at, 52, 4) as u32;
        let ctimensec: u32 = get_le(data, at, 56, 4) as u32;
        let mode: u32 = get_le(data, at, 60, 4) as u32;
        let nlink: u32 = get_le(data, at, 64, 4) as u32;
        let uid: u32 = get_le(data, at, 68, 4) as u32;
        let gid: u32 = get_le(data, at, 72, 4) as u32;
        let rdev: u32 = get_le(data, at, 76, 4) as u32;
        let blksize: u32 = get_le(data, at, 80, 4) as u32;
        let padding: u32 = get_le(data, at, 84, 4) as u32;
        FuseAttr {
            ino,
            size,
            blocks,
            atime,
            mtime,
            ctime,
            atimensec,
            mtimensec,
            ctimensec,
            mode,
            nlink,
            uid,
            gid,
            rdev,
            blksize,
            padding,
        }
    }
}

/// Reading a written [`FuseAttr`] gives back the same record, whatever follows it.
pub proof fn law_attr_round_trip(x: FuseAttr)
    ensures
        x.bytes().len() == FUSE_ATTR_SIZE,
        forall|rest: Seq<u8>| #[trigger] FuseAttr::decode(x.bytes() + rest) == x,
{
    broadcast use {lemma_le_bytes_len, law_le_value_of_bytes};

    lemma_le_limits();
    assert forall|rest: Seq<u8>| #[trigger] FuseAttr::decode(x.bytes() + rest) == x by {
        let s = x.bytes() + rest;
        assert(s.subrange(0, 8) =~= le_bytes(x.ino as nat, 8));
        assert(s.subrange(8, 16) =~= le_bytes(x.size as nat, 8));
        assert(s.subrange(16, 24) =~= le_bytes(x.blocks as nat, 8));
        assert(s.subrange(24, 32) =~= le_bytes(x.atime as nat, 8));
        assert(s.subrange(32, 40) =~= le_bytes(x.mtime as nat, 8));
        assert(s.subrange(40, 48) =~= le_bytes(x.ctime as nat, 8));
        assert(s.subrange(48, 52) =~= le_bytes(x.atimensec as nat, 4));
        assert(s.subrange(52, 56) =~= le_bytes(x.mtimensec as nat, 4));
        assert(s.subrange(56, 60) =~= le_bytes(x.ctimensec as nat, 4));
        assert(s.subrange(60, 64) =~= le_bytes(x.mode as nat, 4));
        assert(s.subrange(64, 68) =~= le_bytes(x.nlink as nat, 4));
        assert(s.subrange(68, 72) =~= le_bytes(x.uid as nat, 4));
        assert(s.subrange(72, 76) =~= le_bytes(x.gid as nat, 4));
        assert(s.subrange(76, 80) =~= le_bytes(x.rdev as nat, 4));
        assert(s.subrange(80, 84) =~= le_bytes(x.blksize as nat, 4));
        assert(s.subrange(84, 88) =~= le_bytes(x.padding as nat, 4));
    }
}

/// Size of a [`FuseAttrOut`] on the wire.
pub const FUSE_ATTR_OUT_SIZE: usize = 104;

/// Answer to [`FuseOpcode::Getattr`].
#[derive(Debug, Clone, Copy, PartialEq, Eq, Structural)]
pub struct FuseAttrOut {
    /// Seconds that the attributes stay valid.
    pub attr_valid: u64,
    /// Nanoseconds that the attributes stay valid.
    pub attr_valid_nsec: u32,
    /// Unused.
    pub dummy: u32,
    /// The attributes.
    pub attr: FuseAttr,
}

impl FuseAttrOut {
    /// The record as it stands on the wire.
    pub open spec fn bytes(self) -> Seq<u8> {
        le_bytes(self.attr_valid as nat, 8)
            + le_bytes(self.attr_valid_nsec as nat, 4)
            + le_bytes(self.dummy as nat, 4)
            + self.attr.bytes()
    }

    /// The record that the bytes at the front of `s` spell.
    pub open spec fn decode(s: Seq<u8>) -> FuseAttrOut {
        FuseAttrOut {
            attr_valid: le_value(s.subrange(0, 8)) as u64,
            attr_valid_nsec: le_value(s.subrange(8, 12)) as u32,
            dummy: le_value(s.subrange(12, 16)) as u32,
            attr: FuseAttr::decode(s.skip(16)),
        }
    }

    /// Reads the record at `at`.
    pub fn from_bytes(data: &[u8], at: usize) -> (r: FuseAttrOut)
        requires
            at + FUSE_ATTR_OUT_SIZE <= data@.len(),
        ensures
            r == FuseAttrOut::decode(data@.skip(at as int)),
    {
        let ghost s = data@.skip(at as int);
        proof {
            lemma_le_limits();
        }
        let attr_valid: u64 = get_le(data, at, 0, 8);
        let attr_valid_nsec: u32 = get_le(data, at, 8, 4) as u32;
        let dummy: u32 = get_le(data, at, 12, 4) as u32;
        let len: usize = data.len();
        let attr: FuseAttr = FuseAttr::from_bytes(data, at + 16);
        assert(data@.skip(at + 16) =~= s.skip(16));
        FuseAttrOut { attr_valid, attr_valid_nsec, dummy, attr }
    }
}

/// Reading a written [`FuseAttrOut`] gives back the same record, whatever follows it.
pub proof fn law_attr_out_round_trip(x: FuseAttrOut)
    ensures
        x.bytes().len() == FUSE_ATTR_OUT_SIZE,
        forall|rest: Seq<u8>| #[trigger] FuseAttrOut::decode(x.bytes() + rest) == x,
{
    broadcast use {lemma_le_bytes_len, law_le_value_of_bytes};

    lemma_le_limits();
    law_attr_round_trip(x.attr);
    assert forall|rest: Seq<u8>| #[trigger] FuseAttrOut::decode(x.bytes() + rest) == x by {
        let s = x.bytes() + rest;
        assert(s.subrange(0, 8) =~= le_bytes(x.attr_valid as nat, 8));
        assert(s.subrange(8, 12) =~= le_bytes(x.attr_valid_nsec as nat, 4));
        assert(s.subrange(12, 16) =~= le_bytes(x.dummy as nat, 4));
        assert(s.skip(16) =~= x.attr.bytes() + rest);
    }
}

/// Size of a [`FuseEntryOut`] on the wire.
pub const FUSE_ENTRY_OUT_SIZE: usize = 128;

/// Answer that names a node: lookup, create and link give one.
#[derive(Debug, Clone, Copy, PartialEq, Eq, Structural)]
pub struct FuseEntryOut {
    /// The number by which later requests name the node.
    pub nodeid: u64,
    /// Generation of that number.
    pub generation: u64,
    /// Seconds that the name stays valid.
    pub entry_valid: u64,
    /// Seconds that the attributes stay valid.
    pub attr_valid: u64,
    /// Nanoseconds that the name stays valid.
    pub entry_valid_nsec: u32,
    /// Nanoseconds that the attributes stay valid.
    pub attr_valid_nsec: u32,
    /// The attributes.
    pub attr: FuseAttr,
}

impl FuseEntryOut {
    /// The record as it stands on the wire.
    pub open spec fn bytes(self) -> Seq<u8> {
        le_bytes(self.nodeid as nat, 8)
            + le_bytes(self.generation as nat, 8)
            + le_bytes(self.entry_valid as nat, 8)
            + le_bytes(self.attr_valid as nat, 8)
            + le_bytes(self.entry_valid_nsec as nat, 4)
            + le_bytes(self.attr_valid_nsec as nat, 4)
            + self.attr.bytes()
    }

    /// The record that the bytes at the front of `s` spell.
    pub open spec fn decode(s: Seq<u8>) -> FuseEntryOut {
        FuseEntryOut {
            nodeid: le_value(s.subrange(0, 8)) as u64,
            generation: le_value(s.subrange(8, 16)) as u64,
            entry_valid: le_value(s.subrange(16, 24)) as u64,
            attr_valid: le_value(s.subrange(24, 32)) as u64,
            entry_valid_nsec: le_value(s.subrange(32, 36)) as u32,
            attr_valid_nsec: le_value(s.subrange(36, 40)) as u32,
            attr: FuseAttr::decode(s.skip(40)),
        }
    }

    /// Reads the record at `at`.
    pub fn from_bytes(data: &[u8], at: usize) -> (r: FuseEntryOut)
        requires
            at + FUSE_ENTRY_OUT_SIZE <= data@.len(),
        ensures
            r == FuseEntryOut::decode(data@.skip(at as int)),
    {
        let ghost s = data@.skip(at as int);
        proof {
            lemma_le_limits();
        }
        let nodeid: u64 = get_le(data, at, 0, 8);
        let generation: u64 = get_le(data, at, 8, 8);
        let entry_valid: u64 = get_le(data, at, 16, 8);
        let attr_valid: u64 = get_le(data, at, 24, 8);
        let entry_valid_nsec: u32 = get_le(data, at, 32, 4) as u32;
        let attr_valid_nsec: u32 = get_le(data, at, 36, 4) as u32;
        let len: usize = data.len();
        let attr: FuseAttr = FuseAttr::from_bytes(data, at + 40);
        assert(data@.skip(at + 40) =~= s.skip(40));
        FuseEntryOut {
            nodeid,
            generation,
            entry_valid,
            attr_valid,
            entry_valid_nsec,
            attr_valid_nsec,
            attr,
        }
    }
}

/// Reading a written [`FuseEntryOut`] gives back the same record, whatever follows it.
pub proof fn law_entry_out_round_trip(x: FuseEntryOut)
    ensures
        x.bytes().len() == FUSE_ENTRY_OUT_SIZE,
        forall|rest: Seq<u8>| #[trigger] FuseEntryOut::decode(x.bytes() + rest) == x,
{
    broadcast use {lemma_le_bytes_len, law_le_value_of_bytes};

    lemma_le_limits();
    law_attr_round_trip(x.attr);
    assert forall|rest: Seq<u8>| #[trigger] FuseEntryOut::decode(x.bytes() + rest) == x by {
        let s = x.bytes() + rest;
        assert(s.subrange(0, 8) =~= le_bytes(x.nodeid as nat, 8));
        assert(s.subrange(8, 16) =~= le_bytes(x.generation as nat, 8));
        assert(s.subrange(16, 24) =~= le_bytes(x.entry_valid as nat, 8));
        assert(s.subrange(24, 32) =~= le_bytes(x.attr_valid as nat, 8));
        assert(s.subrange(32, 36) =~= le_bytes(x.entry_valid_nsec as nat, 4));
        assert(s.subrange(36, 40) =~= le_bytes(x.attr_valid_nsec as nat, 4));
        assert(s.skip(40) =~= x.attr.bytes() + rest);
    }
}

/// Size of a [`FuseReadIn`] on the wire.
pub const FUSE_READ_IN_SIZE: usize = 40;

/// Arguments of [`FuseOpcode::Read`] and [`FuseOpcode::Readdir`].
#[derive(Debug, Clone, Copy, PartialEq, Eq, Structural)]
pub struct FuseReadIn {
    /// Open file.
    pub fh: u64,
    /// Where to start.
    pub offset: u64,
    /// How many bytes are wanted.
    pub size: u32,
    /// Flags of the read.
    pub read_flags: u32,
    /// Owner of locks.
    pub lock_owner: u64,
    /// Flags of the open file.
    pub flags: u32,
    /// Unused.
    pub padding: u32,
}

impl FuseReadIn {
    /// The record as it stands on the wire.
    pub open spec fn bytes(self) -> Seq<u8> {
        le_bytes(self.fh as nat, 8)
            + le_bytes(self.offset as nat, 8)
            + le_bytes(self.size as nat, 4)
            + le_bytes(self.read_flags as nat, 4)
            + le_bytes(self.lock_owner as nat, 8)
            + le_bytes(self.flags as nat, 4)
            + le_bytes(self.padding as nat, 4)
    }

    /// The record that the bytes at the front of `s` spell.
    pub open spec fn decode(s: Seq<u8>) -> FuseReadIn {
        FuseReadIn {
            fh: le_value(s.subrange(0, 8)) as u64,
            offset: le_value(s.subrange(8, 16)) as u64,
            size: le_value(s.subrange(16, 20)) as u32,
            read_flags: le_value(s.subrange(20, 24)) as u32,
            lock_owner: le_value(s.subrange(24, 32)) as u64,
            flags: le_value(s.subrange(32, 36)) as u32,
            padding: le_value(s.subrange(36, 40)) as u32,
        }
    }

    /// Writes the record out.
    pub fn to_bytes(&self) -> (buf: Vec<u8>)
        ensures
            buf@ == self.bytes(),
            buf@.len() == FUSE_READ_IN_SIZE,
    {
        let mut buf: Vec<u8> = Vec::new();
        put_le(&mut buf, self.fh, 8);
        assert(buf@ =~= le_bytes(self.fh as nat, 8));
        put_le(&mut buf, self.offset, 8);
        put_le(&mut buf, self.size as u64, 4);
        put_le(&mut buf, self.read_flags as u64, 4);
        put_le(&mut buf, self.lock_owner, 8);
        put_le(&mut buf, self.flags as u64, 4);
        put_le(&mut buf, self.padding as u64, 4);
        proof {
            law_read_in_round_trip(*self);
        }
        buf
    }
}

/// Reading a written [`FuseReadIn`] gives back the same record, whatever follows it.
pub proof fn law_read_in_round_trip(x: FuseReadIn)
    ensures
        x.bytes().len() == FUSE_READ_IN_SIZE,
        forall|rest: Seq<u8>| #[trigger] FuseReadIn::decode(x.bytes() + rest) == x,
{
    broadcast use {lemma_le_bytes_len, law_le_value_of_bytes};

    lemma_le_limits();
    assert forall|rest: Seq<u8>| #[trigger] FuseReadIn::decode(x.bytes() + rest) == x by {
        let s = x.bytes() + rest;
        assert(s.subrange(0, 8) =~= le_bytes(x.fh as nat, 8));
        assert(s.subrange(8, 16) =~= le_bytes(x.offset as nat, 8));
        assert(s.subrange(16, 20) =~= le_bytes(x.size as nat, 4));
        assert(s.subrange(20, 24) =~= le_bytes(x.read_flags as nat, 4));
        assert(s.subrange(24, 32) =~= le_bytes(x.lock_owner as nat, 8));
        assert(s.subrange(32, 36) =~= le_bytes(x.flags as nat, 4));
        assert(s.subrange(36, 40) =~= le_bytes(x.padding as nat, 4));
    }
}

/// Size of a [`FuseWriteIn`] on the wire.
pub const FUSE_WRITE_IN_SIZE: usize = 40;

/// Arguments of [`FuseOpcode::Write`]; the data follows.
#[derive(Debug, Clone, Copy, PartialEq, Eq, Structural)]
pub struct FuseWriteIn {
    /// Open file.
    pub fh: u64,
    /// Where to start.
    pub offset: u64,
    /// How many bytes follow.
    pub size: u32,
    /// Flags of the write.
    pub write_flags: u32,
    /// Owner of locks.
    pub lock_owner: u64,
    /// Flags of the open file.
    pub flags: u32,
    /// Unused.
    pub padding: u32,
}

impl FuseWriteIn {
    /// The record as it stands on the wire.
    pub open spec fn bytes(self) -> Seq<u8> {
        le_bytes(self.fh as nat, 8)
            + le_bytes(self.offset as nat, 8)
            + le_bytes(self.size as nat, 4)
            + le_bytes(self.write_flags as nat, 4)
            + le_bytes(self.lock_owner as nat, 8)
            + le_bytes(self.flags as nat, 4)
            + le_bytes(self.padding as nat, 4)
    }

    /// The record that the bytes at the front of `s` spell.
    pub open spec fn decode(s: Seq<u8>) -> FuseWriteIn {
        FuseWriteIn {
            fh: le_value(s.subrange(0, 8)) as u64,
            offset: le_value(s.subrange(8, 16)) as u64,
            size: le_value(s.subrange(16, 20)) as u32,
            write_flags: le_value(s.subrange(20, 24)) as u32,
            lock_owner: le_value(s.subrange(24, 32)) as u64,
            flags: le_value(s.subrange(32, 36)) as u32,
            padding: le_value(s.subrange(36, 40)) as u32,
        }
    }

    /// Writes the record out.
    pub fn to_bytes(&self) -> (buf: Vec<u8>)
        ensures
            buf@ == self.bytes(),
            buf@.len() == FUSE_WRITE_IN_SIZE,
    {
        let mut buf: Vec<u8> = Vec::new();
        put_le(&mut buf, self.fh, 8);
        assert(buf@ =~= le_bytes(self.fh as nat, 8));
        put_le(&mut buf, self.offset, 8);
        put_le(&mut buf, self.size as u64, 4);
        put_le(&mut buf, self.write_flags as u64, 4);
        put_le(&mut buf, self.lock_owner, 8);
        put_le(&mut buf, self.flags as u64, 4);
        put_le(&mut buf, self.padding as u64, 4);
        proof {
            law_write_in_round_trip(*self);
        }
        buf
    }
}

/// Reading a written [`FuseWriteIn`] gives back the same record, whatever follows it.
pub proof fn law_write_in_round_trip(x: FuseWriteIn)
    ensures
        x.bytes().len() == FUSE_WRITE_IN_SIZE,
        forall|rest: Seq<u8>| #[trigger] FuseWriteIn::decode(x.bytes() + rest) == x,
{
    broadcast use {lemma_le_bytes_len, law_le_value_of_bytes};

    lemma_le_limits();
    assert forall|rest: Seq<u8>| #[trigger] FuseWriteIn::decode(x.bytes() + rest) == x by {
        let s = x.bytes() + rest;
        assert(s.subrange(0, 8) =~= le_bytes(x.fh as nat, 8));
        assert(s.subrange(8, 16) =~= le_bytes(x.offset as nat, 8));
        assert(s.subrange(16, 20) =~= le_bytes(x.size as nat, 4));
        assert(s.subrange(20, 24) =~= le_bytes(x.write_flags as nat, 4));
        assert(s.subrange(24, 32) =~= le_bytes(x.lock_owner as nat, 8));
        assert(s.subrange(32, 36) =~= le_bytes(x.flags as nat, 4));
        assert(s.subrange(36, 40) =~= le_bytes(x.padding as nat, 4));
    }
}

/// Size of a [`FuseWriteOut`] on the wire.
pub const FUSE_WRITE_OUT_SIZE: usize = 8;

/// Answer to [`FuseOpcode::Write`].
#[derive(Debug, Clone, Copy, PartialEq, Eq, Structural)]
pub struct FuseWriteOut {
    /// How many bytes were written.
    pub size: u32,
    /// Unused.
    pub padding: u32,
}

impl FuseWriteOut {
    /// The record as it stands on the wire.
    pub open spec fn bytes(self) -> Seq<u8> {
        le_bytes(self.size as nat, 4)
            + le_bytes(self.padding as nat, 4)
    }

    /// The record that the bytes at the front of `s` spell.
    pub open spec fn decode(s: Seq<u8>) -> FuseWriteOut {
        FuseWriteOut {
            size: le_value(s.subrange(0, 4)) as u32,
            padding: le_value(s.subrange(4, 8)) as u32,
        }
    }

    /// Reads the record at `at`.
    pub fn from_bytes(data: &[u8], at: usize) -> (r: FuseWriteOut)
        requires
            at + FUSE_WRITE_OUT_SIZE <= data@.len(),
        ensures
            r == FuseWriteOut::decode(data@.skip(at as int)),
    {
        proof {
            lemma_le_limits();
        }
        let size: u32 = get_le(data, at, 0, 4) as u32;
        let padding: u32 = get_le(data, at, 4, 4) as u32;
        FuseWriteOut { size, padding }
    }
}

/// Reading a written [`FuseWriteOut`] gives back the same record, whatever follows it.
pub proof fn law_write_out_round_trip(x: FuseWriteOut)
    ensures
        x.bytes().len() == FUSE_WRITE_OUT_SIZE,
        forall|rest: Seq<u8>| #[trigger] FuseWriteOut::decode(x.bytes() + rest) == x,
{
    broadcast use {lemma_le_bytes_len, law_le_value_of_bytes};

    lemma_le_limits();
    assert forall|rest: Seq<u8>| #[trigger] FuseWriteOut::decode(x.bytes() + rest) == x by {
        let s = x.bytes() + rest;
        assert(s.subrange(0, 4) =~= le_bytes(x.size as nat, 4));
        assert(s.subrange(4, 8) =~= le_bytes(x.padding as nat, 4));
    }
}

/// Size of a [`FuseCreateIn`] on the wire.
pub const FUSE_CREATE_IN_SIZE: usize = 16;

/// Arguments of [`FuseOpcode::Create`]; the name follows.
#[derive(Debug, Clone, Copy, PartialEq, Eq, Structural)]
pub struct FuseCreateIn {
    /// Open flags.
    pub flags: u32,
    /// File type and permissions.
    pub mode: u32,
    /// Permissions to leave out.
    pub umask: u32,
    /// Unused.
    pub padding: u32,
}

impl FuseCreateIn {
    /// The record as it stands on the wire.
    pub open spec fn bytes(self) -> Seq<u8> {
        le_bytes(self.flags as nat, 4)
            + le_bytes(self.mode as nat, 4)
            + le_bytes(self.umask as nat, 4)
            + le_bytes(self.padding as nat, 4)
    }

    /// The record that the bytes at the front of `s` spell.
    pub open spec fn decode(s: Seq<u8>) -> FuseCreateIn {
        FuseCreateIn {
            flags: le_value(s.subrange(0, 4)) as u32,
            mode: le_value(s.subrange(4, 8)) as u32,
            umask: le_value(s.subrange(8, 12)) as u32,
            padding: le_value(s.subrange(12, 16)) as u32,
        }
    }

    /// Writes the record out.
    pub fn to_bytes(&self) -> (buf: Vec<u8>)
        ensures
            buf@ == self.bytes(),
            buf@.len() == FUSE_CREATE_IN_SIZE,
    {
        let mut buf: Vec<u8> = Vec::new();
        put_le(&mut buf, self.flags as u64, 4);
        assert(buf@ =~= le_bytes(self.flags as nat, 4));
        put_le(&mut buf, self.mode as u64, 4);
        put_le(&mut buf, self.umask as u64, 4);
        put_le(&mut buf, self.padding as u64, 4);
        proof {
            law_create_in_round_trip(*self);
        }
        buf
    }
}

/// Reading a written [`FuseCreateIn`] gives back the same record, whatever follows it.
pub proof fn law_create_in_round_trip(x: FuseCreateIn)
    ensures
        x.bytes().len() == FUSE_CREATE_IN_SIZE,
        forall|rest: Seq<u8>| #[trigger] FuseCreateIn::decode(x.bytes() + rest) == x,
{
    broadcast use {lemma_le_bytes_len, law_le_value_of_bytes};

    lemma_le_limits();
    assert forall|rest: Seq<u8>| #[trigger] FuseCreateIn::decode(x.bytes() + rest) == x by {
        let s = x.bytes() + rest;
        assert(s.subrange(0, 4) =~= le_bytes(x.flags as nat, 4));
        assert(s.subrange(4, 8) =~= le_bytes(x.mode as nat, 4));
        assert(s.subrange(8, 12) =~= le_bytes(x.umask as nat, 4));
        assert(s.subrange(12, 16) =~= le_bytes(x.padding as nat, 4));
    }
}

/// Size of a [`FuseMkdirIn`] on the wire.
pub const FUSE_MKDIR_IN_SIZE: usize = 8;

/// Arguments of [`FuseOpcode::Mkdir`]; the name follows.
#[derive(Debug, Clone, Copy, PartialEq, Eq, Structural)]
pub struct FuseMkdirIn {
    /// Permissions.
    pub mode: u32,
    /// Permissions to leave out.
    pub umask: u32,
}

impl FuseMkdirIn {
    /// The record as it stands on the wire.
    pub open spec fn bytes(self) -> Seq<u8> {
        le_bytes(self.mode as nat, 4)
            + le_bytes(self.umask as nat, 4)
    }

    /// The record that the bytes at the front of `s` spell.
    pub open spec fn decode(s: Seq<u8>) -> FuseMkdirIn {
        FuseMkdirIn {
            mode: le_value(s.subrange(0, 4)) as u32,
            umask: le_value(s.subrange(4, 8)) as u32,
        }
    }

    /// Writes the record out.
    pub fn to_bytes(&self) -> (buf: Vec<u8>)
        ensures
            buf@ == self.bytes(),
            buf@.len() == FUSE_MKDIR_IN_SIZE,
    {
        let mut buf: Vec<u8> = Vec::new();
        put_le(&mut buf, self.mode as u64, 4);
        assert(buf@ =~= le_bytes(self.mode as nat, 4));
        put_le(&mut buf, self.umask as u64, 4);
        proof {
            law_mkdir_in_round_trip(*self);
        }
        buf
    }
}

/// Reading a written [`FuseMkdirIn`] gives back the same record, whatever follows it.
pub proof fn law_mkdir_in_round_trip(x: FuseMkdirIn)
    ensures
        x.bytes().len() == FUSE_MKDIR_IN_SIZE,
        forall|rest: Seq<u8>| #[trigger] FuseMkdirIn::decode(x.bytes() + rest) == x,
{
    broadcast use {lemma_le_bytes_len, law_le_value_of_bytes};

    lemma_le_limits();
    assert forall|rest: Seq<u8>| #[trigger] FuseMkdirIn::decode(x.bytes() + rest) == x by {
        let s = x.bytes() + rest;
        assert(s.subrange(0, 4) =~= le_bytes(x.mode as nat, 4));
        assert(s.subrange(4, 8) =~= le_bytes(x.umask as nat, 4));
    }
}

/// Size of a [`FuseSetattrIn`] on the wire.
pub const FUSE_SETATTR_IN_SIZE: usize = 88;

/// Arguments of [`FuseOpcode::Setattr`].
#[derive(Debug, Clone, Copy, PartialEq, Eq, Structural)]
pub struct FuseSetattrIn {
    /// Which of the attributes to change.
    pub valid: u32,
    /// Unused.
    pub padding: u32,
    /// File handle.
    pub fh: u64,
    /// New size in bytes.
    pub size: u64,
    /// Owner of a lock.
    pub lock_owner: u64,
    /// New time of last access, in seconds.
    pub atime: u64,
    /// New time of last modification, in seconds.
    pub mtime: u64,
    /// New time of last status change, in seconds.
    pub ctime: u64,
    /// Nanoseconds of the last access.
    pub atimensec: u32,
    /// Nanoseconds of the last modification.
    pub mtimensec: u32,
    /// Nanoseconds of the last status change.
    pub ctimensec: u32,
    /// New permissions.
    pub mode: u32,
    /// Unused.
    pub unused4: u32,
    /// New owner.
    pub uid: u32,
    /// New group.
    pub gid: u32,
    /// Unused.
    pub unused5: u32,
}

impl FuseSetattrIn {
    /// The record as it stands on the wire.
    pub open spec fn bytes(self) -> Seq<u8> {
        le_bytes(self.valid as nat, 4)
            + le_bytes(self.padding as nat, 4)
            + le_bytes(self.fh as nat, 8)
            + le_bytes(self.size as nat, 8)
            + le_bytes(self.lock_owner as nat, 8)
            + le_bytes(self.atime as nat, 8)
            + le_bytes(self.mtime as nat, 8)
            + le_bytes(self.ctime as nat, 8)
            + le_bytes(self.atimensec as nat, 4)
            + le_bytes(self.mtimensec as nat, 4)
            + le_bytes(self.ctimensec as nat, 4)
            + le_bytes(self.mode as nat, 4)
            + le_bytes(self.unused4 as nat, 4)
            + le_bytes(self.uid as nat, 4)
            + le_bytes(self.gid as nat, 4)
            + le_bytes(self.unused5 as nat, 4)
    }

    /// The record that the bytes at the front of `s` spell.
    pub open spec fn decode(s: Seq<u8>) -> FuseSetattrIn {
        FuseSetattrIn {
            valid: le_value(s.subrange(0, 4)) as u32,
            padding: le_value(s.subrange(4, 8)) as u32,
            fh: le_value(s.subrange(8, 16)) as u64,
            size: le_value(s.subrange(16, 24)) as u64,
            lock_owner: le_value(s.subrange(24, 32)) as u64,
            atime: le_value(s.subrange(32, 40)) as u64,
            mtime: le_value(s.subrange(40, 48)) as u64,
            ctime: le_value(s.subrange(48, 56)) as u64,
            atimensec: le_value(s.subrange(56, 60)) as u32,
            mtimensec: le_value(s.subrange(60, 64)) as u32,
            ctimensec: le_value(s.subrange(64, 68)) as u32,
            mode: le_value(s.subrange(68, 72)) as u32,
            unused4: le_value(s.subrange(72, 76)) as u32,
            uid: le_value(s.subrange(76, 80)) as u32,
            gid: le_value(s.subrange(80, 84)) as u32,
            unused5: le_value(s.subrange(84, 88)) as u32,
        }
    }

    /// Writes the record out.
    pub fn to_bytes(&self) -> (buf: Vec<u8>)
        ensures
            buf@ == self.bytes(),
            buf@.len() == FUSE_SETATTR_IN_SIZE,
    {
        let mut buf: Vec<u8> = Vec::new();
        put_le(&mut buf, self.valid as u64, 4);
        assert(buf@ =~= le_bytes(self.valid as nat, 4));
        put_le(&mut buf, self.padding as u64, 4);
        put_le(&mut buf, self.fh, 8);
        put_le(&mut buf, self.size, 8);
        put_le(&mut buf, self.lock_owner, 8);
        put_le(&mut buf, self.atime, 8);
        put_le(&mut buf, self.mtime, 8);
        put_le(&mut buf, self.ctime, 8);
        put_le(&mut buf, self.atimensec as u64, 4);
        put_le(&mut buf, self.mtimensec as u64, 4);
        put_le(&mut buf, self.ctimensec as u64, 4);
        put_le(&mut buf, self.mode as u64, 4);
        put_le(&mut buf, self.unused4 as u64, 4);
        put_le(&mut buf, self.uid as u64, 4);
        put_le(&mut buf, self.gid as u64, 4);
        put_le(&mut buf, self.unused5 as u64, 4);
        proof {
            law_setattr_in_round_trip(*self);
        }
        buf
    }
}

/// Reading a written [`FuseSetattrIn`] gives back the same record, whatever follows it.
pub proof fn law_setattr_in_round_trip(x: FuseSetattrIn)
    ensures
        x.bytes().len() == FUSE_SETATTR_IN_SIZE,
        forall|rest: Seq<u8>| #[trigger] FuseSetattrIn::decode(x.bytes() + rest) == x,
{
    broadcast use {lemma_le_bytes_len, law_le_value_of_bytes};

    lemma_le_limits();
    assert forall|rest: Seq<u8>| #[trigger] FuseSetattrIn::decode(x.bytes() + rest) == x by {
        let s = x.bytes() + rest;
        assert(s.subrange(0, 4) =~= le_bytes(x.valid as nat, 4));
        assert(s.subrange(4, 8) =~= le_bytes(x.padding as nat, 4));
        assert(s.subrange(8, 16) =~= le_bytes(x.fh as nat, 8));
        assert(s.subrange(16, 24) =~= le_bytes(x.size as nat, 8));
        assert(s.subrange(24, 32) =~= le_bytes(x.lock_owner as nat, 8));
        assert(s.subrange(32, 40) =~= le_bytes(x.atime as nat, 8));
        assert(s.subrange(40, 48) =~= le_bytes(x.mtime as nat, 8));
        assert(s.subrange(48, 56) =~= le_bytes(x.ctime as nat, 8));
        assert(s.subrange(56, 60) =~= le_bytes(x.atimensec as nat, 4));
        assert(s.subrange(60, 64) =~= le_bytes(x.mtimensec as nat, 4));
        assert(s.subrange(64, 68) =~= le_bytes(x.ctimensec as nat, 4));
        assert(s.subrange(68, 72) =~= le_bytes(x.mode as nat, 4));
        assert(s.subrange(72, 76) =~= le_bytes(x.unused4 as nat, 4));
        assert(s.subrange(76, 80) =~= le_bytes(x.uid as nat, 4));
        assert(s.subrange(80, 84) =~= le_bytes(x.gid as nat, 4));
        assert(s.subrange(84, 88) =~= le_bytes(x.unused5 as nat, 4));
    }
}

/// Size of a [`FuseLinkIn`] on the wire.
pub const FUSE_LINK_IN_SIZE: usize = 8;

/// Arguments of [`FuseOpcode::Link`]; the new name follows.
#[derive(Debug, Clone, Copy, PartialEq, Eq, Structural)]
pub struct FuseLinkIn {
    /// The node that gets another name.
    pub oldnodeid: u64,
}

impl FuseLinkIn {
    /// The record as it stands on the wire.
    pub open spec fn bytes(self) -> Seq<u8> {
        le_bytes(self.oldnodeid as nat, 8)
    }

    /// The record that the bytes at the front of `s` spell.
    pub open spec fn decode(s: Seq<u8>) -> FuseLinkIn {
        FuseLinkIn {
            oldnodeid: le_value(s.subrange(0, 8)) as u64,
        }
    }

    /// Writes the record out.
    pub fn to_bytes(&self) -> (buf: Vec<u8>)
        ensures
            buf@ == self.bytes(),
            buf@.len() == FUSE_LINK_IN_SIZE,
    {
        let mut buf: Vec<u8> = Vec::new();
        put_le(&mut buf, self.oldnodeid, 8);
        assert(buf@ =~= le_bytes(self.oldnodeid as nat, 8));
        proof {
            law_link_in_round_trip(*self);
        }
        buf
    }
}

/// Reading a written [`FuseLinkIn`] gives back the same record, whatever follows it.
pub proof fn law_link_in_round_trip(x: FuseLinkIn)
    ensures
        x.bytes().len() == FUSE_LINK_IN_SIZE,
        forall|rest: Seq<u8>| #[trigger] FuseLinkIn::decode(x.bytes() + rest) == x,
{
    broadcast use {lemma_le_bytes_len, law_le_value_of_bytes};

    lemma_le_limits();
    assert forall|rest: Seq<u8>| #[trigger] FuseLinkIn::decode(x.bytes() + rest) == x by {
        let s = x.bytes() + rest;
        assert(s.subrange(0, 8) =~= le_bytes(x.oldnodeid as nat, 8));
    }
}

/// Size of a [`FuseRenameIn`] on the wire.
pub const FUSE_RENAME_IN_SIZE: usize = 8;

/// Arguments of [`FuseOpcode::Rename`]; the old and the new name follow.
#[derive(Debug, Clone, Copy, PartialEq, Eq, Structural)]
pub struct FuseRenameIn {
    /// The directory that receives the entry.
    pub newdir: u64,
}

impl FuseRenameIn {
    /// The record as it stands on the wire.
    pub open spec fn bytes(self) -> Seq<u8> {
        le_bytes(self.newdir as nat, 8)
    }

    /// The record that the bytes at the front of `s` spell.
    pub open spec fn decode(s: Seq<u8>) -> FuseRenameIn {
        FuseRenameIn {
            newdir: le_value(s.subrange(0, 8)) as u64,
        }
    }

    /// Writes the record out.
    pub fn to_bytes(&self) -> (buf: Vec<u8>)
        ensures
            buf@ == self.bytes(),
            buf@.len() == FUSE_RENAME_IN_SIZE,
    {
        let mut buf: Vec<u8> = Vec::new();
        put_le(&mut buf, self.newdir, 8);
        assert(buf@ =~= le_bytes(self.newdir as nat, 8));
        proof {
            law_rename_in_round_trip(*self);
        }
        buf
    }
}

/// Reading a written [`FuseRenameIn`] gives back the same record, whatever follows it.
pub proof fn law_rename_in_round_trip(x: FuseRenameIn)
    ensures
        x.bytes().len() == FUSE_RENAME_IN_SIZE,
        forall|rest: Seq<u8>| #[trigger] FuseRenameIn::decode(x.bytes() + rest) == x,
{
    broadcast use {lemma_le_bytes_len, law_le_value_of_bytes};

    lemma_le_limits();
    assert forall|rest: Seq<u8>| #[trigger] FuseRenameIn::decode(x.bytes() + rest) == x by {
        let s = x.bytes() + rest;
        assert(s.subrange(0, 8) =~= le_bytes(x.newdir as nat, 8));
    }
}

/// Size of a [`FuseDirent`] on the wire.
pub const FUSE_DIRENT_SIZE: usize = 24;

/// The fixed part of a directory entry; the name follows, padded to eight bytes.
#[derive(Debug, Clone, Copy, PartialEq, Eq, Structural)]
pub struct FuseDirent {
    /// Inode number.
    pub ino: u64,
    /// Where to go on after this entry.
    pub off: u64,
    /// Length of the name.
    pub namelen: u32,
    /// File type.
    pub type_: u32,
}

impl FuseDirent {
    /// The record as it stands on the wire.
    pub open spec fn bytes(self) -> Seq<u8> {
        le_bytes(self.ino as nat, 8)
            + le_bytes(self.off as nat, 8)
            + le_bytes(self.namelen as nat, 4)
            + le_bytes(self.type_ as nat, 4)
    }

    /// The record that the bytes at the front of `s` spell.
    pub open spec fn decode(s: Seq<u8>) -> FuseDirent {
        FuseDirent {
            ino: le_value(s.subrange(0, 8)) as u64,
            off: le_value(s.subrange(8, 16)) as u64,
            namelen: le_value(s.subrange(16, 20)) as u32,
            type_: le_value(s.subrange(20, 24)) as u32,
        }
    }

    /// Reads the record at `at`.
    pub fn from_bytes(data: &[u8], at: usize) -> (r: FuseDirent)
        requires
            at + FUSE_DIRENT_SIZE <= data@.len(),
        ensures
            r == FuseDirent::decode(data@.skip(at as int)),
    {
        proof {
            lemma_le_limits();
        }
        let ino: u64 = get_le(data, at, 0, 8);
        let off: u64 = get_le(data, at, 8, 8);
        let namelen: u32 = get_le(data, at, 16, 4) as u32;
        let type_: u32 = get_le(data, at, 20, 4) as u32;
        FuseDirent { ino, off, namelen, type_ }
    }
}

/// Reading a written [`FuseDirent`] gives back the same record, whatever follows it.
pub proof fn law_dirent_round_trip(x: FuseDirent)
    ensures
        x.bytes().len() == FUSE_DIRENT_SIZE,
        forall|rest: Seq<u8>| #[trigger] FuseDirent::decode(x.bytes() + rest) == x,
{
    broadcast use {lemma_le_bytes_len, law_le_value_of_bytes};

    lemma_le_limits();
    assert forall|rest: Seq<u8>| #[trigger] FuseDirent::decode(x.bytes() + rest) == x by {
        let s = x.bytes() + rest;
        assert(s.subrange(0, 8) =~= le_bytes(x.ino as nat, 8));
        assert(s.subrange(8, 16) =~= le_bytes(x.off as nat, 8));
        assert(s.subrange(16, 20) =~= le_bytes(x.namelen as nat, 4));
        assert(s.subrange(20, 24) =~= le_bytes(x.type_ as nat, 4));
    }
}

/// The two's complement bits of a signed number stand for it, and nothing else
/// does: they are the number itself, or the number and 2^32.
pub proof fn law_signed_bits(x: i32, bits: nat)
    ensures
        0 <= i32_bits(x) < 0x1_0000_0000,
        i32_bits(x) == x || i32_bits(x) == x + 0x1_0000_0000,
        bits_i32(i32_bits(x)) == x,
        bits < 0x1_0000_0000 ==> i32_bits(bits_i32(bits)) == bits,
{
}

/// The numbers of the opcodes in the protocol.
pub proof fn law_opcode_numbers()
    ensures
        FuseOpcode::Lookup.number() == 1,
        FuseOpcode::Getattr.number() == 3,
        FuseOpcode::Setattr.number() == 4,
        FuseOpcode::Symlink.number() == 6,
        FuseOpcode::Mkdir.number() == 9,
        FuseOpcode::Unlink.number() == 10,
        FuseOpcode::Rename.number() == 12,
        FuseOpcode::Link.number() == 13,
        FuseOpcode::Read.number() == 15,
        FuseOpcode::Write.number() == 16,
        FuseOpcode::Init.number() == 26,
        FuseOpcode::Readdir.number() == 28,
        FuseOpcode::Create.number() == 35,
{
}

/// Where the fields of a [`FuseInHeader`] stand, as little-endian numbers, when it is
/// written and when it is read.
pub proof fn law_in_header_layout(x: FuseInHeader, s: Seq<u8>)
    ensures
        x.bytes().len() == 40,
        le_value(x.bytes().subrange(0, 4)) == x.len,
        le_value(x.bytes().subrange(4, 8)) == x.opcode,
        le_value(x.bytes().subrange(8, 16)) == x.unique,
        le_value(x.bytes().subrange(16, 24)) == x.nodeid,
        le_value(x.bytes().subrange(24, 28)) == x.uid,
        le_value(x.bytes().subrange(28, 32)) == x.gid,
        le_value(x.bytes().subrange(32, 36)) == x.pid,
        le_value(x.bytes().subrange(36, 40)) == x.padding,
        s.len() >= 40 ==> FuseInHeader::decode(s).len == le_value(s.subrange(0, 4)),
        s.len() >= 40 ==> FuseInHeader::decode(s).opcode == le_value(s.subrange(4, 8)),
        s.len() >= 40 ==> FuseInHeader::decode(s).unique == le_value(s.subrange(8, 16)),
        s.len() >= 40 ==> FuseInHeader::decode(s).nodeid == le_value(s.subrange(16, 24)),
        s.len() >= 40 ==> FuseInHeader::decode(s).uid == le_value(s.subrange(24, 28)),
        s.len() >= 40 ==> FuseInHeader::decode(s).gid == le_value(s.subrange(28, 32)),
        s.len() >= 40 ==> FuseInHeader::decode(s).pid == le_value(s.subrange(32, 36)),
        s.len() >= 40 ==> FuseInHeader::decode(s).padding == le_value(s.subrange(36, 40)),
{
    broadcast use {lemma_le_bytes_len, law_le_value_of_bytes};

    lemma_le_limits();
    assert(x.bytes().subrange(0, 4) =~= le_bytes(x.len as nat, 4));
    assert(x.bytes().subrange(4, 8) =~= le_bytes(x.opcode as nat, 4));
    assert(x.bytes().subrange(8, 16) =~= le_bytes(x.unique as nat, 8));
    assert(x.bytes().subrange(16, 24) =~= le_bytes(x.nodeid as nat, 8));
    assert(x.bytes().subrange(24, 28) =~= le_bytes(x.uid as nat, 4));
    assert(x.bytes().subrange(28, 32) =~= le_bytes(x.gid as nat, 4));
    assert(x.bytes().subrange(32, 36) =~= le_bytes(x.pid as nat, 4));
    assert(x.bytes().subrange(36, 40) =~= le_bytes(x.padding as nat, 4));
    if s.len() >= 40 {
        lemma_le_value_bound(s.subrange(0, 4));
        lemma_le_value_bound(s.subrange(4, 8));
        lemma_le_value_bound(s.subrange(8, 16));
        lemma_le_value_bound(s.subrange(16, 24));
        lemma_le_value_bound(s.subrange(24, 28));
        lemma_le_value_bound(s.subrange(28, 32));
        lemma_le_value_bound(s.subrange(32, 36));
        lemma_le_value_bound(s.subrange(36, 40));
    }
}

/// Where the fields of a [`FuseOutHeader`] stand, as little-endian numbers, when it is
/// written and when it is read.
pub proof fn law_out_header_layout(x: FuseOutHeader, s: Seq<u8>)
    ensures
        x.bytes().len() == 16,
        le_value(x.bytes().subrange(0, 4)) == x.len,
        le_value(x.bytes().subrange(4, 8)) == i32_bits(x.error),
        le_value(x.bytes().subrange(8, 16)) == x.unique,
        s.len() >= 16 ==> FuseOutHeader::decode(s).len == le_value(s.subrange(0, 4)),
        s.len() >= 16 ==> i32_bits(FuseOutHeader::decode(s).error) == le_value(s.subrange(4, 8)),
        s.len() >= 16 ==> FuseOutHeader::decode(s).unique == le_value(s.subrange(8, 16)),
{
    broadcast use {lemma_le_bytes_len, law_le_value_of_bytes};

    lemma_le_limits();
    assert(x.bytes().subrange(0, 4) =~= le_bytes(x.len as nat, 4));
    assert(x.bytes().subrange(4, 8) =~= le_bytes(i32_bits(x.error), 4));
    assert(x.bytes().subrange(8, 16) =~= le_bytes(x.unique as nat, 8));
    if s.len() >= 16 {
        lemma_le_value_bound(s.subrange(0, 4));
        lemma_le_value_bound(s.subrange(4, 8));
        lemma_le_value_bound(s.subrange(8, 16));
    }
}

/// Where the fields of a [`FuseInitIn`] stand, as little-endian numbers, when it is
/// written and when it is read.
pub proof fn law_init_in_layout(x: FuseInitIn, s: Seq<u8>)
    ensures
        x.bytes().len() == 16,
        le_value(x.bytes().subrange(0, 4)) == x.major,
        le_value(x.bytes().subrange(4, 8)) == x.minor,
        le_value(x.bytes().subrange(8, 12)) == x.max_readahead,
        le_value(x.bytes().subrange(12, 16)) == x.flags,
        s.len() >= 16 ==> FuseInitIn::decode(s).major == le_value(s.subrange(0, 4)),
        s.len() >= 16 ==> FuseInitIn::decode(s).minor == le_value(s.subrange(4, 8)),
        s.len() >= 16 ==> FuseInitIn::decode(s).max_readahead == le_value(s.subrange(8, 12)),
        s.len() >= 16 ==> FuseInitIn::decode(s).flags == le_value(s.subrange(12, 16)),
{
    broadcast use {lemma_le_bytes_len, law_le_value_of_bytes};

    lemma_le_limits();
    assert(x.bytes().subrange(0, 4) =~= le_bytes(x.major as nat, 4));
    assert(x.bytes().subrange(4, 8) =~= le_bytes(x.minor as nat, 4));
    assert(x.bytes().subrange(8, 12) =~= le_bytes(x.max_readahead as nat, 4));
    assert(x.bytes().subrange(12, 16) =~= le_bytes(x.flags as nat, 4));
    if s.len() >= 16 {
        lemma_le_value_bound(s.subrange(0, 4));
        lemma_le_value_bound(s.subrange(4, 8));
        lemma_le_value_bound(s.subrange(8, 12));
        lemma_le_value_bound(s.subrange(12, 16));
    }
}

/// Where the fields of a [`FuseInitOut`] stand, as little-endian numbers, when it is
/// written and when it is read.
pub proof fn law_init_out_layout(x: FuseInitOut, s: Seq<u8>)
    ensures
        x.bytes().len() == 64,
        le_value(x.bytes().subrange(0, 4)) == x.major,
        le_value(x.bytes().subrange(4, 8)) == x.minor,
        le_value(x.bytes().subrange(8, 12)) == x.max_readahead,
        le_value(x.bytes().subrange(12, 16)) == x.flags,
        le_value(x.bytes().subrange(16, 18)) == x.max_background,
        le_value(x.bytes().subrange(18, 20)) == x.congestion_threshold,
        le_value(x.bytes().subrange(20, 24)) == x.max_write,
        le_value(x.bytes().subrange(24, 28)) == x.time_gran,
        s.len() >= 64 ==> FuseInitOut::decode(s).major == le_value(s.subrange(0, 4)),
        s.len() >= 64 ==> FuseInitOut::decode(s).minor == le_value(s.subrange(4, 8)),
        s.len() >= 64 ==> FuseInitOut::decode(s).max_readahead == le_value(s.subrange(8, 12)),
        s.len() >= 64 ==> FuseInitOut::decode(s).flags == le_value(s.subrange(12, 16)),
        s.len() >= 64 ==> FuseInitOut::decode(s).max_background == le_value(s.subrange(16, 18)),
        s.len() >= 64 ==> FuseInitOut::decode(s).congestion_threshold == le_value(s.subrange(18, 20)),
        s.len() >= 64 ==> FuseInitOut::decode(s).max_write == le_value(s.subrange(20, 24)),
        s.len() >= 64 ==> FuseInitOut::decode(s).time_gran == le_value(s.subrange(24, 28)),
{
    broadcast use {lemma_le_bytes_len, law_le_value_of_bytes};

    lemma_le_limits();
    assert(x.bytes().subrange(0, 4) =~= le_bytes(x.major as nat, 4));
    assert(x.bytes().subrange(4, 8) =~= le_bytes(x.minor as nat, 4));
    assert(x.bytes().subrange(8, 12) =~= le_bytes(x.max_readahead as nat, 4));
    assert(x.bytes().subrange(12, 16) =~= le_bytes(x.flags as nat, 4));
    assert(x.bytes().subrange(16, 18) =~= le_bytes(x.max_background as nat, 2));
    assert(x.bytes().subrange(18, 20) =~= le_bytes(x.congestion_threshold as nat, 2));
    assert(x.bytes().subrange(20, 24) =~= le_bytes(x.max_write as nat, 4));
    assert(x.bytes().subrange(24, 28) =~= le_bytes(x.time_gran as nat, 4));
    if s.len() >= 64 {
        lemma_le_value_bound(s.subrange(0, 4));
        lemma_le_value_bound(s.subrange(4, 8));
        lemma_le_value_bound(s.subrange(8, 12));
        lemma_le_value_bound(s.subrange(12, 16));
        lemma_le_value_bound(s.subrange(16, 18));
        lemma_le_value_bound(s.subrange(18, 20));
        lemma_le_value_bound(s.subrange(20, 24));
        lemma_le_value_bound(s.subrange(24, 28));
    }
}

/// Where the fields of a [`FuseAttr`] stand, as little-endian numbers, when it is
/// written and when it is read.
pub proof fn law_attr_layout(x: FuseAttr, s: Seq<u8>)
    ensures
        x.bytes().len() == 88,
        le_value(x.bytes().subrange(0, 8)) == x.ino,
        le_value(x.bytes().subrange(8, 16)) == x.size,
        le_value(x.bytes().subrange(16, 24)) == x.blocks,
        le_value(x.bytes().subrange(24, 32)) == x.atime,
        le_value(x.bytes().subrange(32, 40)) == x.mtime,
        le_value(x.bytes().subrange(40, 48)) == x.ctime,
        le_value(x.bytes().subrange(48, 52)) == x.atimensec,
        le_value(x.bytes().subrange(52, 56)) == x.mtimensec,
        le_value(x.bytes().subrange(56, 60)) == x.ctimensec,
        le_value(x.bytes().subrange(60, 64)) == x.mode,
        le_value(x.bytes().subrange(64, 68)) == x.nlink,
        le_value(x.bytes().subrange(68, 72)) == x.uid,
        le_value(x.bytes().subrange(72, 76)) == x.gid,
        le_value(x.bytes().subrange(76, 80)) == x.rdev,
        le_value(x.bytes().subrange(80, 84)) == x.blksize,
        le_value(x.bytes().subrange(84, 88)) == x.padding,
        s.len() >= 88 ==> FuseAttr::decode(s).ino == le_value(s.subrange(0, 8)),
        s.len() >= 88 ==> FuseAttr::decode(s).size == le_value(s.subrange(8, 16)),
        s.len() >= 88 ==> FuseAttr::decode(s).blocks == le_value(s.subrange(16, 24)),
        s.len() >= 88 ==> FuseAttr::decode(s).atime == le_value(s.subrange(24, 32)),
        s.len() >= 88 ==> FuseAttr::decode(s).mtime == le_value(s.subrange(32, 40)),
        s.len() >= 88 ==> FuseAttr::decode(s).ctime == le_value(s.subrange(40, 48)),
        s.len() >= 88 ==> FuseAttr::decode(s).atimensec == le_value(s.subrange(48, 52)),
        s.len() >= 88 ==> FuseAttr::decode(s).mtimensec == le_value(s.subrange(52, 56)),
        s.len() >= 88 ==> FuseAttr::decode(s).ctimensec == le_value(s.subrange(56, 60)),
        s.len() >= 88 ==> FuseAttr::decode(s).mode == le_value(s.subrange(60, 64)),
        s.len() >= 88 ==> FuseAttr::decode(s).nlink == le_value(s.subrange(64, 68)),
        s.len() >= 88 ==> FuseAttr::decode(s).uid == le_value(s.subrange(68, 72)),
        s.len() >= 88 ==> FuseAttr::decode(s).gid == le_value(s.subrange(72, 76)),
        s.len() >= 88 ==> FuseAttr::decode(s).rdev == le_value(s.subrange(76, 80)),
        s.len() >= 88 ==> FuseAttr::decode(s).blksize == le_value(s.subrange(80, 84)),
        s.len() >= 88 ==> FuseAttr::decode(s).padding == le_value(s.subrange(84, 88)),
{
    broadcast use {lemma_le_bytes_len, law_le_value_of_bytes};

    lemma_le_limits();
    assert(x.bytes().subrange(0, 8) =~= le_bytes(x.ino as nat, 8));
    assert(x.bytes().subrange(8, 16) =~= le_bytes(x.size as nat, 8));
    assert(x.bytes().subrange(16, 24) =~= le_bytes(x.blocks as nat, 8));
    assert(x.bytes().subrange(24, 32) =~= le_bytes(x.atime as nat, 8));
    assert(x.bytes().subrange(32, 40) =~= le_bytes(x.mtime as nat, 8));
    assert(x.bytes().subrange(40, 48) =~= le_bytes(x.ctime as nat, 8));
    assert(x.bytes().subrange(48, 52) =~= le_bytes(x.atimensec as nat, 4));
    assert(x.bytes().subrange(52, 56) =~= le_bytes(x.mtimensec as nat, 4));
    assert(x.bytes().subrange(56, 60) =~= le_bytes(x.ctimensec as nat, 4));
    assert(x.bytes().subrange(60, 64) =~= le_bytes(x.mode as nat, 4));
    assert(x.bytes().subrange(64, 68) =~= le_bytes(x.nlink as nat, 4));
    assert(x.bytes().subrange(68, 72) =~= le_bytes(x.uid as nat, 4));
    assert(x.bytes().subrange(72, 76) =~= le_bytes(x.gid as nat, 4));
    assert(x.bytes().subrange(76, 80) =~= le_bytes(x.rdev as nat, 4));
    assert(x.bytes().subrange(80, 84) =~= le_bytes(x.blksize as nat, 4));
    assert(x.bytes().subrange(84, 88) =~= le_bytes(x.padding as nat, 4));
    if s.len() >= 88 {
        lemma_le_value_bound(s.subrange(0, 8));
        lemma_le_value_bound(s.subrange(8, 16));
        lemma_le_value_bound(s.subrange(16, 24));
        lemma_le_value_bound(s.subrange(24, 32));
        lemma_le_value_bound(s.subrange(32, 40));
        lemma_le_value_bound(s.subrange(40, 48));
        lemma_le_value_bound(s.subrange(48, 52));
        lemma_le_value_bound(s.subrange(52, 56));
        lemma_le_value_bound(s.subrange(56, 60));
        lemma_le_value_bound(s.subrange(60, 64));
        lemma_le_value_bound(s.subrange(64, 68));
        lemma_le_value_bound(s.subrange(68, 72));
        lemma_le_value_bound(s.subrange(72, 76));
        lemma_le_value_bound(s.subrange(76, 80));
        lemma_le_value_bound(s.subrange(80, 84));
        lemma_le_value_bound(s.subrange(84, 88));
    }
}

/// Where the fields of a [`FuseAttrOut`] stand, as little-endian numbers, when it is
/// written and when it is read.
pub proof fn law_attr_out_layout(x: FuseAttrOut, s: Seq<u8>)
    ensures
        x.bytes().len() == 104,
        le_value(x.bytes().subrange(0, 8)) == x.attr_valid,
        le_value(x.bytes().subrange(8, 12)) == x.attr_valid_nsec,
        le_value(x.bytes().subrange(12, 16)) == x.dummy,
        x.bytes().skip(16) == x.attr.bytes(),
        s.len() >= 104 ==> FuseAttrOut::decode(s).attr_valid == le_value(s.subrange(0, 8)),
        s.len() >= 104 ==> FuseAttrOut::decode(s).attr_valid_nsec == le_value(s.subrange(8, 12)),
        s.len() >= 104 ==> FuseAttrOut::decode(s).dummy == le_value(s.subrange(12, 16)),
        s.len() >= 104 ==> FuseAttrOut::decode(s).attr == FuseAttr::decode(s.skip(16)),
{
    broadcast use {lemma_le_bytes_len, law_le_value_of_bytes};

    lemma_le_limits();
    law_attr_round_trip(x.attr);
    assert(x.bytes().subrange(0, 8) =~= le_bytes(x.attr_valid as nat, 8));
    assert(x.bytes().subrange(8, 12) =~= le_bytes(x.attr_valid_nsec as nat, 4));
    assert(x.bytes().subrange(12, 16) =~= le_bytes(x.dummy as nat, 4));
    assert(x.bytes().skip(16) =~= x.attr.bytes());
    if s.len() >= 104 {
        lemma_le_value_bound(s.subrange(0, 8));
        lemma_le_value_bound(s.subrange(8, 12));
        lemma_le_value_bound(s.subrange(12, 16));
    }
}

/// Where the fields of a [`FuseEntryOut`] stand, as little-endian numbers, when it is
/// written and when it is read.
pub proof fn law_entry_out_layout(x: FuseEntryOut, s: Seq<u8>)
    ensures
        x.bytes().len() == 128,
        le_value(x.bytes().subrange(0, 8)) == x.nodeid,
        le_value(x.bytes().subrange(8, 16)) == x.generation,
        le_value(x.bytes().subrange(16, 24)) == x.entry_valid,
        le_value(x.bytes().subrange(24, 32)) == x.attr_valid,
        le_value(x.bytes().subrange(32, 36)) == x.entry_valid_nsec,
        le_value(x.bytes().subrange(36, 40)) == x.attr_valid_nsec,
        x.bytes().skip(40) == x.attr.bytes(),
        s.len() >= 128 ==> FuseEntryOut::decode(s).nodeid == le_value(s.subrange(0, 8)),
        s.len() >= 128 ==> FuseEntryOut::decode(s).generation == le_value(s.subrange(8, 16)),
        s.len() >= 128 ==> FuseEntryOut::decode(s).entry_valid == le_value(s.subrange(16, 24)),
        s.len() >= 128 ==> FuseEntryOut::decode(s).attr_valid == le_value(s.subrange(24, 32)),
        s.len() >= 128 ==> FuseEntryOut::decode(s).entry_valid_nsec == le_value(s.subrange(32, 36)),
        s.len() >= 128 ==> FuseEntryOut::decode(s).attr_valid_nsec == le_value(s.subrange(36, 40)),
        s.len() >= 128 ==> FuseEntryOut::decode(s).attr == FuseAttr::decode(s.skip(40)),
{
    broadcast use {lemma_le_bytes_len, law_le_value_of_bytes};

    lemma_le_limits();
    law_attr_round_trip(x.attr);
    assert(x.bytes().subrange(0, 8) =~= le_bytes(x.nodeid as nat, 8));
    assert(x.bytes().subrange(8, 16) =~= le_bytes(x.generation as nat, 8));
    assert(x.bytes().subrange(16, 24) =~= le_bytes(x.entry_valid as nat, 8));
    assert(x.bytes().subrange(24, 32) =~= le_bytes(x.attr_valid as nat, 8));
    assert(x.bytes().subrange(32, 36) =~= le_bytes(x.entry_valid_nsec as nat, 4));
    assert(x.bytes().subrange(36, 40) =~= le_bytes(x.attr_valid_nsec as nat, 4));
    assert(x.bytes().skip(40) =~= x.attr.bytes());
    if s.len() >= 128 {
        lemma_le_value_bound(s.subrange(0, 8));
        lemma_le_value_bound(s.subrange(8, 16));
        lemma_le_value_bound(s.subrange(16, 24));
        lemma_le_value_bound(s.subrange(24, 32));
        lemma_le_value_bound(s.subrange(32, 36));
        lemma_le_value_bound(s.subrange(36, 40));
    }
}

/// Where the fields of a [`FuseReadIn`] stand, as little-endian numbers, when it is
/// written and when it is read.
pub proof fn law_read_in_layout(x: FuseReadIn, s: Seq<u8>)
    ensures
        x.bytes().len() == 40,
        le_value(x.bytes().subrange(0, 8)) == x.fh,
        le_value(x.bytes().subrange(8, 16)) == x.offset,
        le_value(x.bytes().subrange(16, 20)) == x.size,
        le_value(x.bytes().subrange(20, 24)) == x.read_flags,
        le_value(x.bytes().subrange(24, 32)) == x.lock_owner,
        le_value(x.bytes().subrange(32, 36)) == x.flags,
        le_value(x.bytes().subrange(36, 40)) == x.padding,
        s.len() >= 40 ==> FuseReadIn::decode(s).fh == le_value(s.subrange(0, 8)),
        s.len() >= 40 ==> FuseReadIn::decode(s).offset == le_value(s.subrange(8, 16)),
        s.len() >= 40 ==> FuseReadIn::decode(s).size == le_value(s.subrange(16, 20)),
        s.len() >= 40 ==> FuseReadIn::decode(s).read_flags == le_value(s.subrange(20, 24)),
        s.len() >= 40 ==> FuseReadIn::decode(s).lock_owner == le_value(s.subrange(24, 32)),
        s.len() >= 40 ==> FuseReadIn::decode(s).flags == le_value(s.subrange(32, 36)),
        s.len() >= 40 ==> FuseReadIn::decode(s).padding == le_value(s.subrange(36, 40)),
{
    broadcast use {lemma_le_bytes_len, law_le_value_of_bytes};

    lemma_le_limits();
    assert(x.bytes().subrange(0, 8) =~= le_bytes(x.fh as nat, 8));
    assert(x.bytes().subrange(8, 16) =~= le_bytes(x.offset as nat, 8));
    assert(x.bytes().subrange(16, 20) =~= le_bytes(x.size as nat, 4));
    assert(x.bytes().subrange(20, 24) =~= le_bytes(x.read_flags as nat, 4));
    assert(x.bytes().subrange(24, 32) =~= le_bytes(x.lock_owner as nat, 8));
    assert(x.bytes().subrange(32, 36) =~= le_bytes(x.flags as nat, 4));
    assert(x.bytes().subrange(36, 40) =~= le_bytes(x.padding as nat, 4));
    if s.len() >= 40 {
        lemma_le_value_bound(s.subrange(0, 8));
        lemma_le_value_bound(s.subrange(8, 16));
        lemma_le_value_bound(s.subrange(16, 20));
        lemma_le_value_bound(s.subrange(20, 24));
        lemma_le_value_bound(s.subrange(24, 32));
        lemma_le_value_bound(s.subrange(32, 36));
        lemma_le_value_bound(s.subrange(36, 40));
    }
}

/// Where the fields of a [`FuseWriteIn`] stand, as little-endian numbers, when it is
/// written and when it is read.
pub proof fn law_write_in_layout(x: FuseWriteIn, s: Seq<u8>)
    ensures
        x.bytes().len() == 40,
        le_value(x.bytes().subrange(0, 8)) == x.fh,
        le_value(x.bytes().subrange(8, 16)) == x.offset,
        le_value(x.bytes().subrange(16, 20)) == x.size,
        le_value(x.bytes().subrange(20, 24)) == x.write_flags,
        le_value(x.bytes().subrange(24, 32)) == x.lock_owner,
        le_value(x.bytes().subrange(32, 36)) == x.flags,
        le_value(x.bytes().subrange(36, 40)) == x.padding,
        s.len() >= 40 ==> FuseWriteIn::decode(s).fh == le_value(s.subrange(0, 8)),
        s.len() >= 40 ==> FuseWriteIn::decode(s).offset == le_value(s.subrange(8, 16)),
        s.len() >= 40 ==> FuseWriteIn::decode(s).size == le_value(s.subrange(16, 20)),
        s.len() >= 40 ==> FuseWriteIn::decode(s).write_flags == le_value(s.subrange(20, 24)),
        s.len() >= 40 ==> FuseWriteIn::decode(s).lock_owner == le_value(s.subrange(24, 32)),
        s.len() >= 40 ==> FuseWriteIn::decode(s).flags == le_value(s.subrange(32, 36)),
        s.len() >= 40 ==> FuseWriteIn::decode(s).padding == le_value(s.subrange(36, 40)),
{
    broadcast use {lemma_le_bytes_len, law_le_value_of_bytes};

    lemma_le_limits();
    assert(x.bytes().subrange(0, 8) =~= le_bytes(x.fh as nat, 8));
    assert(x.bytes().subrange(8, 16) =~= le_bytes(x.offset as nat, 8));
    assert(x.bytes().subrange(16, 20) =~= le_bytes(x.size as nat, 4));
    assert(x.bytes().subrange(20, 24) =~= le_bytes(x.write_flags as nat, 4));
    assert(x.bytes().subrange(24, 32) =~= le_bytes(x.lock_owner as nat, 8));
    assert(x.bytes().subrange(32, 36) =~= le_bytes(x.flags as nat, 4));
    assert(x.bytes().subrange(36, 40) =~= le_bytes(x.padding as nat, 4));
    if s.len() >= 40 {
        lemma_le_value_bound(s.subrange(0, 8));
        lemma_le_value_bound(s.subrange(8, 16));
        lemma_le_value_bound(s.subrange(16, 20));
        lemma_le_value_bound(s.subrange(20, 24));
        lemma_le_value_bound(s.subrange(24, 32));
        lemma_le_value_bound(s.subrange(32, 36));
        lemma_le_value_bound(s.subrange(36, 40));
    }
}

/// Where the fields of a [`FuseWriteOut`] stand, as little-endian numbers, when it is
/// written and when it is read.
pub proof fn law_write_out_layout(x: FuseWriteOut, s: Seq<u8>)
    ensures
        x.bytes().len() == 8,
        le_value(x.bytes().subrange(0, 4)) == x.size,
        le_value(x.bytes().subrange(4, 8)) == x.padding,
        s.len() >= 8 ==> FuseWriteOut::decode(s).size == le_value(s.subrange(0, 4)),
        s.len() >= 8 ==> FuseWriteOut::decode(s).padding == le_value(s.subrange(4, 8)),
{
    broadcast use {lemma_le_bytes_len, law_le_value_of_bytes};

    lemma_le_limits();
    assert(x.bytes().subrange(0, 4) =~= le_bytes(x.size as nat, 4));
    assert(x.bytes().subrange(4, 8) =~= le_bytes(x.padding as nat, 4));
    if s.len() >= 8 {
        lemma_le_value_bound(s.subrange(0, 4));
        lemma_le_value_bound(s.subrange(4, 8));
    }
}

/// Where the fields of a [`FuseCreateIn`] stand, as little-endian numbers, when it is
/// written and when it is read.
pub proof fn law_create_in_layout(x: FuseCreateIn, s: Seq<u8>)
    ensures
        x.bytes().len() == 16,
        le_value(x.bytes().subrange(0, 4)) == x.flags,
        le_value(x.bytes().subrange(4, 8)) == x.mode,
        le_value(x.bytes().subrange(8, 12)) == x.umask,
        le_value(x.bytes().subrange(12, 16)) == x.padding,
        s.len() >= 16 ==> FuseCreateIn::decode(s).flags == le_value(s.subrange(0, 4)),
        s.len() >= 16 ==> FuseCreateIn::decode(s).mode == le_value(s.subrange(4, 8)),
        s.len() >= 16 ==> FuseCreateIn::decode(s).umask == le_value(s.subrange(8, 12)),
        s.len() >= 16 ==> FuseCreateIn::decode(s).padding == le_value(s.subrange(12, 16)),
{
    broadcast use {lemma_le_bytes_len, law_le_value_of_bytes};

    lemma_le_limits();
    assert(x.bytes().subrange(0, 4) =~= le_bytes(x.flags as nat, 4));
    assert(x.bytes().subrange(4, 8) =~= le_bytes(x.mode as nat, 4));
    assert(x.bytes().subrange(8, 12) =~= le_bytes(x.umask as nat, 4));
    assert(x.bytes().subrange(12, 16) =~= le_bytes(x.padding as nat, 4));
    if s.len() >= 16 {
        lemma_le_value_bound(s.subrange(0, 4));
        lemma_le_value_bound(s.subrange(4, 8));
        lemma_le_value_bound(s.subrange(8, 12));
        lemma_le_value_bound(s.subrange(12, 16));
    }
}

/// Where the fields of a [`FuseMkdirIn`] stand, as little-endian numbers, when it is
/// written and when it is read.
pub proof fn law_mkdir_in_layout(x: FuseMkdirIn, s: Seq<u8>)
    ensures
        x.bytes().len() == 8,
        le_value(x.bytes().subrange(0, 4)) == x.mode,
        le_value(x.bytes().subrange(4, 8)) == x.umask,
        s.len() >= 8 ==> FuseMkdirIn::decode(s).mode == le_value(s.subrange(0, 4)),
        s.len() >= 8 ==> FuseMkdirIn::decode(s).umask == le_value(s.subrange(4, 8)),
{
    broadcast use {lemma_le_bytes_len, law_le_value_of_bytes};

    lemma_le_limits();
    assert(x.bytes().subrange(0, 4) =~= le_bytes(x.mode as nat, 4));
    assert(x.bytes().subrange(4, 8) =~= le_bytes(x.umask as nat, 4));
    if s.len() >= 8 {
        lemma_le_value_bound(s.subrange(0, 4));
        lemma_le_value_bound(s.subrange(4, 8));
    }
}

/// Where the fields of a [`FuseSetattrIn`] stand, as little-endian numbers, when it is
/// written and when it is read.
pub proof fn law_setattr_in_layout(x: FuseSetattrIn, s: Seq<u8>)
    ensures
        x.bytes().len() == 88,
        le_value(x.bytes().subrange(0, 4)) == x.valid,
        le_value(x.bytes().subrange(4, 8)) == x.padding,
        le_value(x.bytes().subrange(8, 16)) == x.fh,
        le_value(x.bytes().subrange(16, 24)) == x.size,
        le_value(x.bytes().subrange(24, 32)) == x.lock_owner,
        le_value(x.bytes().subrange(32, 40)) == x.atime,
        le_value(x.bytes().subrange(40, 48)) == x.mtime,
        le_value(x.bytes().subrange(48, 56)) == x.ctime,
        le_value(x.bytes().subrange(56, 60)) == x.atimensec,
        le_value(x.bytes().subrange(60, 64)) == x.mtimensec,
        le_value(x.bytes().subrange(64, 68)) == x.ctimensec,
        le_value(x.bytes().subrange(68, 72)) == x.mode,
        le_value(x.bytes().subrange(72, 76)) == x.unused4,
        le_value(x.bytes().subrange(76, 80)) == x.uid,
        le_value(x.bytes().subrange(80, 84)) == x.gid,
        le_value(x.bytes().subrange(84, 88)) == x.unused5,
        s.len() >= 88 ==> FuseSetattrIn::decode(s).valid == le_value(s.subrange(0, 4)),
        s.len() >= 88 ==> FuseSetattrIn::decode(s).padding == le_value(s.subrange(4, 8)),
        s.len() >= 88 ==> FuseSetattrIn::decode(s).fh == le_value(s.subrange(8, 16)),
        s.len() >= 88 ==> FuseSetattrIn::decode(s).size == le_value(s.subrange(16, 24)),
        s.len() >= 88 ==> FuseSetattrIn::decode(s).lock_owner == le_value(s.subrange(24, 32)),
        s.len() >= 88 ==> FuseSetattrIn::decode(s).atime == le_value(s.subrange(32, 40)),
        s.len() >= 88 ==> FuseSetattrIn::decode(s).mtime == le_value(s.subrange(40, 48)),
        s.len() >= 88 ==> FuseSetattrIn::decode(s).ctime == le_value(s.subrange(48, 56)),
        s.len() >= 88 ==> FuseSetattrIn::decode(s).atimensec == le_value(s.subrange(56, 60)),
        s.len() >= 88 ==> FuseSetattrIn::decode(s).mtimensec == le_value(s.subrange(60, 64)),
        s.len() >= 88 ==> FuseSetattrIn::decode(s).ctimensec == le_value(s.subrange(64, 68)),
        s.len() >= 88 ==> FuseSetattrIn::decode(s).mode == le_value(s.subrange(68, 72)),
        s.len() >= 88 ==> FuseSetattrIn::decode(s).unused4 == le_value(s.subrange(72, 76)),
        s.len() >= 88 ==> FuseSetattrIn::decode(s).uid == le_value(s.subrange(76, 80)),
        s.len() >= 88 ==> FuseSetattrIn::decode(s).gid == le_value(s.subrange(80, 84)),
        s.len() >= 88 ==> FuseSetattrIn::decode(s).unused5 == le_value(s.subrange(84, 88)),
{
    broadcast use {lemma_le_bytes_len, law_le_value_of_bytes};

    lemma_le_limits();
    assert(x.bytes().subrange(0, 4) =~= le_bytes(x.valid as nat, 4));
    assert(x.bytes().subrange(4, 8) =~= le_bytes(x.padding as nat, 4));
    assert(x.bytes().subrange(8, 16) =~= le_bytes(x.fh as nat, 8));
    assert(x.bytes().subrange(16, 24) =~= le_bytes(x.size as nat, 8));
    assert(x.bytes().subrange(24, 32) =~= le_bytes(x.lock_owner as nat, 8));
    assert(x.bytes().subrange(32, 40) =~= le_bytes(x.atime as nat, 8));
    assert(x.bytes().subrange(40, 48) =~= le_bytes(x.mtime as nat, 8));
    assert(x.bytes().subrange(48, 56) =~= le_bytes(x.ctime as nat, 8));
    assert(x.bytes().subrange(56, 60) =~= le_bytes(x.atimensec as nat, 4));
    assert(x.bytes().subrange(60, 64) =~= le_bytes(x.mtimensec as nat, 4));
    assert(x.bytes().subrange(64, 68) =~= le_bytes(x.ctimensec as nat, 4));
    assert(x.bytes().subrange(68, 72) =~= le_bytes(x.mode as nat, 4));
    assert(x.bytes().subrange(72, 76) =~= le_bytes(x.unused4 as nat, 4));
    assert(x.bytes().subrange(76, 80) =~= le_bytes(x.uid as nat, 4));
    assert(x.bytes().subrange(80, 84) =~= le_bytes(x.gid as nat, 4));
    assert(x.bytes().subrange(84, 88) =~= le_bytes(x.unused5 as nat, 4));
    if s.len() >= 88 {
        lemma_le_value_bound(s.subrange(0, 4));
        lemma_le_value_bound(s.subrange(4, 8));
        lemma_le_value_bound(s.subrange(8, 16));
        lemma_le_value_bound(s.subrange(16, 24));
        lemma_le_value_bound(s.subrange(24, 32));
        lemma_le_value_bound(s.subrange(32, 40));
        lemma_le_value_bound(s.subrange(40, 48));
        lemma_le_value_bound(s.subrange(48, 56));
        lemma_le_value_bound(s.subrange(56, 60));
        lemma_le_value_bound(s.subrange(60, 64));
        lemma_le_value_bound(s.subrange(64, 68));
        lemma_le_value_bound(s.subrange(68, 72));
        lemma_le_value_bound(s.subrange(72, 76));
        lemma_le_value_bound(s.subrange(76, 80));
        lemma_le_value_bound(s.subrange(80, 84));
        lemma_le_value_bound(s.subrange(84, 88));
    }
}

/// Where the fields of a [`FuseLinkIn`] stand, as little-endian numbers, when it is
/// written and when it is read.
pub proof fn law_link_in_layout(x: FuseLinkIn, s: Seq<u8>)
    ensures
        x.bytes().len() == 8,
        le_value(x.bytes().subrange(0, 8)) == x.oldnodeid,
        s.len() >= 8 ==> FuseLinkIn::decode(s).oldnodeid == le_value(s.subrange(0, 8)),
{
    broadcast use {lemma_le_bytes_len, law_le_value_of_bytes};

    lemma_le_limits();
    assert(x.bytes().subrange(0, 8) =~= le_bytes(x.oldnodeid as nat, 8));
    if s.len() >= 8 {
        lemma_le_value_bound(s.subrange(0, 8));
    }
}

/// Where the fields of a [`FuseRenameIn`] stand, as little-endian numbers, when it is
/// written and when it is read.
pub proof fn law_rename_in_layout(x: FuseRenameIn, s: Seq<u8>)
    ensures
        x.bytes().len() == 8,
        le_value(x.bytes().subrange(0, 8)) == x.newdir,
        s.len() >= 8 ==> FuseRenameIn::decode(s).newdir == le_value(s.subrange(0, 8)),
{
    broadcast use {lemma_le_bytes_len, law_le_value_of_bytes};

    lemma_le_limits();
    assert(x.bytes().subrange(0, 8) =~= le_bytes(x.newdir as nat, 8));
    if s.len() >= 8 {
        lemma_le_value_bound(s.subrange(0, 8));
    }
}

/// Where the fields of a [`FuseDirent`] stand, as little-endian numbers, when it is
/// written and when it is read.
pub proof fn law_dirent_layout(x: FuseDirent, s: Seq<u8>)
    ensures
        x.bytes().len() == 24,
        le_value(x.bytes().subrange(0, 8)) == x.ino,
        le_value(x.bytes().subrange(8, 16)) == x.off,
        le_value(x.bytes().subrange(16, 20)) == x.namelen,
        le_value(x.bytes().subrange(20, 24)) == x.type_,
        s.len() >= 24 ==> FuseDirent::decode(s).ino == le_value(s.subrange(0, 8)),
        s.len() >= 24 ==> FuseDirent::decode(s).off == le_value(s.subrange(8, 16)),
        s.len() >= 24 ==> FuseDirent::decode(s).namelen == le_value(s.subrange(16, 20)),
        s.len() >= 24 ==> FuseDirent::decode(s).type_ == le_value(s.subrange(20, 24)),
{
    broadcast use {lemma_le_bytes_len, law_le_value_of_bytes};

    lemma_le_limits();
    assert(x.bytes().subrange(0, 8) =~= le_bytes(x.ino as nat, 8));
    assert(x.bytes().subrange(8, 16) =~= le_bytes(x.off as nat, 8));
    assert(x.bytes().subrange(16, 20) =~= le_bytes(x.namelen as nat, 4));
    assert(x.bytes().subrange(20, 24) =~= le_bytes(x.type_ as nat, 4));
    if s.len() >= 24 {
        lemma_le_value_bound(s.subrange(0, 8));
        lemma_le_value_bound(s.subrange(8, 16));
        lemma_le_value_bound(s.subrange(16, 20));
        lemma_le_value_bound(s.subrange(20, 24));
    }
}

} // verus!
