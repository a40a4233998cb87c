//! What is known of a file or directory.
use vstd::prelude::*;

use axfs_ng_vfs::{DeviceId, NodePermission};

verus! {

/// What a node is.
#[derive(Debug, Clone, Copy, PartialEq, Eq, Structural)]
pub enum NodeType {
    /// Nothing is known of it.
    Unknown,
    /// A named pipe.
    Fifo,
    /// A character device.
    CharacterDevice,
    /// A directory.
    Directory,
    /// A block device.
    BlockDevice,
    /// A regular file.
    RegularFile,
    /// A symbolic link.
    Symlink,
    /// A socket.
    Socket,
}

/// Nanoseconds in a second.
pub const NANOS_PER_SEC: u32 = 1_000_000_000;

/// A point in time, counted from the epoch.
#[derive(Debug, Clone, Copy, PartialEq, Eq, Structural)]
pub struct Timestamp {
    /// Whole seconds.
    pub secs: u64,
    /// Nanoseconds into the second.
    pub nanos: u32,
}

impl Timestamp {
    /// The nanoseconds are less than a second.
    pub open spec fn wf(self) -> bool {
        self.nanos < NANOS_PER_SEC
    }

    /// Nanoseconds since the epoch.
    pub open spec fn total(self) -> int {
        self.secs * NANOS_PER_SEC + self.nanos
    }

    /// The time can be told in seconds and less than a second of nanoseconds.
    pub open spec fn fits(secs: u64, nanos: u32) -> bool {
        secs + nanos / NANOS_PER_SEC <= u64::MAX
    }

    /// A point in time, with whole seconds of nanoseconds carried over.
    pub fn new(secs: u64, nanos: u32) -> (time: Timestamp)
        requires
            Timestamp::fits(secs, nanos),
        ensures
            time.wf(),
            time.secs == secs + nanos / NANOS_PER_SEC,
            time.nanos == nanos % NANOS_PER_SEC,
            time.total() == secs * NANOS_PER_SEC + nanos,
    {
        Timestamp { secs: secs + (nanos / NANOS_PER_SEC) as u64, nanos: nanos % NANOS_PER_SEC }
    }
}

/// What is known of a node.
#[derive(Debug, Clone, Copy, PartialEq, Eq, Structural)]
pub struct Metadata {
    /// The device that holds the node.
    pub device: u64,
    /// Inode number.
    pub inode: u64,
    /// Number of names.
    pub nlink: u64,
    /// Permission bits.
    pub mode: u16,
    /// What the node is.
    pub node_type: NodeType,
    /// Owner.
    pub uid: u32,
    /// Group.
    pub gid: u32,
    /// Size in bytes.
    pub size: u64,
    /// Block size.
    pub block_size: u64,
    /// Number of blocks.
    pub blocks: u64,
    /// For a device, its number.
    pub rdev: u64,
    /// Last access.
    pub atime: Timestamp,
    /// Last modification.
    pub mtime: Timestamp,
    /// Last change.
    pub ctime: Timestamp,
}

/// Changes to make to what is known of a node.
#[derive(Debug, Clone, Copy, PartialEq, Eq)]
pub struct MetadataUpdate {
    /// New permission bits.
    pub mode: Option<u16>,
    /// New owner and group.
    pub owner: Option<(u32, u32)>,
    /// New time of last access.
    pub atime: Option<Timestamp>,
    /// New time of last modification.
    pub mtime: Option<Timestamp>,
}

/// `axfs_ng_vfs::NodePermission::from_bits_truncate`, by the bits it keeps:
/// those of the twelve permission bits that are set.
#[verifier::external_body]
pub(crate) fn permission_bits(bits: u16) -> (kept: u16)
    ensures
        kept == bits & 0o7777,
{
    NodePermission::from_bits_truncate(bits).bits()
}

/// The number of a device with these two parts: the low eight bits of the
/// minor number, the low twelve of the major number, the rest of the minor
/// number, and the rest of the major number, from the lowest bit up.
pub open spec fn device_number(major: u32, minor: u32) -> u64 {
    ((major as u64 & 0xffff_f000) << 32) | ((major as u64 & 0xfff) << 8) | ((minor as u64
        & 0xffff_ff00) << 12) | (minor as u64 & 0xff)
}

/// `axfs_ng_vfs::DeviceId::new`, by the number of the device it gives.
#[verifier::external_body]
pub(crate) fn device_id(major: u32, minor: u32) -> (number: u64)
    ensures
        number == device_number(major, minor),
{
    DeviceId::new(major, minor).0
}

/// The number of a device gives its two parts back, whatever they are. With
/// parts as small as those of most devices it is simply one after the other.
pub proof fn law_device_number(major: u32, minor: u32)
    ensures
        ((device_number(major, minor) >> 8) & 0xfff) | ((device_number(major, minor) >> 32)
            & 0xffff_f000) == major,
        (device_number(major, minor) & 0xff) | ((device_number(major, minor) >> 12) & 0xffff_ff00)
            == minor,
        major < 0x1000 && minor < 0x100 ==> device_number(major, minor) == 0x100 * major + minor,
{
    let n = device_number(major, minor);
    assert(((n >> 8) & 0xfff) | ((n >> 32) & 0xffff_f000) == major && (n & 0xff) | ((n >> 12)
        & 0xffff_ff00) == minor && (major < 0x1000 && minor < 0x100 ==> n == 0x100 * major
        + minor)) by (bit_vector)
        requires
            n == ((major as u64 & 0xffff_f000) << 32) | ((major as u64 & 0xfff) << 8) | ((
            minor as u64 & 0xffff_ff00) << 12) | (minor as u64 & 0xff),
    ;
}

} // verus!
