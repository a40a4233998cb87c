//! The FUSE filesystem: how operations on files and directories become
//! requests to the daemon, and how its replies become results.
//!
//! An operation that needs the daemon comes in two halves. The first builds
//! the [`FuseCall`] to make; [`FuseFs::send_request`] queues it and
//! [`FuseFs::await_reply`] is called until it gives the outcome. The second
//! half turns that outcome into the result of the operation.
use vstd::prelude::*;
use vstd::string::*;
use vstd::utf8::*;

use crate::abi::{FuseAttr, FuseAttrOut, FuseCreateIn, FuseEntryOut, FuseLinkIn, FuseReadIn};
use crate::abi::{FuseInHeader, FuseInitIn, FuseInitOut, FuseOpcode, FuseOutHeader};
use crate::abi::{law_attr_out_round_trip, law_create_in_round_trip, law_entry_out_round_trip};
use crate::abi::{law_init_in_round_trip, law_link_in_round_trip, law_mkdir_in_round_trip};
use crate::abi::{law_read_in_round_trip, law_rename_in_round_trip, law_setattr_in_round_trip};
use crate::abi::law_write_in_round_trip;
use crate::abi::FATTR_SIZE;
use crate::abi::{FuseMkdirIn, FuseRenameIn, FuseSetattrIn, FuseWriteIn, FuseWriteOut};
use crate::abi::{FUSE_ATTR_OUT_SIZE, FUSE_ENTRY_OUT_SIZE, FUSE_OPEN_OUT_SIZE, FUSE_WRITE_OUT_SIZE};
use crate::abi::{FUSE_INIT_OUT_SIZE, FUSE_IN_HEADER_SIZE, FUSE_ROOT_ID};
use crate::abi::{FUSE_KERNEL_MINOR_VERSION, FUSE_KERNEL_VERSION};
use crate::dev::{after_reads, law_daemon_reads_what_was_sent, law_first_in_first_out};
use crate::dev::{copy_at, overwritten};
use crate::dev::{FuseConnection, FuseRequest, IoEvents, RequestView, StateView};
use crate::dirent::{all_fit, items, listing_bytes, DirListing, WrittenEntry};
use crate::error::{errno_error, error_of_errno, law_errors_by_number, VfsError, VfsResult};
use crate::node::{permission_bits, Metadata, MetadataUpdate, NodeType, Timestamp, NANOS_PER_SEC};
use crate::text::{lemma_encoding_injective, lemma_no_zero_byte};

verus! {

/// How often an unanswered request is looked at again before it is given up.
pub const MAX_RETRIES: u32 = 50_000;

/// What identifies a FUSE filesystem in its statistics.
pub const FUSE_SUPER_MAGIC: u64 = 0x6573_7566;

/// A request to make of the daemon.
#[derive(Debug, PartialEq, Eq)]
pub struct FuseCall {
    /// What is asked.
    pub opcode: FuseOpcode,
    /// The node that the request is about.
    pub nodeid: u64,
    /// The arguments.
    pub in_data: Vec<u8>,
}

/// A queued request that has no outcome yet.
#[derive(Debug, Clone, Copy, PartialEq, Eq, Structural)]
pub struct SentRequest {
    /// The ticket under which the request is queued.
    pub ticket: usize,
    /// The number of the request.
    pub unique: u64,
    /// How often the request was found unanswered.
    pub retries: u32,
}

/// Where a queued request stands.
#[derive(Debug, PartialEq, Eq)]
pub enum SendStep {
    /// There is no reply: let others run, and look again.
    Yield(SentRequest),
    /// The outcome: the contents of the reply, or the error.
    Done(VfsResult<Vec<u8>>),
}

/// The header of a request with `n` bytes of arguments.
pub open spec fn request_header(
    opcode: FuseOpcode,
    nodeid: u64,
    unique: u64,
    n: nat,
) -> FuseInHeader {
    FuseInHeader {
        len: ((FUSE_IN_HEADER_SIZE + n) % 0x1_0000_0000) as u32,
        opcode: opcode.number(),
        unique,
        nodeid,
        uid: 0,
        gid: 0,
        pid: 1,
        padding: 0,
    }
}

/// What an answered request comes to: what the reply holds, the error that the
/// reply names, or an input/output error if there is no header in the reply.
pub open spec fn reply_outcome(request: RequestView) -> Result<Seq<u8>, VfsError> {
    match request.out_header {
        Some(h) => if h.error != 0 {
            Err(error_of_errno(h.error as int))
        } else {
            Ok(request.out_data)
        },
        None => Err(VfsError::Io),
    }
}

/// The bytes that an outcome holds.
pub open spec fn outcome_view(outcome: VfsResult<Vec<u8>>) -> Result<Seq<u8>, VfsError> {
    match outcome {
        Ok(data) => Ok(data@),
        Err(e) => Err(e),
    }
}

/// What a look at a queued request shows.
pub enum Look {
    /// The daemon has replied.
    Answered,
    /// The daemon has not replied, and it is time to give up.
    GivenUp,
    /// The daemon has not replied yet.
    Again,
}

/// What a look shows after `retries` looks that found the request unanswered.
pub open spec fn look(completed: bool, retries: int) -> Look {
    if completed {
        Look::Answered
    } else if retries >= MAX_RETRIES {
        Look::GivenUp
    } else {
        Look::Again
    }
}

/// What looking again and again comes to, after `retries` looks that found
/// nothing: each element of `seen` says whether one further look finds a reply.
pub open spec fn watch(seen: Seq<bool>, retries: int) -> Look
    decreases seen.len(),
{
    if seen.len() == 0 {
        Look::Again
    } else {
        match look(seen[0], retries) {
            Look::Again => watch(seen.drop_first(), retries + 1),
            end => end,
        }
    }
}

/// A sender waits for [`MAX_RETRIES`] fruitless looks and gives up at the next
/// one; a reply that is there before that is always seen.
pub proof fn law_patience(seen: Seq<bool>, retries: int, fruitless: nat)
    requires
        0 <= retries <= MAX_RETRIES,
        fruitless <= seen.len(),
        forall|i: int| 0 <= i < fruitless ==> !seen[i],
    ensures
        retries + fruitless > MAX_RETRIES ==> watch(seen, retries) == Look::GivenUp,
        retries + fruitless <= MAX_RETRIES && fruitless == seen.len() ==> watch(seen, retries)
            == Look::Again,
        retries + fruitless <= MAX_RETRIES && fruitless < seen.len() && seen[fruitless as int]
            ==> watch(seen, retries) == Look::Answered,
    decreases fruitless,
{
    if fruitless > 0 && retries < MAX_RETRIES {
        let rest = seen.drop_first();
        assert forall|i: int| 0 <= i < fruitless - 1 implies !rest[i] by {
            assert(!seen[i + 1]);
        }
        law_patience(rest, retries + 1, (fruitless - 1) as nat);
        if fruitless < seen.len() {
            assert(rest[fruitless - 1] == seen[fruitless as int]);
        }
    }
}

/// A request that is submitted, read by the daemon in its turn and answered
/// comes back to its sender with what the daemon wrote.
pub proof fn law_call_round_trip(
    s: StateView,
    ticket: usize,
    call: FuseCall,
    out_header: FuseOutHeader,
    out_data: Seq<u8>,
)
    requires
        ticket <= s.requests.len(),
    ensures
        ({
            let header = request_header(
                call.opcode,
                call.nodeid,
                out_header.unique,
                call.in_data@.len(),
            );
            let request = RequestView::fresh(header, call.in_data@);
            let queued = s.submitted(ticket, request);
            let turn = after_reads(queued, s.pending.len());
            let answered = turn.delivered().replied(out_header, out_data);
            &&& turn.pending == seq![ticket]
            &&& turn.request(ticket) == request
            &&& answered.pending.len() == 0
            &&& answered.live(ticket)
            &&& answered.request(ticket) == request.answered(out_header, out_data)
            &&& reply_outcome(answered.request(ticket)) == (if out_header.error == 0 {
                Ok(out_data)
            } else {
                Err(error_of_errno(out_header.error as int))
            })
        }),
{
    let header = request_header(call.opcode, call.nodeid, out_header.unique, call.in_data@.len());
    let request = RequestView::fresh(header, call.in_data@);
    let queued = s.submitted(ticket, request);
    law_first_in_first_out(queued, s.pending.len());
    assert(queued.pending.skip(s.pending.len() as int) =~= seq![ticket]);
}

/// The length in the header is that of the whole request, for every request
/// whose length the field can hold.
pub proof fn law_header_length(call: FuseCall, unique: u64)
    requires
        FUSE_IN_HEADER_SIZE + call.in_data@.len() <= u32::MAX,
    ensures
        ({
            let header = request_header(call.opcode, call.nodeid, unique, call.in_data@.len());
            header.len == RequestView::fresh(header, call.in_data@).wire().len()
        }),
{
    let header = request_header(call.opcode, call.nodeid, unique, call.in_data@.len());
    law_daemon_reads_what_was_sent(RequestView::fresh(header, call.in_data@));
}

/// The daemon reads in the header of a request what is asked, of which node,
/// and under which number.
pub proof fn law_header_is_told(
    opcode: FuseOpcode,
    nodeid: u64,
    unique: u64,
    in_data: Seq<u8>,
)
    ensures
        ({
            let header = request_header(opcode, nodeid, unique, in_data.len());
            let read = FuseInHeader::decode(RequestView::fresh(header, in_data).wire());
            &&& read.opcode == opcode.number()
            &&& read.nodeid == nodeid
            &&& read.unique == unique
            &&& read.uid == 0
            &&& read.gid == 0
            &&& read.pid == 1
            &&& read.padding == 0
            &&& 40 + in_data.len() <= u32::MAX ==> read.len == 40 + in_data.len()
        }),
{
    let header = request_header(opcode, nodeid, unique, in_data.len());
    law_daemon_reads_what_was_sent(RequestView::fresh(header, in_data));
}

/// A request that was answered without an error comes to all that the daemon
/// sent; one that was answered with an error number comes to that error, in
/// whichever sign the number came.
pub proof fn law_outcome_of_reply(request: RequestView, h: FuseOutHeader)
    requires
        request.out_header == Some(h),
    ensures
        h.error == 0 ==> reply_outcome(request) == Ok::<Seq<u8>, VfsError>(request.out_data),
        h.error != 0 ==> reply_outcome(request) is Err,
        h.error == -2 || h.error == 2 <==> reply_outcome(request) == Err::<Seq<u8>, VfsError>(
            VfsError::NotFound,
        ),
        h.error == -13 || h.error == 13 <==> reply_outcome(request) == Err::<Seq<u8>, VfsError>(
            VfsError::PermissionDenied,
        ),
        h.error == -17 || h.error == 17 <==> reply_outcome(request) == Err::<Seq<u8>, VfsError>(
            VfsError::AlreadyExists,
        ),
        h.error == -22 || h.error == 22 <==> reply_outcome(request) == Err::<Seq<u8>, VfsError>(
            VfsError::InvalidInput,
        ),
{
    law_errors_by_number(h.error as int);
}

/// An outcome is seen as the bytes it holds, or its error.
pub proof fn law_outcome_view(outcome: VfsResult<Vec<u8>>)
    ensures
        outcome matches Ok(data) ==> outcome_view(outcome) == Ok::<Seq<u8>, VfsError>(data@),
        outcome matches Err(e) ==> outcome_view(outcome) == Err::<Seq<u8>, VfsError>(e),
{
}

/// A look that finds a reply ends the wait, however long it was; one that finds
/// none is followed by another unless fifty thousand came before it.
pub proof fn law_look(retries: int)
    ensures
        look(true, retries) == Look::Answered,
        retries < 50_000 ==> look(false, retries) == Look::Again,
        retries >= 50_000 ==> look(false, retries) == Look::GivenUp,
{
}

impl SentRequest {
    /// The connection has the request under this ticket and number.
    pub open spec fn queued_in(self, s: StateView) -> bool {
        s.live(self.ticket) && s.request(self.ticket).header.unique == self.unique
    }
}

/// Gives what an answered request comes to.
pub fn reply_result(request: FuseRequest) -> (outcome: VfsResult<Vec<u8>>)
    ensures
        outcome_view(outcome) == reply_outcome(request@),
        request.out_header matches Some(h) ==> (outcome is Ok <==> h.error == 0),
        outcome matches Ok(data) ==> data@ == request.out_data@,
{
    match request.out_header {
        Some(out_header) => {
            if out_header.error != 0 {
                Err(errno_error(out_header.error))
            } else {
                Ok(request.out_data)
            }
        },
        None => Err(VfsError::Io),
    }
}

/// A mounted FUSE filesystem.
#[derive(Debug, Clone, Copy, PartialEq, Eq, Structural)]
pub struct FuseFs {
    /// The largest write.
    pub max_write: u32,
    /// The features in use.
    pub flags: u32,
}

impl FuseFs {
    /// A filesystem with the defaults that hold before the daemon has spoken.
    pub fn new() -> (fs: FuseFs)
        ensures
            fs.max_write == 4096,
            fs.flags == 0,
    {
        FuseFs { max_write: 4096, flags: 0 }
    }

    /// The name of the filesystem type.
    pub fn name(&self) -> (name: &'static str)
        ensures
            name@ == "fuse"@,
    {
        "fuse"
    }

    /// The number by which statistics tell that a filesystem is a FUSE one.
    pub fn stat_magic(&self) -> (magic: u64)
        ensures
            magic == FUSE_SUPER_MAGIC,
    {
        FUSE_SUPER_MAGIC
    }

    /// The root directory.
    pub fn root_node(&self) -> (node: FuseNode)
        ensures
            node == (FuseNode { nodeid: FUSE_ROOT_ID, is_dir: true }),
    {
        FuseNode { nodeid: FUSE_ROOT_ID, is_dir: true }
    }

    /// Queues a request for the daemon.
    pub fn send_request(&self, conn: &mut FuseConnection, call: FuseCall) -> (sent: SentRequest)
        requires
            old(conn).wf(),
        ensures
            final(conn).wf(),
            sent.retries == 0,
            sent.unique == old(conn).unique_counter,
            !old(conn).state@.live(sent.ticket),
            sent.ticket <= old(conn).state@.requests.len(),
            sent.queued_in(final(conn).state@),
            final(conn).unique_counter == (old(conn).unique_counter + 1)
                % 0x1_0000_0000_0000_0000,
            final(conn).state@ == old(conn).state@.submitted(
                sent.ticket,
                RequestView::fresh(
                    request_header(
                        call.opcode,
                        call.nodeid,
                        old(conn).unique_counter,
                        call.in_data@.len(),
                    ),
                    call.in_data@,
                ),
            ),
            ({
                let request = final(conn).state@.request(sent.ticket);
                &&& request.header.opcode == call.opcode.number()
                &&& request.header.nodeid == call.nodeid
                &&& request.header.unique == old(conn).unique_counter
                &&& request.in_data == call.in_data@
                &&& !request.completed
                &&& FUSE_IN_HEADER_SIZE + call.in_data@.len() <= u32::MAX ==> request.header.len
                    == FUSE_IN_HEADER_SIZE + call.in_data@.len()
            }),
    {
        let unique: u64 = conn.next_unique();
        let total: u64 = (call.in_data.len() as u64 % 0x1_0000_0000 + FUSE_IN_HEADER_SIZE as u64)
            % 0x1_0000_0000;
        let header = FuseInHeader {
            len: total as u32,
            opcode: call.opcode.code(),
            unique,
            nodeid: call.nodeid,
            uid: 0,
            gid: 0,
            pid: 1,
            padding: 0,
        };
        let ticket: usize = conn.state.submit(header, call.in_data);
        SentRequest { ticket, unique, retries: 0 }
    }

    /// Looks whether a queued request has been answered. One that is still
    /// unanswered after [`MAX_RETRIES`] looks is withdrawn.
    pub fn await_reply(&self, conn: &mut FuseConnection, sent: SentRequest) -> (step: SendStep)
        requires
            old(conn).wf(),
            sent.queued_in(old(conn).state@),
        ensures
            final(conn).wf(),
            final(conn).unique_counter == old(conn).unique_counter,
            ({
                let s = old(conn).state@;
                let request = s.request(sent.ticket);
                match look(request.completed, sent.retries as int) {
                    Look::Answered => {
                        &&& step matches SendStep::Done(outcome)
                        &&& outcome_view(outcome) == reply_outcome(request)
                        &&& final(conn).state@ == s.released(sent.ticket)
                    },
                    Look::GivenUp => {
                        &&& step == SendStep::Done(Err(VfsError::Io))
                        &&& final(conn).state@ == s.withdrawn(sent.ticket, sent.unique)
                    },
                    Look::Again => {
                        &&& step matches SendStep::Yield(next)
                        &&& next == (SentRequest { retries: (sent.retries + 1) as u32, ..sent })
                        &&& next.ticket == sent.ticket
                        &&& next.unique == sent.unique
                        &&& next.retries == sent.retries + 1
                        &&& final(conn).state@ == s
                    },
                }
            }),
    {
        if conn.state.is_completed(sent.ticket) {
            let request = conn.state.release(sent.ticket);
            return SendStep::Done(reply_result(request));
        }
        if sent.retries >= MAX_RETRIES {
            conn.state.withdraw(sent.ticket, sent.unique);
            return SendStep::Done(Err(VfsError::Io));
        }
        SendStep::Yield(
            SentRequest { ticket: sent.ticket, unique: sent.unique, retries: sent.retries + 1 },
        )
    }

    /// The request that opens the conversation with the daemon.
    pub fn init_call(&self) -> (call: FuseCall)
        ensures
            call.opcode == FuseOpcode::Init,
            call.nodeid == 0,
            call.in_data@ == (FuseInitIn {
                major: FUSE_KERNEL_VERSION,
                minor: FUSE_KERNEL_MINOR_VERSION,
                max_readahead: 4096,
                flags: 0,
            }).bytes(),
            FuseInitIn::decode(call.in_data@).major == 7,
            FuseInitIn::decode(call.in_data@).minor == 33,
            FuseInitIn::decode(call.in_data@).max_readahead == 4096,
            FuseInitIn::decode(call.in_data@).flags == 0,
    {
        let in_args = FuseInitIn {
            major: FUSE_KERNEL_VERSION,
            minor: FUSE_KERNEL_MINOR_VERSION,
            max_readahead: 4096,
            flags: 0,
        };
        proof {
            law_init_in_round_trip(in_args);
            assert(in_args.bytes() + Seq::<u8>::empty() =~= in_args.bytes());
        }
        FuseCall { opcode: FuseOpcode::Init, nodeid: 0, in_data: in_args.to_bytes() }
    }

    /// What the daemon answers to [`FuseFs::init_call`]. The values it offers
    /// are reported; the filesystem keeps its defaults.
    pub fn init_handshake(&self, reply: VfsResult<Vec<u8>>) -> (result: VfsResult<FuseInitOut>)
        ensures
            result == (match outcome_view(reply) {
                Ok(data) => if data.len() < FUSE_INIT_OUT_SIZE {
                    Err(VfsError::Io)
                } else {
                    Ok(FuseInitOut::decode(data))
                },
                Err(e) => Err(e),
            }),
    {
        match reply {
            Ok(data) => {
                if data.len() < FUSE_INIT_OUT_SIZE {
                    return Err(VfsError::Io);
                }
                assert(data@.skip(0) =~= data@);
                Ok(FuseInitOut::from_bytes(data.as_slice(), 0))
            },
            Err(e) => Err(e),
        }
    }
}

/// A file or directory of a FUSE filesystem.
#[derive(Debug, Clone, Copy, PartialEq, Eq, Structural)]
pub struct FuseNode {
    /// The daemon's number for the node.
    pub nodeid: u64,
    /// Whether the node is a directory.
    pub is_dir: bool,
}

/// An entry of a directory that an operation found or made.
#[derive(Debug, PartialEq, Eq)]
pub struct FuseEntry {
    /// The node.
    pub node: FuseNode,
    /// What the node is.
    pub node_type: NodeType,
    /// The name under which it stands.
    pub name: String,
}

/// Whether the mode of a node says that it is a directory.
pub open spec fn mode_is_dir(mode: u32) -> bool {
    mode & 0o170000 == 0o040000
}

/// What a node is, by its mode. Whatever is neither a directory nor a symbolic
/// link counts as a regular file.
pub open spec fn mode_type(mode: u32) -> NodeType {
    if mode & 0o170000 == 0o040000 {
        NodeType::Directory
    } else if mode & 0o170000 == 0o120000 {
        NodeType::Symlink
    } else {
        NodeType::RegularFile
    }
}

/// The times in the attributes can be told.
pub open spec fn times_fit(attr: FuseAttr) -> bool {
    &&& Timestamp::fits(attr.atime, attr.atimensec)
    &&& Timestamp::fits(attr.mtime, attr.mtimensec)
    &&& Timestamp::fits(attr.ctime, attr.ctimensec)
}

/// The metadata say what the attributes say.
pub open spec fn metadata_of(attr: FuseAttr, m: Metadata) -> bool {
    &&& m.device == 0
    &&& m.inode == attr.ino
    &&& m.nlink == attr.nlink
    &&& m.mode == attr.mode & 0o777
    &&& m.node_type == mode_type(attr.mode)
    &&& m.uid == attr.uid
    &&& m.gid == attr.gid
    &&& m.size == attr.size
    &&& m.block_size == attr.blksize
    &&& m.blocks == attr.blocks
    &&& m.rdev == 0
    &&& m.atime.wf() && m.atime.total() == attr.atime * NANOS_PER_SEC + attr.atimensec
    &&& m.mtime.wf() && m.mtime.total() == attr.mtime * NANOS_PER_SEC + attr.mtimensec
    &&& m.ctime.wf() && m.ctime.total() == attr.ctime * NANOS_PER_SEC + attr.ctimensec
}

/// The entry under `name` that an entry record describes.
pub open spec fn entry_of(record: FuseEntryOut, name: Seq<char>, entry: FuseEntry) -> bool {
    &&& entry.node.nodeid == record.nodeid
    &&& entry.node.is_dir == mode_is_dir(record.attr.mode)
    &&& entry.node_type == (if mode_is_dir(record.attr.mode) {
        NodeType::Directory
    } else {
        NodeType::RegularFile
    })
    &&& entry.name@ == name
}

/// A name as it stands in a request: its encoding, and a zero byte.
pub open spec fn name_bytes(name: Seq<char>) -> Seq<u8> {
    encode_utf8(name).push(0)
}

/// The name has no NUL character in it.
pub open spec fn plain_name(name: Seq<char>) -> bool {
    forall|i: int| 0 <= i < name.len() ==> #[trigger] name[i] != '\0'
}

/// Every name without a NUL character is plain, and no other.
pub proof fn law_plain_name(name: Seq<char>)
    ensures
        plain_name(name) <==> !name.contains('\0'),
{
    if name.contains('\0') {
        let i = choose|i: int| 0 <= i < name.len() && name[i] == '\0';
        assert(name[i] == '\0');
    }
}

/// A daemon can tell where a name in a request ends, and which name it is:
/// requests with different names differ, whatever follows the names.
pub proof fn law_names_can_be_told_apart(
    a: Seq<char>,
    after_a: Seq<u8>,
    b: Seq<char>,
    after_b: Seq<u8>,
)
    requires
        plain_name(a),
        plain_name(b),
        name_bytes(a) + after_a == name_bytes(b) + after_b,
    ensures
        a == b,
        after_a == after_b,
{
    lemma_no_zero_byte(a);
    lemma_no_zero_byte(b);
    let x = encode_utf8(a);
    let y = encode_utf8(b);
    let s = name_bytes(a) + after_a;
    let t = name_bytes(b) + after_b;
    assert(s[x.len() as int] == 0);
    assert(t[y.len() as int] == 0);
    if x.len() < y.len() {
        assert(t[x.len() as int] == y[x.len() as int]);
    }
    if y.len() < x.len() {
        assert(s[y.len() as int] == x[y.len() as int]);
    }
    assert forall|i: int| 0 <= i < x.len() implies x[i] == y[i] by {
        assert(s[i] == x[i]);
        assert(t[i] == y[i]);
    }
    assert(x =~= y);
    lemma_encoding_injective(a, b);
    assert(s.len() == x.len() + 1 + after_a.len());
    assert(t.len() == y.len() + 1 + after_b.len());
    assert forall|i: int| 0 <= i < after_a.len() implies after_a[i] == after_b[i] by {
        assert(s[x.len() + 1 + i] == after_a[i]);
        assert(t[y.len() + 1 + i] == after_b[i]);
    }
    assert(after_a =~= after_b);
}

/// What a node is stands in the four bits of its mode above the lowest twelve.
pub proof fn law_mode(mode: u32)
    ensures
        mode_is_dir(mode) <==> (mode / 4096) % 16 == 4,
        mode_type(mode) == NodeType::Directory <==> (mode / 4096) % 16 == 4,
        mode_type(mode) == NodeType::Symlink <==> (mode / 4096) % 16 == 10,
        mode_type(mode) == NodeType::RegularFile <==> (mode / 4096) % 16 != 4 && (mode / 4096) % 16
            != 10,
        mode & 0o777 == mode % 512,
{
    assert(mode & 0o170000 == 0o040000 <==> (mode / 4096) % 16 == 4) by (bit_vector);
    assert(mode & 0o170000 == 0o120000 <==> (mode / 4096) % 16 == 10) by (bit_vector);
    assert(mode & 0o777 == mode % 512) by (bit_vector);
}

/// Times whose nanoseconds are less than a second can be told, whatever their
/// seconds are; so can all times whose seconds leave room for a carry.
pub proof fn law_times_fit(attr: FuseAttr)
    ensures
        attr.atimensec < 1_000_000_000 && attr.mtimensec < 1_000_000_000 && attr.ctimensec
            < 1_000_000_000 ==> times_fit(attr),
        attr.atime < u64::MAX - 4 && attr.mtime < u64::MAX - 4 && attr.ctime < u64::MAX - 4
            ==> times_fit(attr),
        times_fit(attr) <==> attr.atime + attr.atimensec / 1_000_000_000 < 0x1_0000_0000_0000_0000
            && attr.mtime + attr.mtimensec / 1_000_000_000 < 0x1_0000_0000_0000_0000 && attr.ctime
            + attr.ctimensec / 1_000_000_000 < 0x1_0000_0000_0000_0000,
{
}

/// The metadata made of attributes that the daemon sent, whatever follows them,
/// give the daemon's own numbers.
pub proof fn law_metadata_are_told(x: FuseAttrOut, rest: Seq<u8>, m: Metadata)
    requires
        metadata_of(FuseAttrOut::decode(x.bytes() + rest).attr, m),
    ensures
        m.size == x.attr.size,
        m.inode == x.attr.ino,
        m.nlink == x.attr.nlink,
        m.blocks == x.attr.blocks,
        m.block_size == x.attr.blksize,
        m.uid == x.attr.uid,
        m.gid == x.attr.gid,
        m.mode == x.attr.mode % 512,
        m.node_type == NodeType::Directory <==> (x.attr.mode / 4096) % 16 == 4,
        m.node_type == NodeType::Symlink <==> (x.attr.mode / 4096) % 16 == 10,
        m.node_type == NodeType::RegularFile <==> (x.attr.mode / 4096) % 16 != 4 && (x.attr.mode
            / 4096) % 16 != 10,
        m.device == 0,
        m.rdev == 0,
        m.atime.nanos < 1_000_000_000,
        m.mtime.nanos < 1_000_000_000,
        m.ctime.nanos < 1_000_000_000,
        m.atime.secs * 1_000_000_000 + m.atime.nanos == x.attr.atime * 1_000_000_000
            + x.attr.atimensec,
        m.mtime.secs * 1_000_000_000 + m.mtime.nanos == x.attr.mtime * 1_000_000_000
            + x.attr.mtimensec,
        m.ctime.secs * 1_000_000_000 + m.ctime.nanos == x.attr.ctime * 1_000_000_000
            + x.attr.ctimensec,
{
    law_attr_out_round_trip(x);
    assert(FuseAttrOut::decode(x.bytes() + rest) == x);
    law_mode(x.attr.mode);
}

/// The entry made of a record that the daemon sent, whatever follows it, is the
/// daemon's own node under the name that was asked for.
pub proof fn law_entry_is_told(x: FuseEntryOut, rest: Seq<u8>, name: Seq<char>, entry: FuseEntry)
    requires
        entry_of(FuseEntryOut::decode(x.bytes() + rest), name, entry),
    ensures
        entry.node.nodeid == x.nodeid,
        entry.node.is_dir <==> (x.attr.mode / 4096) % 16 == 4,
        entry.node_type == NodeType::Directory <==> (x.attr.mode / 4096) % 16 == 4,
        entry.node_type == NodeType::RegularFile <==> (x.attr.mode / 4096) % 16 != 4,
        entry.name@ == name,
{
    law_entry_out_round_trip(x);
    assert(FuseEntryOut::decode(x.bytes() + rest) == x);
    law_mode(x.attr.mode);
}

/// A name in a request is its encoding up to the zero byte behind it.
pub proof fn law_name_is_told(name: Seq<char>, rest: Seq<u8>)
    ensures
        ({
            let sent = name_bytes(name) + rest;
            let n = encode_utf8(name).len() as int;
            &&& name_bytes(name).len() == n + 1
            &&& sent.take(n) == encode_utf8(name)
            &&& decode_utf8(sent.take(n)) == name
            &&& sent[n] == 0
            &&& sent.skip(n + 1) == rest
        }),
{
    let sent = name_bytes(name) + rest;
    let n = encode_utf8(name).len() as int;
    assert(sent.take(n) =~= encode_utf8(name));
    assert(sent.skip(n + 1) =~= rest);
    encode_utf8_decode_utf8(name);
}

/// The arguments of a read.
pub open spec fn read_args(offset: u64, size: u32) -> FuseReadIn {
    FuseReadIn {
        fh: 0,
        offset,
        size,
        read_flags: 0,
        lock_owner: 0,
        flags: 0,
        padding: 0,
    }
}

/// The arguments of a write.
pub open spec fn write_args(offset: u64, size: u32) -> FuseWriteIn {
    FuseWriteIn {
        fh: 0,
        offset,
        size,
        write_flags: 0,
        lock_owner: 0,
        flags: 0,
        padding: 0,
    }
}

/// The arguments that change the size of a file, and nothing else.
pub open spec fn size_args(size: u64) -> FuseSetattrIn {
    FuseSetattrIn {
        valid: FATTR_SIZE,
        padding: 0,
        fh: 0,
        size,
        lock_owner: 0,
        atime: 0,
        mtime: 0,
        ctime: 0,
        atimensec: 0,
        mtimensec: 0,
        ctimensec: 0,
        mode: 0,
        unused4: 0,
        uid: 0,
        gid: 0,
        unused5: 0,
    }
}

/// A request to change a file's size says which size, and that only the size
/// is to change.
pub proof fn law_size_is_told(size: u64, rest: Seq<u8>)
    ensures
        FuseSetattrIn::decode(size_args(size).bytes() + rest).size == size,
        FuseSetattrIn::decode(size_args(size).bytes() + rest).valid == FATTR_SIZE,
        ({
            let asked = FuseSetattrIn::decode(size_args(size).bytes() + rest);
            &&& asked.valid == 8
            &&& asked.fh == 0
            &&& asked.lock_owner == 0
            &&& asked.atime == 0 && asked.atimensec == 0
            &&& asked.mtime == 0 && asked.mtimensec == 0
            &&& asked.ctime == 0 && asked.ctimensec == 0
            &&& asked.mode == 0
            &&& asked.uid == 0
            &&& asked.gid == 0
        }),
{
    law_setattr_in_round_trip(size_args(size));
    assert(FuseSetattrIn::decode(size_args(size).bytes() + rest) == size_args(size));
}

/// A request to read says from where and how much.
pub proof fn law_read_is_told(offset: u64, size: u32, rest: Seq<u8>)
    ensures
        ({
            let read = FuseReadIn::decode(read_args(offset, size).bytes() + rest);
            &&& read.offset == offset
            &&& read.size == size
            &&& read.fh == 0
            &&& read.read_flags == 0
            &&& read.lock_owner == 0
            &&& read.flags == 0
            &&& read.padding == 0
        }),
{
    law_read_in_round_trip(read_args(offset, size));
    assert(FuseReadIn::decode(read_args(offset, size).bytes() + rest) == read_args(offset, size));
}

/// A request to write says where to and how much, and what to write follows.
pub proof fn law_write_is_told(offset: u64, size: u32, data: Seq<u8>)
    ensures
        ({
            let sent = write_args(offset, size).bytes() + data;
            let written = FuseWriteIn::decode(sent);
            &&& written.offset == offset
            &&& written.size == size
            &&& written.fh == 0
            &&& written.write_flags == 0
            &&& written.lock_owner == 0
            &&& written.flags == 0
            &&& written.padding == 0
            &&& sent.skip(40) == data
        }),
{
    let args = write_args(offset, size);
    law_write_in_round_trip(args);
    assert(FuseWriteIn::decode(args.bytes() + data) == args);
    assert((args.bytes() + data).skip(40) =~= data);
}

/// A reply that failed keeps its error; one that is too short for what it should
/// hold gets the error for that; any other is taken.
pub proof fn law_short_reply(reply: Result<Seq<u8>, VfsError>, size: int, short: VfsError)
    ensures
        reply matches Ok(data) ==> (reply_holds(reply, size) <==> data.len() >= size),
        reply is Err ==> !reply_holds(reply, size),
        reply is Ok ==> reply_error(reply, short) == short,
        reply matches Err(e) ==> reply_error(reply, short) == e,
{
}

/// Appends a name and a zero byte.
fn put_name(buf: &mut Vec<u8>, name: &str)
    ensures
        final(buf)@ == old(buf)@ + name_bytes(name@),
{
    let ghost before = buf@;
    buf.extend_from_slice(name.as_bytes());
    buf.push(0);
    assert(buf@ =~= before + name_bytes(name@));
}

/// The length of a buffer in the 32 bits of a request.
fn wire_len(len: usize) -> (size: u32)
    ensures
        size == len as nat % 0x1_0000_0000,
{
    (len as u64 % 0x1_0000_0000) as u32
}

/// The outcome of an operation whose reply holds nothing.
fn no_contents(reply: VfsResult<Vec<u8>>) -> (result: VfsResult<()>)
    ensures
        result == (match reply {
            Ok(_) => Ok::<(), VfsError>(()),
            Err(e) => Err(e),
        }),
{
    match reply {
        Ok(_) => Ok(()),
        Err(e) => Err(e),
    }
}

/// The error of a reply that failed, or else that of a reply that is too short.
pub open spec fn reply_error(reply: Result<Seq<u8>, VfsError>, short: VfsError) -> VfsError {
    match reply {
        Ok(_) => short,
        Err(e) => e,
    }
}

/// The reply succeeded and holds at least `size` bytes.
pub open spec fn reply_holds(reply: Result<Seq<u8>, VfsError>, size: int) -> bool {
    reply matches Ok(data) && data.len() >= size
}

/// Gives the contents of a reply that holds at least `size` bytes.
fn contents(reply: VfsResult<Vec<u8>>, size: usize, short: VfsError) -> (data: VfsResult<Vec<u8>>)
    ensures
        if reply_holds(outcome_view(reply), size as int) {
            data == reply
        } else {
            data == Err::<Vec<u8>, VfsError>(reply_error(outcome_view(reply), short))
        },
{
    match reply {
        Ok(data) => {
            if data.len() < size {
                Err(short)
            } else {
                Ok(data)
            }
        },
        Err(e) => Err(e),
    }
}

/// Whether the mode of a node says that it is a directory.
fn is_dir_mode(mode: u32) -> (is_dir: bool)
    ensures
        is_dir == mode_is_dir(mode),
{
    mode & 0o170000 == 0o040000
}

/// The entry under `name` that an entry record describes.
fn entry_from(record: FuseEntryOut, name: &str) -> (entry: FuseEntry)
    ensures
        entry_of(record, name@, entry),
{
    let is_dir: bool = is_dir_mode(record.attr.mode);
    FuseEntry {
        node: FuseNode { nodeid: record.nodeid, is_dir },
        node_type: if is_dir {
            NodeType::Directory
        } else {
            NodeType::RegularFile
        },
        name: name.to_owned(),
    }
}

/// Whether the times in the answer to [`FuseNode::metadata_call`] can be told.
pub fn times_can_be_told(reply: &VfsResult<Vec<u8>>) -> (fit: bool)
    ensures
        fit == (match outcome_view(*reply) {
            Ok(data) => data.len() >= FUSE_ATTR_OUT_SIZE ==> times_fit(
                FuseAttrOut::decode(data).attr,
            ),
            Err(_) => true,
        }),
{
    match reply {
        Ok(data) => {
            if data.len() < FUSE_ATTR_OUT_SIZE {
                return true;
            }
            let attr: FuseAttr = FuseAttrOut::from_bytes(data.as_slice(), 0).attr;
            assert(data@.skip(0) =~= data@);
            attr.atime <= u64::MAX - (attr.atimensec / NANOS_PER_SEC) as u64 && attr.mtime
                <= u64::MAX - (attr.mtimensec / NANOS_PER_SEC) as u64 && attr.ctime <= u64::MAX - (
            attr.ctimensec / NANOS_PER_SEC) as u64
        },
        Err(_) => true,
    }
}

impl FuseNode {
    /// The number of the node.
    pub fn inode(&self) -> (inode: u64)
        ensures
            inode == self.nodeid,
    {
        self.nodeid
    }

    /// The request for what is known of the node.
    pub fn metadata_call(&self) -> (call: FuseCall)
        ensures
            call.opcode == FuseOpcode::Getattr,
            call.nodeid == self.nodeid,
            call.in_data@ == Seq::<u8>::empty(),
    {
        FuseCall { opcode: FuseOpcode::Getattr, nodeid: self.nodeid, in_data: Vec::new() }
    }

    /// What is known of the node, by the answer to [`FuseNode::metadata_call`].
    pub fn metadata(&self, reply: VfsResult<Vec<u8>>) -> (result: VfsResult<Metadata>)
        requires
            outcome_view(reply) matches Ok(data) ==> data.len() >= FUSE_ATTR_OUT_SIZE ==> times_fit(
                FuseAttrOut::decode(data).attr,
            ),
        ensures
            if reply_holds(outcome_view(reply), FUSE_ATTR_OUT_SIZE as int) {
                &&& result matches Ok(m)
                &&& metadata_of(FuseAttrOut::decode(outcome_view(reply)->Ok_0).attr, m)
            } else {
                result == Err::<Metadata, VfsError>(
                    reply_error(outcome_view(reply), VfsError::InvalidInput),
                )
            },
            result matches Ok(m) ==> ({
                let attr = FuseAttrOut::decode(outcome_view(reply)->Ok_0).attr;
                &&& m.size == attr.size
                &&& m.inode == attr.ino
                &&& m.nlink == attr.nlink
                &&& m.blocks == attr.blocks
                &&& m.block_size == attr.blksize
                &&& m.uid == attr.uid
                &&& m.gid == attr.gid
                &&& m.mode == attr.mode % 512
                &&& m.atime.total() == attr.atime * NANOS_PER_SEC + attr.atimensec
                &&& m.mtime.total() == attr.mtime * NANOS_PER_SEC + attr.mtimensec
                &&& m.ctime.total() == attr.ctime * NANOS_PER_SEC + attr.ctimensec
            }),
    {
        let data: Vec<u8> = match contents(reply, FUSE_ATTR_OUT_SIZE, VfsError::InvalidInput) {
            Ok(data) => data,
            Err(e) => return Err(e),
        };
        assert(data@.skip(0) =~= data@);
        let attr: FuseAttr = FuseAttrOut::from_bytes(data.as_slice(), 0).attr;
        let kind: u32 = attr.mode & 0o170000;
        let node_type = if kind == 0o040000 {
            NodeType::Directory
        } else if kind == 0o120000 {
            NodeType::Symlink
        } else {
            NodeType::RegularFile
        };
        let bits: u16 = (attr.mode & 0o777) as u16;
        proof {
            let mode: u32 = attr.mode;
            law_mode(mode);
            assert((mode & 0o777) <= 0o777) by (bit_vector);
            assert(bits <= 0o777 ==> bits & 0o7777 == bits) by (bit_vector);
        }
        Ok(
            Metadata {
                device: 0,
                inode: attr.ino,
                nlink: attr.nlink as u64,
                mode: permission_bits(bits),
                node_type,
                uid: attr.uid,
                gid: attr.gid,
                size: attr.size,
                block_size: attr.blksize as u64,
                blocks: attr.blocks,
                rdev: 0,
                atime: Timestamp::new(attr.atime, attr.atimensec),
                mtime: Timestamp::new(attr.mtime, attr.mtimensec),
                ctime: Timestamp::new(attr.ctime, attr.ctimensec),
            },
        )
    }

    /// Changes what is known of the node. Permissions and owner cannot be
    /// changed; new times are taken and ignored.
    pub fn update_metadata(&self, update: MetadataUpdate) -> (result: VfsResult<()>)
        ensures
            result == (if update.mode is Some || update.owner is Some {
                Err::<(), VfsError>(VfsError::OperationNotSupported)
            } else {
                Ok(())
            }),
    {
        if update.mode.is_some() || update.owner.is_some() {
            return Err(VfsError::OperationNotSupported);
        }
        Ok(())
    }

    /// Writes back what is cached: nothing is.
    pub fn sync(&self, _data_only: bool) -> (result: VfsResult<()>)
        ensures
            result == Ok::<(), VfsError>(()),
    {
        Ok(())
    }

    /// What can be done with the node without blocking.
    pub fn poll(&self) -> (events: IoEvents)
        ensures
            events == (IoEvents { readable: true, writable: true, error: false, hangup: false }),
    {
        IoEvents { readable: true, writable: true, error: false, hangup: false }
    }

    /// Whether names found in the directory may be kept: the daemon may change
    /// them at any time.
    pub fn is_cacheable(&self) -> (cacheable: bool)
        ensures
            !cacheable,
    {
        false
    }

    /// The request to read up to `len` bytes from `offset` on.
    pub fn read_at_call(&self, len: usize, offset: u64) -> (call: FuseCall)
        ensures
            call.opcode == FuseOpcode::Read,
            call.nodeid == self.nodeid,
            call.in_data@ == read_args(offset, (len as nat % 0x1_0000_0000) as u32).bytes(),
            FuseReadIn::decode(call.in_data@).offset == offset,
            len as nat <= u32::MAX ==> FuseReadIn::decode(call.in_data@).size == len,
    {
        let in_args = FuseReadIn {
            fh: 0,
            offset,
            size: wire_len(len),
            read_flags: 0,
            lock_owner: 0,
            flags: 0,
            padding: 0,
        };
        proof {
            law_read_is_told(in_args.offset, in_args.size, Seq::empty());
            assert(in_args.bytes() + Seq::<u8>::empty() =~= in_args.bytes());
        }
        FuseCall { opcode: FuseOpcode::Read, nodeid: self.nodeid, in_data: in_args.to_bytes() }
    }

    /// Reads into `buf` what the answer to [`FuseNode::read_at_call`] holds, as
    /// far as there is room.
    pub fn read_at(&self, buf: &mut [u8], reply: VfsResult<Vec<u8>>) -> (result: VfsResult<usize>)
        ensures
            match outcome_view(reply) {
                Ok(data) => {
                    let n = if data.len() <= old(buf)@.len() {
                        data.len()
                    } else {
                        old(buf)@.len()
                    };
                    &&& result == Ok::<usize, VfsError>(n as usize)
                    &&& final(buf)@ == overwritten(old(buf)@, data.take(n as int))
                },
                Err(e) => {
                    &&& result == Err::<usize, VfsError>(e)
                    &&& final(buf)@ == old(buf)@
                },
            },
            final(buf)@.len() == old(buf)@.len(),
            reply matches Ok(data) ==> result matches Ok(n) ==> ({
                &&& n <= data@.len() && n <= old(buf)@.len()
                &&& n == data@.len() || n == old(buf)@.len()
                &&& forall|i: int| 0 <= i < n ==> #[trigger] final(buf)@[i] == data@[i]
                &&& forall|i: int|
                    n <= i < old(buf)@.len() ==> #[trigger] final(buf)@[i] == old(buf)@[i]
            }),
    {
        let data: Vec<u8> = match reply {
            Ok(data) => data,
            Err(e) => return Err(e),
        };
        let n: usize = if data.len() <= buf.len() {
            data.len()
        } else {
            buf.len()
        };
        let ghost before = buf@;
        let part: &[u8] = vstd::slice::slice_subrange(data.as_slice(), 0, n);
        copy_at(buf, 0, part);
        assert(part@ =~= data@.take(n as int));
        assert(buf@ =~= overwritten(before, data@.take(n as int)));
        Ok(n)
    }

    /// The request to write `buf` from `offset` on.
    pub fn write_at_call(&self, buf: &[u8], offset: u64) -> (call: FuseCall)
        ensures
            call.opcode == FuseOpcode::Write,
            call.nodeid == self.nodeid,
            call.in_data@ == write_args(offset, (buf@.len() % 0x1_0000_0000) as u32).bytes() + buf@,
            FuseWriteIn::decode(call.in_data@).offset == offset,
            buf@.len() <= u32::MAX ==> FuseWriteIn::decode(call.in_data@).size == buf@.len(),
            call.in_data@.skip(40) == buf@,
    {
        let in_args = FuseWriteIn {
            fh: 0,
            offset,
            size: wire_len(buf.len()),
            write_flags: 0,
            lock_owner: 0,
            flags: 0,
            padding: 0,
        };
        let mut in_data: Vec<u8> = in_args.to_bytes();
        in_data.extend_from_slice(buf);
        proof {
            law_write_is_told(in_args.offset, in_args.size, buf@);
            assert(in_args == write_args(in_args.offset, in_args.size));
            assert(in_data@ =~= in_args.bytes() + buf@);
        }
        FuseCall { opcode: FuseOpcode::Write, nodeid: self.nodeid, in_data }
    }

    /// How much was written, by the answer to [`FuseNode::write_at_call`].
    pub fn write_at(&self, reply: VfsResult<Vec<u8>>) -> (result: VfsResult<usize>)
        ensures
            result == (if reply_holds(outcome_view(reply), FUSE_WRITE_OUT_SIZE as int) {
                Ok(FuseWriteOut::decode(outcome_view(reply)->Ok_0).size as usize)
            } else {
                Err(reply_error(outcome_view(reply), VfsError::Io))
            }),
            reply matches Ok(data) ==> result matches Ok(n) ==> n == FuseWriteOut::decode(
                data@,
            ).size,
    {
        let data: Vec<u8> = match contents(reply, FUSE_WRITE_OUT_SIZE, VfsError::Io) {
            Ok(data) => data,
            Err(e) => return Err(e),
        };
        assert(data@.skip(0) =~= data@);
        Ok(FuseWriteOut::from_bytes(data.as_slice(), 0).size as usize)
    }

    /// Writing at the end is not offered.
    pub fn append(&self, _buf: &[u8]) -> (result: VfsResult<(usize, u64)>)
        ensures
            result == Err::<(usize, u64), VfsError>(VfsError::OperationNotSupported),
    {
        Err(VfsError::OperationNotSupported)
    }

    /// The request to change the length of the file.
    pub fn set_len_call(&self, len: u64) -> (call: FuseCall)
        ensures
            call.opcode == FuseOpcode::Setattr,
            call.nodeid == self.nodeid,
            call.in_data@ == size_args(len).bytes(),
            FuseSetattrIn::decode(call.in_data@).size == len,
            FuseSetattrIn::decode(call.in_data@).valid == FATTR_SIZE,
    {
        let in_args = FuseSetattrIn {
            valid: FATTR_SIZE,
            padding: 0,
            fh: 0,
            size: len,
            lock_owner: 0,
            atime: 0,
            mtime: 0,
            ctime: 0,
            atimensec: 0,
            mtimensec: 0,
            ctimensec: 0,
            mode: 0,
            unused4: 0,
            uid: 0,
            gid: 0,
            unused5: 0,
        };
        proof {
            law_size_is_told(len, Seq::empty());
            assert(in_args.bytes() + Seq::<u8>::empty() =~= in_args.bytes());
        }
        FuseCall { opcode: FuseOpcode::Setattr, nodeid: self.nodeid, in_data: in_args.to_bytes() }
    }

    /// What came of [`FuseNode::set_len_call`].
    pub fn set_len(&self, reply: VfsResult<Vec<u8>>) -> (result: VfsResult<()>)
        ensures
            result == (match reply {
                Ok(_) => Ok::<(), VfsError>(()),
                Err(e) => Err(e),
            }),
    {
        no_contents(reply)
    }

    /// The request to make the node a symbolic link to `target`.
    pub fn set_symlink_call(&self, target: &str) -> (call: FuseCall)
        ensures
            call.opcode == FuseOpcode::Symlink,
            call.nodeid == self.nodeid,
            call.in_data@ == name_bytes(target@),
    {
        let mut in_data: Vec<u8> = Vec::new();
        put_name(&mut in_data, target);
        assert(in_data@ =~= name_bytes(target@));
        FuseCall { opcode: FuseOpcode::Symlink, nodeid: self.nodeid, in_data }
    }

    /// What came of [`FuseNode::set_symlink_call`].
    pub fn set_symlink(&self, reply: VfsResult<Vec<u8>>) -> (result: VfsResult<()>)
        ensures
            result == (match reply {
                Ok(_) => Ok::<(), VfsError>(()),
                Err(e) => Err(e),
            }),
    {
        no_contents(reply)
    }

    /// Device control is not offered.
    pub fn ioctl(&self, _cmd: u32, _arg: usize) -> (result: VfsResult<usize>)
        ensures
            result == Err::<usize, VfsError>(VfsError::OperationNotSupported),
    {
        Err(VfsError::OperationNotSupported)
    }

    /// The request to list the directory from `offset` on.
    pub fn read_dir_call(&self, offset: u64) -> (call: FuseCall)
        ensures
            call.opcode == FuseOpcode::Readdir,
            call.nodeid == self.nodeid,
            call.in_data@ == read_args(offset, 4096).bytes(),
            FuseReadIn::decode(call.in_data@).offset == offset,
            FuseReadIn::decode(call.in_data@).size == 4096,
    {
        let in_args = FuseReadIn {
            fh: 0,
            offset,
            size: 4096,
            read_flags: 0,
            lock_owner: 0,
            flags: 0,
            padding: 0,
        };
        proof {
            law_read_is_told(offset, 4096, Seq::empty());
            assert(in_args.bytes() + Seq::<u8>::empty() =~= in_args.bytes());
        }
        FuseCall { opcode: FuseOpcode::Readdir, nodeid: self.nodeid, in_data: in_args.to_bytes() }
    }

    /// The listing in the answer to [`FuseNode::read_dir_call`].
    pub fn read_dir(&self, reply: VfsResult<Vec<u8>>) -> (result: VfsResult<DirListing>)
        ensures
            match outcome_view(reply) {
                Ok(data) => {
                    &&& result matches Ok(listing)
                    &&& listing.wf()
                    &&& listing.rest() == items(data)
                    &&& listing.offered() == 0
                    &&& listing.accepted() == 0
                    &&& forall|entries: Seq<WrittenEntry>|
                        all_fit(entries) && data == #[trigger] listing_bytes(entries)
                            ==> listing.rest() == entries.map_values(|e: WrittenEntry| e.item())
                },
                Err(e) => result == Err::<DirListing, VfsError>(e),
            },
    {
        match reply {
            Ok(data) => Ok(DirListing::new(data)),
            Err(e) => Err(e),
        }
    }

    /// The request to find `name` in the directory.
    pub fn lookup_call(&self, name: &str) -> (call: FuseCall)
        ensures
            call.opcode == FuseOpcode::Lookup,
            call.nodeid == self.nodeid,
            call.in_data@ == name_bytes(name@),
    {
        let mut in_data: Vec<u8> = Vec::new();
        put_name(&mut in_data, name);
        assert(in_data@ =~= name_bytes(name@));
        FuseCall { opcode: FuseOpcode::Lookup, nodeid: self.nodeid, in_data }
    }

    /// The entry under `name`, by the answer to [`FuseNode::lookup_call`].
    pub fn lookup(&self, name: &str, reply: VfsResult<Vec<u8>>) -> (result: VfsResult<FuseEntry>)
        ensures
            if reply_holds(outcome_view(reply), FUSE_ENTRY_OUT_SIZE as int) {
                &&& result matches Ok(entry)
                &&& entry_of(FuseEntryOut::decode(outcome_view(reply)->Ok_0), name@, entry)
                &&& entry.node.nodeid == FuseEntryOut::decode(outcome_view(reply)->Ok_0).nodeid
                &&& entry.name@ == name@
            } else {
                result == Err::<FuseEntry, VfsError>(
                    reply_error(outcome_view(reply), VfsError::NotFound),
                )
            },
    {
        let data: Vec<u8> = match contents(reply, FUSE_ENTRY_OUT_SIZE, VfsError::NotFound) {
            Ok(data) => data,
            Err(e) => return Err(e),
        };
        assert(data@.skip(0) =~= data@);
        Ok(entry_from(FuseEntryOut::from_bytes(data.as_slice(), 0), name))
    }

    /// The request to make `name` in the directory. Regular files and
    /// directories can be made.
    pub fn create_call(&self, name: &str, ty: NodeType, perm: u16) -> (call: VfsResult<FuseCall>)
        ensures
            match ty {
                NodeType::RegularFile => {
                    &&& call matches Ok(c)
                    &&& c.opcode == FuseOpcode::Create
                    &&& c.nodeid == self.nodeid
                    &&& c.in_data@ == (FuseCreateIn {
                        flags: 0o1102,
                        mode: perm as u32 | 0o100000,
                        umask: 0,
                        padding: 0,
                    }).bytes() + name_bytes(name@)
                },
                NodeType::Directory => {
                    &&& call matches Ok(c)
                    &&& c.opcode == FuseOpcode::Mkdir
                    &&& c.nodeid == self.nodeid
                    &&& c.in_data@ == (FuseMkdirIn { mode: perm as u32, umask: 0 }).bytes()
                        + name_bytes(name@)
                },
                _ => call == Err::<FuseCall, VfsError>(VfsError::OperationNotSupported),
            },
            call matches Ok(c) ==> ty == NodeType::RegularFile ==> ({
                let asked = FuseCreateIn::decode(c.in_data@);
                &&& asked.flags == 0o1102
                &&& perm < 0o100000 ==> asked.mode == 0o100000 + perm
                &&& perm >= 0o100000 ==> asked.mode == perm
                &&& asked.umask == 0
                &&& asked.padding == 0
                &&& c.in_data@.skip(16) == name_bytes(name@)
            }),
            call matches Ok(c) ==> ty == NodeType::Directory ==> ({
                let asked = FuseMkdirIn::decode(c.in_data@);
                &&& asked.mode == perm
                &&& asked.umask == 0
                &&& c.in_data@.skip(8) == name_bytes(name@)
            }),
    {
        match ty {
            NodeType::RegularFile => {
                // Create, open for reading and writing, and truncate.
                let in_args = FuseCreateIn {
                    flags: 0o1102,
                    mode: perm as u32 | 0o100000,
                    umask: 0,
                    padding: 0,
                };
                let mut in_data: Vec<u8> = in_args.to_bytes();
                put_name(&mut in_data, name);
                proof {
                    law_create_in_round_trip(in_args);
                    assert(in_data@.skip(16) =~= name_bytes(name@));
                    assert(perm < 0o100000 ==> perm as u32 | 0o100000 == 0o100000 + perm)
                        by (bit_vector);
                    assert(perm >= 0o100000 ==> perm as u32 | 0o100000 == perm) by (bit_vector);
                }
                Ok(FuseCall { opcode: FuseOpcode::Create, nodeid: self.nodeid, in_data })
            },
            NodeType::Directory => {
                let in_args = FuseMkdirIn { mode: perm as u32, umask: 0 };
                let mut in_data: Vec<u8> = in_args.to_bytes();
                put_name(&mut in_data, name);
                proof {
                    law_mkdir_in_round_trip(in_args);
                    assert(in_data@.skip(8) =~= name_bytes(name@));
                }
                Ok(FuseCall { opcode: FuseOpcode::Mkdir, nodeid: self.nodeid, in_data })
            },
            _ => Err(VfsError::OperationNotSupported),
        }
    }

    /// What was made under `name`, by the answer to [`FuseNode::create_call`].
    /// The answer for a file tells of the open file too.
    pub fn create(&self, name: &str, ty: NodeType, reply: VfsResult<Vec<u8>>) -> (result: VfsResult<
        FuseEntry,
    >)
        ensures
            match ty {
                NodeType::RegularFile => if reply_holds(
                    outcome_view(reply),
                    FUSE_ENTRY_OUT_SIZE + FUSE_OPEN_OUT_SIZE,
                ) {
                    &&& result matches Ok(entry)
                    &&& entry.node == (FuseNode {
                        nodeid: FuseEntryOut::decode(outcome_view(reply)->Ok_0).nodeid,
                        is_dir: false,
                    })
                    &&& entry.node_type == NodeType::RegularFile
                    &&& entry.name@ == name@
                } else {
                    result == Err::<FuseEntry, VfsError>(
                        reply_error(outcome_view(reply), VfsError::Io),
                    )
                },
                NodeType::Directory => if reply_holds(
                    outcome_view(reply),
                    FUSE_ENTRY_OUT_SIZE as int,
                ) {
                    &&& result matches Ok(entry)
                    &&& entry_of(FuseEntryOut::decode(outcome_view(reply)->Ok_0), name@, entry)
                } else {
                    result == Err::<FuseEntry, VfsError>(
                        reply_error(outcome_view(reply), VfsError::Io),
                    )
                },
                _ => result == Err::<FuseEntry, VfsError>(VfsError::OperationNotSupported),
            },
            reply matches Ok(data) ==> ty == NodeType::RegularFile ==> (result is Ok <==> data@.len()
                >= 144),
            reply matches Ok(data) ==> ty == NodeType::Directory ==> (result is Ok <==> data@.len()
                >= 128),
            reply matches Ok(data) ==> result matches Ok(entry) ==> entry.node.nodeid
                == FuseEntryOut::decode(data@).nodeid,
            result matches Ok(entry) ==> entry.name@ == name@,
    {
        let size: usize = match ty {
            NodeType::RegularFile => FUSE_ENTRY_OUT_SIZE + FUSE_OPEN_OUT_SIZE,
            NodeType::Directory => FUSE_ENTRY_OUT_SIZE,
            _ => return Err(VfsError::OperationNotSupported),
        };
        let data: Vec<u8> = match contents(reply, size, VfsError::Io) {
            Ok(data) => data,
            Err(e) => return Err(e),
        };
        assert(data@.skip(0) =~= data@);
        let record = FuseEntryOut::from_bytes(data.as_slice(), 0);
        if ty == NodeType::Directory {
            return Ok(entry_from(record, name));
        }
        Ok(
            FuseEntry {
                node: FuseNode { nodeid: record.nodeid, is_dir: false },
                node_type: NodeType::RegularFile,
                name: name.to_owned(),
            },
        )
    }

    /// The request to give the node with number `inode` the name `name` in the
    /// directory.
    pub fn link_call(&self, name: &str, inode: u64) -> (call: FuseCall)
        ensures
            call.opcode == FuseOpcode::Link,
            call.nodeid == self.nodeid,
            call.in_data@ == (FuseLinkIn { oldnodeid: inode }).bytes() + name_bytes(name@),
            FuseLinkIn::decode(call.in_data@).oldnodeid == inode,
            call.in_data@.skip(8) == name_bytes(name@),
    {
        let in_args = FuseLinkIn { oldnodeid: inode };
        let mut in_data: Vec<u8> = in_args.to_bytes();
        put_name(&mut in_data, name);
        proof {
            law_link_in_round_trip(in_args);
            assert(in_data@.skip(8) =~= name_bytes(name@));
        }
        FuseCall { opcode: FuseOpcode::Link, nodeid: self.nodeid, in_data }
    }

    /// The entry made under `name`, by the answer to [`FuseNode::link_call`].
    pub fn link(&self, name: &str, reply: VfsResult<Vec<u8>>) -> (result: VfsResult<FuseEntry>)
        ensures
            if reply_holds(outcome_view(reply), FUSE_ENTRY_OUT_SIZE as int) {
                &&& result matches Ok(entry)
                &&& entry_of(FuseEntryOut::decode(outcome_view(reply)->Ok_0), name@, entry)
                &&& entry.node.nodeid == FuseEntryOut::decode(outcome_view(reply)->Ok_0).nodeid
                &&& entry.name@ == name@
            } else {
                result == Err::<FuseEntry, VfsError>(
                    reply_error(outcome_view(reply), VfsError::Io),
                )
            },
    {
        let data: Vec<u8> = match contents(reply, FUSE_ENTRY_OUT_SIZE, VfsError::Io) {
            Ok(data) => data,
            Err(e) => return Err(e),
        };
        assert(data@.skip(0) =~= data@);
        Ok(entry_from(FuseEntryOut::from_bytes(data.as_slice(), 0), name))
    }

    /// The request to remove `name` from the directory.
    pub fn unlink_call(&self, name: &str) -> (call: FuseCall)
        ensures
            call.opcode == FuseOpcode::Unlink,
            call.nodeid == self.nodeid,
            call.in_data@ == name_bytes(name@),
    {
        let mut in_data: Vec<u8> = Vec::new();
        put_name(&mut in_data, name);
        assert(in_data@ =~= name_bytes(name@));
        FuseCall { opcode: FuseOpcode::Unlink, nodeid: self.nodeid, in_data }
    }

    /// What came of [`FuseNode::unlink_call`].
    pub fn unlink(&self, reply: VfsResult<Vec<u8>>) -> (result: VfsResult<()>)
        ensures
            result == (match reply {
                Ok(_) => Ok::<(), VfsError>(()),
                Err(e) => Err(e),
            }),
    {
        no_contents(reply)
    }

    /// The request to move `old_name` out of the directory and into the
    /// directory with number `newdir`, as `new_name`.
    pub fn rename_call(&self, old_name: &str, newdir: u64, new_name: &str) -> (call: FuseCall)
        ensures
            call.opcode == FuseOpcode::Rename,
            call.nodeid == self.nodeid,
            call.in_data@ == (FuseRenameIn { newdir }).bytes() + name_bytes(old_name@) + name_bytes(
                new_name@,
            ),
            FuseRenameIn::decode(call.in_data@).newdir == newdir,
            call.in_data@.skip(8) == name_bytes(old_name@) + name_bytes(new_name@),
    {
        let in_args = FuseRenameIn { newdir };
        let mut in_data: Vec<u8> = in_args.to_bytes();
        put_name(&mut in_data, old_name);
        put_name(&mut in_data, new_name);
        proof {
            law_rename_in_round_trip(in_args);
            let names = name_bytes(old_name@) + name_bytes(new_name@);
            assert(in_data@ =~= in_args.bytes() + names);
            assert(in_data@.skip(8) =~= names);
        }
        FuseCall { opcode: FuseOpcode::Rename, nodeid: self.nodeid, in_data }
    }

    /// What came of [`FuseNode::rename_call`].
    pub fn rename(&self, reply: VfsResult<Vec<u8>>) -> (result: VfsResult<()>)
        ensures
            result == (match reply {
                Ok(_) => Ok::<(), VfsError>(()),
                Err(e) => Err(e),
            }),
    {
        no_contents(reply)
    }
}

} // verus!
