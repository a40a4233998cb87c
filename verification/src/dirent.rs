//! Directory listings as the daemon sends them.
//!
//! A listing is a row of entries. Each is a [`FuseDirent`], the name, and zero
//! bytes up to the next multiple of eight.
use vstd::prelude::*;
use vstd::string::*;
use vstd::utf8::*;

use crate::abi::{law_dirent_layout, law_dirent_round_trip, FuseDirent, FUSE_DIRENT_SIZE};
use crate::bytes::le_value;
use crate::node::NodeType;
use crate::text::utf8_text;

verus! {

/// An entry of a directory.
#[derive(Debug, PartialEq, Eq)]
pub struct DirItem {
    /// The name.
    pub name: String,
    /// Inode number.
    pub ino: u64,
    /// What the entry is.
    pub node_type: NodeType,
    /// Where to go on after this entry.
    pub off: u64,
}

/// What a [`DirItem`] holds.
#[verifier::ext_equal]
pub struct DirItemView {
    /// The name.
    pub name: Seq<char>,
    /// Inode number.
    pub ino: u64,
    /// What the entry is.
    pub node_type: NodeType,
    /// Where to go on after this entry.
    pub off: u64,
}

impl View for DirItem {
    type V = DirItemView;

    open spec fn view(&self) -> DirItemView {
        DirItemView {
            name: self.name@,
            ino: self.ino,
            node_type: self.node_type,
            off: self.off,
        }
    }
}

/// What an entry is, by the type in its record: a directory, or else taken for
/// a regular file. Bits of the type above the lowest twenty do not count.
pub open spec fn dirent_type(type_: u32) -> NodeType {
    if type_ % 0x10_0000 == 4 {
        NodeType::Directory
    } else {
        NodeType::RegularFile
    }
}

/// The least multiple of eight that is not below `n`.
pub open spec fn padded(n: nat) -> nat {
    ((n + 7) / 8 * 8) as nat
}

/// An entry stands complete at the front of `s`.
pub open spec fn entry_complete(s: Seq<u8>) -> bool {
    s.len() >= FUSE_DIRENT_SIZE && FUSE_DIRENT_SIZE + FuseDirent::decode(s).namelen <= s.len()
}

/// The bytes of the name of the entry at the front of `s`.
pub open spec fn entry_name(s: Seq<u8>) -> Seq<u8> {
    s.subrange(
        FUSE_DIRENT_SIZE as int,
        FUSE_DIRENT_SIZE + FuseDirent::decode(s).namelen,
    )
}

/// The entry at the front of `s`.
pub open spec fn entry_item(s: Seq<u8>) -> DirItemView {
    let record = FuseDirent::decode(s);
    DirItemView {
        name: decode_utf8(entry_name(s)),
        ino: record.ino,
        node_type: dirent_type(record.type_),
        off: record.off,
    }
}

/// What follows the entry at the front of `s`.
pub open spec fn after_entry(s: Seq<u8>) -> Seq<u8> {
    let size = padded(FUSE_DIRENT_SIZE as nat + FuseDirent::decode(s).namelen as nat);
    if size < s.len() {
        s.skip(size as int)
    } else {
        Seq::empty()
    }
}

/// The entries of a listing. Those whose name is not valid UTF-8 are left out,
/// and the listing ends where an entry is incomplete.
pub open spec fn items(s: Seq<u8>) -> Seq<DirItemView>
    decreases s.len(),
{
    if entry_complete(s) {
        let rest = items(after_entry(s));
        if valid_utf8(entry_name(s)) {
            seq![entry_item(s)] + rest
        } else {
            rest
        }
    } else {
        Seq::empty()
    }
}

/// Padding goes up to a multiple of eight, and to the nearest one.
pub proof fn law_padded(n: nat)
    ensures
        padded(n) % 8 == 0,
        n <= padded(n) < n + 8,
{
}

/// The kind of an entry is a directory exactly if its type, moved up to where a
/// mode has its file type, says so in 32 bits; else it is a regular file.
pub proof fn law_dirent_type(type_: u32)
    ensures
        dirent_type(type_) == NodeType::Directory <==> type_ << 12 == 0o040000,
        dirent_type(type_) == NodeType::RegularFile <==> type_ << 12 != 0o040000,
{
    assert(type_ << 12 == 0o040000 <==> type_ % 0x10_0000 == 4) by (bit_vector);
}

/// A complete entry, padded with any bytes up to a multiple of eight, is read as
/// what was written if its name is valid UTF-8, and skipped if it is not. What
/// follows it is read as if it stood alone.
pub proof fn law_entry_is_read(record: FuseDirent, name: Seq<u8>, pad: Seq<u8>, rest: Seq<u8>)
    requires
        record.namelen == name.len(),
        pad.len() < 8,
        (24 + name.len() + pad.len()) % 8 == 0,
    ensures
        ({
            let read = items(record.bytes() + name + pad + rest);
            if valid_utf8(name) {
                &&& read.len() == 1 + items(rest).len()
                &&& read[0].name == decode_utf8(name)
                &&& read[0].ino == record.ino
                &&& read[0].off == record.off
                &&& read[0].node_type == (if record.type_ << 12 == 0o040000 {
                    NodeType::Directory
                } else {
                    NodeType::RegularFile
                })
                &&& read.skip(1) == items(rest)
            } else {
                read == items(rest)
            }
        }),
{
    let s = record.bytes() + name + pad + rest;
    let tail = name + pad + rest;
    assert(s =~= record.bytes() + tail);
    assert(tail.take(name.len() as int) =~= name);
    lemma_front_entry(record, name, s, tail);
    law_dirent_type(record.type_);
    law_padded(24 + name.len());
    assert(padded(24 + name.len()) == 24 + name.len() + pad.len());
    assert(after_entry(s) =~= rest);
    if valid_utf8(name) {
        assert((seq![entry_item(s)] + items(rest)).skip(1) =~= items(rest));
    }
}

/// The last entry of a listing need not be padded.
pub proof fn law_last_entry_needs_no_padding(record: FuseDirent, name: Seq<u8>, pad: Seq<u8>)
    requires
        record.namelen == name.len(),
        pad.len() > 0 ==> (24 + name.len()) % 8 + pad.len() <= 8 && (24 + name.len()) % 8 != 0,
    ensures
        ({
            let read = items(record.bytes() + name + pad);
            if valid_utf8(name) {
                &&& read.len() == 1
                &&& read[0].name == decode_utf8(name)
                &&& read[0].ino == record.ino
                &&& read[0].off == record.off
            } else {
                read.len() == 0
            }
        }),
{
    let s = record.bytes() + name + pad;
    let tail = name + pad;
    assert(s =~= record.bytes() + tail);
    assert(tail.take(name.len() as int) =~= name);
    lemma_front_entry(record, name, s, tail);
    law_padded(24 + name.len());
    assert(after_entry(s) =~= Seq::<u8>::empty());
    assert(items(Seq::<u8>::empty()).len() == 0);
}

/// A listing ends where there is no room for the record of an entry, or for the
/// name that the record announces.
pub proof fn law_incomplete_entry_ends_listing(s: Seq<u8>)
    ensures
        s.len() < 24 ==> items(s).len() == 0,
        s.len() >= 24 && 24 + le_value(s.subrange(16, 20)) > s.len() ==> items(s).len() == 0,
{
    if s.len() >= 24 {
        law_dirent_layout(FuseDirent { ino: 0, off: 0, namelen: 0, type_: 0 }, s);
    }
}

/// What stands at the front of a listing that starts with an entry.
proof fn lemma_front_entry(record: FuseDirent, name: Seq<u8>, s: Seq<u8>, tail: Seq<u8>)
    requires
        record.namelen == name.len(),
        s == record.bytes() + tail,
        tail.len() >= name.len(),
        tail.take(name.len() as int) == name,
    ensures
        FuseDirent::decode(s) == record,
        entry_complete(s),
        entry_name(s) == name,
        s.len() == 24 + tail.len(),
{
    law_dirent_round_trip(record);
    assert(s.skip(24) =~= tail);
    assert forall|i: int| 0 <= i < name.len() implies entry_name(s)[i] == name[i] by {
        assert(s[24 + i] == tail[i]);
        assert(tail.take(name.len() as int)[i] == tail[i]);
    }
    assert(entry_name(s) =~= name);
}

/// An entry as a daemon writes it: inode number, offset, type and name, and the
/// bytes that fill it up.
pub struct WrittenEntry {
    /// Inode number.
    pub ino: u64,
    /// Where to go on after this entry.
    pub off: u64,
    /// File type.
    pub type_: u32,
    /// The name.
    pub name: Seq<char>,
    /// What fills the entry up to a multiple of eight bytes.
    pub pad: Seq<u8>,
}

impl WrittenEntry {
    /// The record at the front of the entry.
    pub open spec fn record(self) -> FuseDirent {
        FuseDirent {
            ino: self.ino,
            off: self.off,
            namelen: encode_utf8(self.name).len() as u32,
            type_: self.type_,
        }
    }

    /// The bytes of the entry.
    pub open spec fn bytes(self) -> Seq<u8> {
        self.record().bytes() + encode_utf8(self.name) + self.pad
    }

    /// The length of the name fits its field, and the entry is filled up with
    /// less than eight bytes to a multiple of eight.
    pub open spec fn fits(self) -> bool {
        &&& encode_utf8(self.name).len() <= u32::MAX
        &&& self.pad.len() < 8
        &&& (24 + encode_utf8(self.name).len() + self.pad.len()) % 8 == 0
    }

    /// The entry that a reader sees.
    pub open spec fn item(self) -> DirItemView {
        DirItemView {
            name: self.name,
            ino: self.ino,
            node_type: dirent_type(self.type_),
            off: self.off,
        }
    }
}

/// The bytes of a row of entries.
pub open spec fn listing_bytes(entries: Seq<WrittenEntry>) -> Seq<u8>
    decreases entries.len(),
{
    if entries.len() == 0 {
        Seq::empty()
    } else {
        entries[0].bytes() + listing_bytes(entries.drop_first())
    }
}

/// All of the entries fit.
pub open spec fn all_fit(entries: Seq<WrittenEntry>) -> bool {
    forall|i: int| 0 <= i < entries.len() ==> (#[trigger] entries[i]).fits()
}

/// Reading a listing gives the entries that the daemon wrote, in its order:
/// every one of them, with its name, numbers and kind.
pub proof fn law_listing_round_trip(entries: Seq<WrittenEntry>)
    requires
        forall|i: int| 0 <= i < entries.len() ==> (#[trigger] entries[i]).fits(),
    ensures
        items(listing_bytes(entries)) == entries.map_values(|e: WrittenEntry| e.item()),
        items(listing_bytes(entries)).len() == entries.len(),
        forall|i: int|
            0 <= i < entries.len() ==> {
                let read = #[trigger] items(listing_bytes(entries))[i];
                &&& read.name == entries[i].name
                &&& read.ino == entries[i].ino
                &&& read.off == entries[i].off
                &&& read.node_type == (if entries[i].type_ << 12 == 0o040000 {
                    NodeType::Directory
                } else {
                    NodeType::RegularFile
                })
            },
    decreases entries.len(),
{
    if entries.len() > 0 {
        let first = entries[0];
        let others = entries.drop_first();
        assert forall|i: int| 0 <= i < others.len() implies (#[trigger] others[i]).fits() by {
            assert(others[i] == entries[i + 1]);
        }
        law_listing_round_trip(others);
        let s = listing_bytes(entries);
        let rest = listing_bytes(others);
        let name = encode_utf8(first.name);
        assert(entries[0].fits());
        law_entry_is_read(first.record(), name, first.pad, rest);
        law_dirent_type(first.type_);
        encode_utf8_valid_utf8(first.name);
        encode_utf8_decode_utf8(first.name);
        assert(s =~= first.record().bytes() + name + first.pad + rest);
        let read = items(s);
        assert(read =~= seq![read[0]] + read.skip(1));
        assert(read[0] == first.item());
        assert(entries.map_values(|e: WrittenEntry| e.item()) =~= seq![first.item()]
            + others.map_values(|e: WrittenEntry| e.item()));
    } else {
        assert(entries.map_values(|e: WrittenEntry| e.item()) =~= Seq::<DirItemView>::empty());
    }
    assert forall|i: int| 0 <= i < entries.len() implies {
        let read = #[trigger] items(listing_bytes(entries))[i];
        &&& read.name == entries[i].name
        &&& read.ino == entries[i].ino
        &&& read.off == entries[i].off
        &&& read.node_type == (if entries[i].type_ << 12 == 0o040000 {
            NodeType::Directory
        } else {
            NodeType::RegularFile
        })
    } by {
        law_dirent_type(entries[i].type_);
    }
}

/// An entry that the reader takes counts, and the listing goes on; an entry that
/// it refuses does not count, and nothing is offered after it.
pub proof fn law_answer(rest: Seq<DirItemView>, accepted: nat)
    ensures
        answered(rest, accepted, true) == (rest, accepted + 1),
        answered(rest, accepted, false) == (Seq::<DirItemView>::empty(), accepted),
{
}

/// What a [`DirItem`] is seen to hold is what it holds.
pub proof fn law_item_view(item: DirItem)
    ensures
        item@.name == item.name@,
        item@.ino == item.ino,
        item@.node_type == item.node_type,
        item@.off == item.off,
{
}

/// What is left to offer and how many entries were taken, once a reader has
/// answered to an entry: a refusal ends the listing.
pub open spec fn answered(
    rest: Seq<DirItemView>,
    accepted: nat,
    taken: bool,
) -> (Seq<DirItemView>, nat) {
    if taken {
        (rest, accepted + 1)
    } else {
        (Seq::empty(), accepted)
    }
}

/// How many entries a reader has taken in the end that had taken `accepted`
/// before, is offered those of `rest` one after the other, and answers as
/// `answers` say.
pub open spec fn taken(rest: Seq<DirItemView>, accepted: nat, answers: Seq<bool>) -> nat
    decreases answers.len(),
{
    if rest.len() == 0 || answers.len() == 0 {
        accepted
    } else {
        let (rest_after, accepted_after) = answered(rest.drop_first(), accepted, answers[0]);
        taken(rest_after, accepted_after, answers.drop_first())
    }
}

/// A reader that takes entries gets all of them up to the first that it
/// refuses, and none after that.
pub proof fn law_taken_until_refused(rest: Seq<DirItemView>, accepted: nat, answers: Seq<bool>)
    ensures
        ({
            let n = taken(rest, accepted, answers) - accepted;
            &&& 0 <= n <= rest.len()
            &&& n <= answers.len()
            &&& forall|i: int| 0 <= i < n ==> #[trigger] answers[i]
            &&& n < rest.len() && n < answers.len() ==> !answers[n]
        }),
    decreases answers.len(),
{
    if rest.len() > 0 && answers.len() > 0 {
        let others = answers.drop_first();
        let n = taken(rest, accepted, answers) - accepted;
        if answers[0] {
            law_taken_until_refused(rest.drop_first(), accepted + 1, others);
            assert forall|i: int| 0 <= i < n implies #[trigger] answers[i] by {
                if i > 0 {
                    assert(others[i - 1]);
                }
            }
            if n < rest.len() && n < answers.len() {
                assert(others[n - 1] == answers[n]);
            }
        } else {
            assert(taken(Seq::empty(), accepted, others) == accepted);
        }
    }
}

/// A listing on its way to a reader that takes entries one by one.
pub struct DirListing {
    data: Vec<u8>,
    at: usize,
    offered: usize,
    accepted: usize,
    closed: bool,
}

impl DirListing {
    /// The entries still to be offered.
    pub closed spec fn rest(&self) -> Seq<DirItemView> {
        if self.closed {
            Seq::empty()
        } else {
            items(self.data@.skip(self.at as int))
        }
    }

    /// How many entries have been offered.
    pub closed spec fn offered(&self) -> nat {
        self.offered as nat
    }

    /// How many of the offered entries the reader took.
    pub closed spec fn accepted(&self) -> nat {
        self.accepted as nat
    }

    /// The position is inside the listing, and no more entries were taken than
    /// offered, nor offered than stand before the position.
    pub closed spec fn wf(&self) -> bool {
        &&& self.at <= self.data@.len()
        &&& self.accepted <= self.offered <= self.at
    }

    /// Starts on a listing.
    pub fn new(data: Vec<u8>) -> (listing: DirListing)
        ensures
            listing.wf(),
            listing.rest() == items(data@),
            listing.offered() == 0,
            listing.accepted() == 0,
            forall|entries: Seq<WrittenEntry>|
                all_fit(entries) && data@ == #[trigger] listing_bytes(entries) ==> listing.rest()
                    == entries.map_values(|e: WrittenEntry| e.item()),
    {
        proof {
            assert forall|entries: Seq<WrittenEntry>|
                all_fit(entries) && data@ == #[trigger] listing_bytes(entries) implies items(data@)
                == entries.map_values(|e: WrittenEntry| e.item()) by {
                law_listing_round_trip(entries);
            }
        }
        assert(data@.skip(0) =~= data@);
        DirListing { data, at: 0, offered: 0, accepted: 0, closed: false }
    }

    /// Gives the next entry to offer to the reader.
    pub fn next_item(&mut self) -> (item: Option<DirItem>)
        requires
            old(self).wf(),
        ensures
            final(self).wf(),
            final(self).accepted() == old(self).accepted(),
            if old(self).rest().len() == 0 {
                &&& item is None
                &&& final(self).rest() == old(self).rest()
                &&& final(self).offered() == old(self).offered()
            } else {
                &&& item matches Some(i)
                &&& i@ == old(self).rest()[0]
                &&& final(self).rest() == old(self).rest().drop_first()
                &&& final(self).offered() == old(self).offered() + 1
            },
    {
        if self.closed {
            return None;
        }
        let ghost start = items(self.data@.skip(self.at as int));
        let ghost offered_before = self.offered;
        let ghost accepted_before = self.accepted;
        let len: usize = self.data.len();
        while len - self.at >= FUSE_DIRENT_SIZE
            invariant
                len == self.data@.len(),
                self.at <= len,
                !self.closed,
                self.offered == offered_before,
                self.accepted == accepted_before,
                self.accepted <= self.offered <= self.at,
                start == items(self.data@.skip(self.at as int)),
                start == old(self).rest(),
                offered_before == old(self).offered(),
                accepted_before == old(self).accepted(),
            decreases len - self.at,
        {
            let ghost s = self.data@.skip(self.at as int);
            let record = FuseDirent::from_bytes(self.data.as_slice(), self.at);
            let room: usize = len - self.at - FUSE_DIRENT_SIZE;
            if record.namelen as u64 > room as u64 {
                return None;
            }
            let namelen: usize = record.namelen as usize;
            let from: usize = self.at + FUSE_DIRENT_SIZE;
            let name_bytes: &[u8] = vstd::slice::slice_subrange(
                self.data.as_slice(),
                from,
                from + namelen,
            );
            assert(name_bytes@ =~= entry_name(s));
            let node_type = if record.type_ % 0x10_0000 == 4 {
                NodeType::Directory
            } else {
                NodeType::RegularFile
            };
            let text: Option<String> = match utf8_text(name_bytes) {
                Some(name) => Some(name.to_owned()),
                None => None,
            };
            // On to the next multiple of eight, but not beyond the end.
            let end: usize = FUSE_DIRENT_SIZE + namelen;
            let pad: usize = (8 - end % 8) % 8;
            let next: usize = if pad > room - namelen {
                len
            } else {
                self.at + end + pad
            };
            proof {
                assert(end + pad == padded(end as nat));
                assert(after_entry(s) =~= self.data@.skip(next as int));
            }
            self.at = next;
            match text {
                Some(name) => {
                    self.offered = self.offered + 1;
                    assert(start.drop_first() =~= items(self.data@.skip(self.at as int)));
                    return Some(
                        DirItem { name, ino: record.ino, node_type, off: record.off },
                    );
                },
                None => {},
            }
        }
        None
    }

    /// Takes the reader's word on the entry offered last. A refusal ends the
    /// listing.
    pub fn answer(&mut self, taken: bool)
        requires
            old(self).wf(),
            old(self).accepted() < old(self).offered(),
        ensures
            final(self).wf(),
            final(self).offered() == old(self).offered(),
            (final(self).rest(), final(self).accepted()) == answered(
                old(self).rest(),
                old(self).accepted(),
                taken,
            ),
            taken ==> final(self).rest() == old(self).rest(),
            taken ==> final(self).accepted() == old(self).accepted() + 1,
            !taken ==> final(self).rest().len() == 0,
            !taken ==> final(self).accepted() == old(self).accepted(),
    {
        if taken {
            self.accepted = self.accepted + 1;
        } else {
            self.closed = true;
        }
    }

    /// How many entries the reader took.
    pub fn count(&self) -> (count: usize)
        ensures
            count == self.accepted(),
    {
        self.accepted
    }
}

} // verus!
