//! The kernel's symbol table, as it stands in a file.
//!
//! The table is used where it lies: its parts start at multiples of eight in
//! memory, so where they stand in the file depends on where the file was put.
//! That is not known here. `pad` is the number of bytes from the start of the
//! table to the next multiple of eight.
//!
//! ```text
//! 0                length of the table
//! 8                number of symbols, n
//! 16 + pad         n addresses of 8 bytes, n offsets and n places of 4 bytes
//! names_at         length of the names, names, up to a multiple of eight
//! tokens_at        length of the tokens, tokens, up to a multiple of eight
//! index_at         number of index entries, index entries of 4 bytes
//! ```
use vstd::prelude::*;

use ksym::KallsymsMapped;

use crate::bytes::{get_le, law_le_value_of_bytes, le_bytes, le_value};
use crate::bytes::{lemma_le_bytes_len, lemma_le_limits};

verus! {

/// `ksym::KallsymsMapped`: a symbol table that can be searched.
#[verifier::external_type_specification]
#[verifier::external_body]
pub struct ExKallsymsMapped<'a>(KallsymsMapped<'a>);

/// The number in the eight bytes at `at`.
pub open spec fn word(table: Seq<u8>, at: int) -> nat {
    le_value(table.subrange(at, at + 8))
}

/// The least multiple of eight that is not below `n`.
pub open spec fn up(n: nat) -> nat {
    ((n + 7) / 8 * 8) as nat
}

/// Where the names stand.
pub open spec fn names_at(table: Seq<u8>, pad: int) -> int {
    16 + pad + 16 * word(table, 8)
}

/// Where the tokens stand.
pub open spec fn tokens_at(table: Seq<u8>, pad: int) -> int {
    names_at(table, pad) + 8 + up(word(table, names_at(table, pad)))
}

/// Where the index of the tokens stands.
pub open spec fn index_at(table: Seq<u8>, pad: int) -> int {
    tokens_at(table, pad) + 8 + up(word(table, tokens_at(table, pad)))
}

/// The table tells its own length.
pub open spec fn length_told(table: Seq<u8>) -> bool {
    table.len() >= 16 && word(table, 0) == table.len()
}

/// The names stand inside the table.
pub open spec fn names_inside(table: Seq<u8>, pad: int) -> bool {
    let at = names_at(table, pad);
    at + 8 + word(table, at) <= table.len()
}

/// The tokens stand inside the table.
pub open spec fn tokens_inside(table: Seq<u8>, pad: int) -> bool {
    let at = tokens_at(table, pad);
    at + 8 + word(table, at) <= table.len()
}

/// The index of the tokens stands inside the table.
pub open spec fn index_inside(table: Seq<u8>, pad: int) -> bool {
    let at = index_at(table, pad);
    at + 8 + 4 * word(table, at) <= table.len()
}

/// With `pad` bytes to the next multiple of eight, all parts of the table stand
/// inside it.
pub open spec fn well_laid(table: Seq<u8>, pad: int) -> bool {
    &&& length_told(table)
    &&& names_inside(table, pad)
    &&& tokens_inside(table, pad)
    &&& index_inside(table, pad)
}

/// With `pad` bytes to the next multiple of eight, no length that is met on the
/// way through the table is so large that the end of its part cannot be told.
pub open spec fn lengths_fit_at(table: Seq<u8>, pad: int) -> bool {
    let len = table.len();
    let names = names_at(table, pad);
    let tokens = tokens_at(table, pad);
    let index = index_at(table, pad);
    length_told(table) ==> {
        &&& 16 + pad + 8 * word(table, 8) <= usize::MAX
        &&& names + 8 <= len ==> len + word(table, names) <= usize::MAX
        &&& names_inside(table, pad) && tokens + 8 <= len ==> len + word(table, tokens)
            <= usize::MAX
        &&& names_inside(table, pad) && tokens_inside(table, pad) && index + 8 <= len ==> len + 4
            * word(table, index) <= usize::MAX
    }
}

/// Wherever the table lies, none of its lengths is too large.
pub open spec fn lengths_fit(table: Seq<u8>) -> bool {
    forall|pad: int| 0 <= pad < 8 ==> #[trigger] lengths_fit_at(table, pad)
}

/// A table that is well laid has no length that is too large, if it can be held
/// in memory twice.
pub proof fn law_well_laid_lengths_fit(table: Seq<u8>, pad: int)
    requires
        0 <= pad < 8,
        2 * table.len() <= usize::MAX,
        well_laid(table, pad),
    ensures
        lengths_fit_at(table, pad),
{
}

/// The rounding in the table goes up to a multiple of eight, and to the nearest.
pub proof fn law_up(n: nat)
    ensures
        up(n) % 8 == 0,
        n <= up(n) < n + 8,
{
}

/// What it takes for the lengths in a table to fit, wherever it lies: the end of
/// the addresses can be told, and so can the end of the names, that of the tokens
/// and that of the index, as far as the parts before them stand inside.
pub proof fn law_lengths_that_fit(table: Seq<u8>, pad: int)
    requires
        0 <= pad < 8,
        lengths_fit(table),
        table.len() >= 16,
        le_value(table.subrange(0, 8)) == table.len(),
    ensures
        ({
            let len = table.len() as int;
            let names = 16 + pad + 16 * le_value(table.subrange(8, 16));
            let names_len = le_value(table.subrange(names, names + 8)) as int;
            let tokens = names + 8 + (names_len + 7) / 8 * 8;
            let tokens_len = le_value(table.subrange(tokens, tokens + 8)) as int;
            let index = tokens + 8 + (tokens_len + 7) / 8 * 8;
            let index_len = le_value(table.subrange(index, index + 8)) as int;
            &&& 16 + pad + 8 * le_value(table.subrange(8, 16)) <= usize::MAX
            &&& names + 8 <= len ==> len + names_len <= usize::MAX
            &&& names + 8 + names_len <= len && tokens + 8 <= len ==> len + tokens_len <= usize::MAX
            &&& names + 8 + names_len <= len && tokens + 8 + tokens_len <= len && index + 8 <= len
                ==> len + 4 * index_len <= usize::MAX
        }),
{
    assert(lengths_fit_at(table, pad));
}

/// The bounds of the kernel's code that a table was made with.
pub uninterp spec fn text_bounds(table: KallsymsMapped<'static>) -> (u64, u64);

/// The bytes that a table uses: those of the addresses, the offsets, the order of
/// the names, the names, the tokens, and the index of the tokens.
pub uninterp spec fn table_parts(table: KallsymsMapped<'static>) -> Seq<Seq<u8>>;

/// The parts of a table, with `pad` bytes to the next multiple of eight.
pub open spec fn parts_at(table: Seq<u8>, pad: int) -> Seq<Seq<u8>> {
    let count = word(table, 8) as int;
    let names = names_at(table, pad) + 8;
    let tokens = tokens_at(table, pad) + 8;
    let index = index_at(table, pad) + 8;
    seq![
        table.subrange(16 + pad, 16 + pad + 8 * count),
        table.subrange(16 + pad + 8 * count, 16 + pad + 12 * count),
        table.subrange(16 + pad + 12 * count, 16 + pad + 16 * count),
        table.subrange(names, names + word(table, names - 8)),
        table.subrange(tokens, tokens + word(table, tokens - 8)),
        table.subrange(index, index + 4 * word(table, index - 8)),
    ]
}

/// A table as it is written: the bytes of its parts, and those that fill them up.
pub struct WrittenTable {
    /// The number of symbols.
    pub count: nat,
    /// The bytes up to the first multiple of eight.
    pub gap: Seq<u8>,
    /// The addresses.
    pub addresses: Seq<u8>,
    /// The offsets.
    pub offsets: Seq<u8>,
    /// The places.
    pub places: Seq<u8>,
    /// The names.
    pub names: Seq<u8>,
    /// What fills the names up.
    pub names_fill: Seq<u8>,
    /// The tokens.
    pub tokens: Seq<u8>,
    /// What fills the tokens up.
    pub tokens_fill: Seq<u8>,
    /// The number of index entries.
    pub index_count: nat,
    /// The index entries.
    pub index: Seq<u8>,
    /// What follows the index.
    pub rest: Seq<u8>,
}

impl WrittenTable {
    /// From the length of the tokens on.
    #[verifier::opaque]
    pub open spec fn tokens_on(self) -> Seq<u8> {
        le_bytes(self.tokens.len(), 8) + (self.tokens + (self.tokens_fill + (le_bytes(
            self.index_count,
            8,
        ) + (self.index + self.rest))))
    }

    /// From the number of symbols on.
    #[verifier::opaque]
    pub open spec fn count_on(self) -> Seq<u8> {
        le_bytes(self.count, 8) + (self.gap + (self.addresses + (self.offsets + (self.places + (
        le_bytes(self.names.len(), 8) + (self.names + (self.names_fill + self.tokens_on())))))))
    }

    /// All bytes of the table.
    #[verifier::opaque]
    pub open spec fn bytes(self) -> Seq<u8> {
        le_bytes(8 + self.count_on().len(), 8) + self.count_on()
    }

    /// The parts have the lengths that they should have: eight bytes for an
    /// address, four for an offset, a place or an index entry, and less than eight
    /// bytes to fill up the names and the tokens to a multiple of eight. The
    /// length of the whole can be told in eight bytes.
    pub open spec fn fits(self) -> bool {
        &&& self.gap.len() < 8
        &&& self.addresses.len() == 8 * self.count
        &&& self.offsets.len() == 4 * self.count
        &&& self.places.len() == 4 * self.count
        &&& self.names_fill.len() < 8
        &&& (self.names.len() + self.names_fill.len()) % 8 == 0
        &&& self.tokens_fill.len() < 8
        &&& (self.tokens.len() + self.tokens_fill.len()) % 8 == 0
        &&& self.index.len() == 4 * self.index_count
        &&& 8 + self.count_on().len() < 0x1_0000_0000_0000_0000
    }
}

/// A part that stands at some place, and what follows it.
proof fn lemma_part(s: Seq<u8>, at: int, part: Seq<u8>, tail: Seq<u8>)
    requires
        0 <= at <= s.len(),
        s.skip(at) == part + tail,
    ensures
        at + part.len() <= s.len(),
        s.subrange(at, at + part.len()) == part,
        s.skip(at + part.len()) == tail,
        s.len() == at + part.len() + tail.len(),
{
    let both = part + tail;
    assert(s.skip(at).len() == both.len());
    assert forall|i: int| 0 <= i < both.len() implies s[at + i] == both[i] by {
        assert(s.skip(at)[i] == s[at + i]);
    }
    assert(s.subrange(at, at + part.len()) =~= part);
    assert forall|i: int| 0 <= i < tail.len() implies s.skip(at + part.len())[i] == tail[i] by {
        assert(both[part.len() + i] == tail[i]);
    }
    assert(s.skip(at + part.len()) =~= tail);
}

/// A number of eight bytes that stands at some place, and what follows it.
proof fn lemma_word(s: Seq<u8>, at: int, value: nat, tail: Seq<u8>)
    requires
        0 <= at <= s.len(),
        s.skip(at) == le_bytes(value, 8) + tail,
        value < 0x1_0000_0000_0000_0000,
    ensures
        at + 8 <= s.len(),
        word(s, at) == value,
        s.skip(at + 8) == tail,
        s.len() == at + 8 + tail.len(),
{
    broadcast use {lemma_le_bytes_len, law_le_value_of_bytes};

    lemma_le_limits();
    lemma_part(s, at, le_bytes(value, 8), tail);
}

/// The front of a table that was written, up to the tokens.
proof fn lemma_table_front(t: WrittenTable)
    requires
        t.fits(),
    ensures
        ({
            let s = t.bytes();
            let pad = t.gap.len() as int;
            let n = t.count as int;
            let names = 16 + pad + 16 * n;
            &&& length_told(s)
            &&& word(s, 8) == t.count
            &&& s.subrange(16 + pad, 16 + pad + 8 * n) == t.addresses
            &&& s.subrange(16 + pad + 8 * n, 16 + pad + 12 * n) == t.offsets
            &&& s.subrange(16 + pad + 12 * n, 16 + pad + 16 * n) == t.places
            &&& word(s, names) == t.names.len()
            &&& s.subrange(names + 8, names + 8 + t.names.len()) == t.names
            &&& names + 8 + t.names.len() + t.names_fill.len() <= s.len()
            &&& s.skip(names + 8 + t.names.len() + t.names_fill.len()) == t.tokens_on()
            &&& s.len() < 0x1_0000_0000_0000_0000
        }),
{
    broadcast use lemma_le_bytes_len;

    reveal(WrittenTable::bytes);
    reveal(WrittenTable::count_on);
    let s = t.bytes();
    let pad = t.gap.len() as int;
    let n = t.count as int;
    assert(s.skip(0) =~= s);
    lemma_word(s, 0, 8 + t.count_on().len(), t.count_on());
    let t5 = t.names_fill + t.tokens_on();
    let t4 = le_bytes(t.names.len(), 8) + (t.names + t5);
    let t3 = t.places + t4;
    let t2 = t.offsets + t3;
    let t1 = t.addresses + t2;
    assert(t.count_on() == le_bytes(t.count, 8) + (t.gap + t1));
    lemma_word(s, 8, t.count, t.gap + t1);
    lemma_part(s, 16, t.gap, t1);
    lemma_part(s, 16 + pad, t.addresses, t2);
    lemma_part(s, 16 + pad + 8 * n, t.offsets, t3);
    lemma_part(s, 16 + pad + 12 * n, t.places, t4);
    let names = 16 + pad + 16 * n;
    lemma_word(s, names, t.names.len(), t.names + t5);
    lemma_part(s, names + 8, t.names, t5);
    lemma_part(s, names + 8 + t.names.len(), t.names_fill, t.tokens_on());
}

/// The tokens of a table that was written, and what follows them.
proof fn lemma_table_back(t: WrittenTable, s: Seq<u8>, tokens: int)
    requires
        t.fits(),
        0 <= tokens <= s.len(),
        s.skip(tokens) == t.tokens_on(),
        s.len() < 0x1_0000_0000_0000_0000,
    ensures
        ({
            let index = tokens + 8 + t.tokens.len() + t.tokens_fill.len();
            &&& word(s, tokens) == t.tokens.len()
            &&& s.subrange(tokens + 8, tokens + 8 + t.tokens.len()) == t.tokens
            &&& word(s, index) == t.index_count
            &&& s.subrange(index + 8, index + 8 + 4 * t.index_count) == t.index
            &&& index + 8 + 4 * t.index_count <= s.len()
        }),
{
    broadcast use lemma_le_bytes_len;

    reveal(WrittenTable::tokens_on);
    let t8 = t.index + t.rest;
    let t7 = le_bytes(t.index_count, 8) + t8;
    let t6 = t.tokens_fill + t7;
    assert(t.tokens_on() == le_bytes(t.tokens.len(), 8) + (t.tokens + t6));
    assert(t.tokens.len() + t.index.len() <= t.tokens_on().len());
    assert(s.skip(tokens).len() <= s.len());
    lemma_word(s, tokens, t.tokens.len(), t.tokens + t6);
    lemma_part(s, tokens + 8, t.tokens, t6);
    lemma_part(s, tokens + 8 + t.tokens.len(), t.tokens_fill, t7);
    let index = tokens + 8 + t.tokens.len() + t.tokens_fill.len();
    lemma_word(s, index, t.index_count, t8);
    lemma_part(s, index + 8, t.index, t.rest);
}

/// Less than eight bytes that fill up to a multiple of eight round up.
proof fn lemma_filled_up(n: nat, fill: nat)
    requires
        fill < 8,
        (n + fill) % 8 == 0,
    ensures
        up(n) == n + fill,
{
}

/// A table that was written lies well where its first part is at a multiple of
/// eight, and its parts are those that were written.
pub proof fn law_table_round_trip(t: WrittenTable)
    requires
        t.fits(),
    ensures
        well_laid(t.bytes(), t.gap.len() as int),
        parts_at(t.bytes(), t.gap.len() as int) == seq![
            t.addresses,
            t.offsets,
            t.places,
            t.names,
            t.tokens,
            t.index,
        ],
{
    let s = t.bytes();
    let pad = t.gap.len() as int;
    lemma_table_front(t);
    lemma_filled_up(t.names.len(), t.names_fill.len());
    lemma_filled_up(t.tokens.len(), t.tokens_fill.len());
    lemma_table_back(t, s, names_at(s, pad) + 8 + t.names.len() + t.names_fill.len());
    lemma_parts_found(t, s, pad);
}

/// The parts of a table whose words and places are known.
proof fn lemma_parts_found(t: WrittenTable, s: Seq<u8>, pad: int)
    requires
        length_told(s),
        word(s, 8) == t.count,
        up(t.names.len()) == t.names.len() + t.names_fill.len(),
        up(t.tokens.len()) == t.tokens.len() + t.tokens_fill.len(),
        ({
            let n = t.count as int;
            let names = 16 + pad + 16 * n;
            let tokens = names + 8 + t.names.len() + t.names_fill.len();
            let index = tokens + 8 + t.tokens.len() + t.tokens_fill.len();
            &&& s.subrange(16 + pad, 16 + pad + 8 * n) == t.addresses
            &&& s.subrange(16 + pad + 8 * n, 16 + pad + 12 * n) == t.offsets
            &&& s.subrange(16 + pad + 12 * n, 16 + pad + 16 * n) == t.places
            &&& word(s, names) == t.names.len()
            &&& s.subrange(names + 8, names + 8 + t.names.len()) == t.names
            &&& word(s, tokens) == t.tokens.len()
            &&& s.subrange(tokens + 8, tokens + 8 + t.tokens.len()) == t.tokens
            &&& word(s, index) == t.index_count
            &&& s.subrange(index + 8, index + 8 + 4 * t.index_count) == t.index
            &&& index + 8 + 4 * t.index_count <= s.len()
        }),
    ensures
        well_laid(s, pad),
        parts_at(s, pad) == seq![
            t.addresses,
            t.offsets,
            t.places,
            t.names,
            t.tokens,
            t.index,
        ],
{
    let names = 16 + pad + 16 * t.count;
    let tokens = names + 8 + t.names.len() + t.names_fill.len();
    assert(names_at(s, pad) == names);
    assert(tokens_at(s, pad) == tokens);
    assert(index_at(s, pad) == tokens + 8 + t.tokens.len() + t.tokens_fill.len());
}

/// The table is the one that these bytes hold, at some place where they form one,
/// with these bounds of the kernel's code.
pub open spec fn mapped_from(
    mapped: KallsymsMapped<'static>,
    blob: Seq<u8>,
    start: u64,
    end: u64,
) -> bool {
    &&& text_bounds(mapped) == (start, end)
    &&& exists|pad: int|
        0 <= pad < 8 && #[trigger] well_laid(blob, pad) && table_parts(mapped) == parts_at(blob, pad)
}

/// `ksym::KallsymsMapped::from_blob`: the table that these bytes hold, with the
/// bounds of the kernel's code, or nothing if a part of it does not stand inside
/// it, for the one `pad` that the bytes have where they lie.
///
/// The table keeps the bounds as they are and uses the parts of the bytes where
/// they stand; the numbers in them are read in the byte order of the machine.
/// `pad` rests on the address of the bytes, so the contract speaks of some `pad`.
/// It says nothing of what a search of the table gives. The bytes do not end
/// within eight bytes of the end of the address space, as no allocation does.
#[verifier::external_body]
fn map_symbols(blob: &'static [u8], start: u64, end: u64) -> (mapped: Option<
    KallsymsMapped<'static>,
>)
    requires
        lengths_fit(blob@),
    ensures
        mapped matches Some(table) ==> text_bounds(table) == (start, end),
        mapped matches Some(table) ==> (exists|pad: int|
            0 <= pad < 8 && #[trigger] well_laid(blob@, pad) && table_parts(table) == parts_at(
                blob@,
                pad,
            )),
        mapped is None ==> (exists|pad: int| 0 <= pad < 8 && !#[trigger] well_laid(blob@, pad)),
{
    KallsymsMapped::from_blob(blob, start, end).ok()
}

/// Reads the number in the eight bytes at `at`.
fn read_word(table: &[u8], at: usize) -> (n: u64)
    requires
        at + 8 <= table@.len(),
    ensures
        n == word(table@, at as int),
{
    assert(table@.skip(0) =~= table@);
    get_le(table, 0, at, 8)
}

/// Whether `extra` can be added to the length of the table.
fn fits_behind(len: usize, extra: u128) -> (fits: bool)
    requires
        extra <= 0x4_0000_0000_0000_0000,
    ensures
        fits == (len + extra <= usize::MAX),
{
    len as u128 + extra <= usize::MAX as u128
}

/// Whether no length in the table is too large, with `pad` bytes to the next
/// multiple of eight.
fn check_lengths_at(table: &[u8], pad: usize) -> (fit: bool)
    requires
        pad < 8,
    ensures
        fit == lengths_fit_at(table@, pad as int),
{
    let len: usize = table.len();
    let end: u128 = len as u128;
    if len < 16 {
        return true;
    }
    if read_word(table, 0) as u128 != end {
        return true;
    }
    let count: u128 = read_word(table, 8) as u128;
    if 16 + pad as u128 + 8 * count > usize::MAX as u128 {
        return false;
    }
    let names: u128 = 16 + pad as u128 + 16 * count;
    if names + 8 > end {
        return true;
    }
    let names_len: u128 = read_word(table, names as usize) as u128;
    if !fits_behind(len, names_len) {
        return false;
    }
    if names + 8 + names_len > end {
        return true;
    }
    let tokens: u128 = names + 8 + (names_len + 7) / 8 * 8;
    if tokens + 8 > end {
        return true;
    }
    let tokens_len: u128 = read_word(table, tokens as usize) as u128;
    if !fits_behind(len, tokens_len) {
        return false;
    }
    if tokens + 8 + tokens_len > end {
        return true;
    }
    let index: u128 = tokens + 8 + (tokens_len + 7) / 8 * 8;
    if index + 8 > end {
        return true;
    }
    let index_len: u128 = read_word(table, index as usize) as u128;
    fits_behind(len, 4 * index_len)
}

/// Whether no length in the table is too large, wherever the table lies.
pub fn check_lengths(table: &[u8]) -> (fit: bool)
    ensures
        fit == lengths_fit(table@),
{
    let mut pad: usize = 0;
    while pad < 8
        invariant
            pad <= 8,
            forall|p: int| 0 <= p < pad ==> #[trigger] lengths_fit_at(table@, p),
        decreases 8 - pad,
    {
        if !check_lengths_at(table, pad) {
            return false;
        }
        pad = pad + 1;
    }
    true
}

/// Mapping these bytes with these bounds gave `mapped`: nothing but the call itself
/// can show this.
pub closed spec fn mapping_gave(
    blob: &'static [u8],
    start: u64,
    end: u64,
    mapped: Option<KallsymsMapped<'static>>,
) -> bool {
    call_ensures(map_symbols, (blob, start, end), mapped)
}

/// The symbol table that these bytes hold, with the bounds of the kernel's code.
///
/// There is none if a part of the table does not stand inside it where it lies.
/// There is none either if, at some place where the bytes might lie, one of the
/// lengths would be too large.
pub fn load_symbols(blob: &'static [u8], start: u64, end: u64) -> (mapped: Option<
    KallsymsMapped<'static>,
>)
    ensures
        lengths_fit(blob@) ==> mapping_gave(blob, start, end, mapped),
        mapped matches Some(table) ==> mapped_from(table, blob@, start, end),
        !lengths_fit(blob@) ==> mapped is None,
        (forall|pad: int| 0 <= pad < 8 ==> !#[trigger] well_laid(blob@, pad)) ==> mapped is None,
        lengths_fit(blob@) && (forall|pad: int|
            0 <= pad < 8 ==> #[trigger] well_laid(blob@, pad)) ==> mapped is Some,
{
    if check_lengths(blob) {
        map_symbols(blob, start, end)
    } else {
        None
    }
}

} // verus!
