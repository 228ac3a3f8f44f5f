//! A direct-mapped, always-replace transposition table whose entries carry a
//! checksum over their own fields.

use crate::checksum::{at_most_one_differs, fx_hash_fields, fx_hash_of, lemma_fx_hash_tells_apart};
use crate::score::ScoreTy;
use vstd::prelude::*;

verus! {

/// How a stored score bounds the true value of its position.
#[derive(Clone, Copy, Debug, PartialEq, Eq, Structural)]
pub enum Flag {
    /// The score is the value.
    Exact,
    /// The search failed high: the value is at least the score.
    LowerBound,
    /// The search failed low: the value is at most the score.
    UpperBound,
}

impl Default for Flag {
    fn default() -> (flag: Flag)
        ensures
            flag == Flag::LowerBound,
    {
        Flag::LowerBound
    }
}

/// The number under which a flag enters the checksum.
pub open spec fn flag_code(flag: Flag) -> u8 {
    match flag {
        Flag::Exact => 0,
        Flag::LowerBound => 1,
        Flag::UpperBound => 2,
    }
}

/// The checksum of an entry's four fields.
pub open spec fn checksum_of(depth: u8, flag: Flag, value: ScoreTy, board_hash: u64) -> u64 {
    fx_hash_of(depth, flag_code(flag), value, board_hash)
}

fn flag_to_code(flag: Flag) -> (code: u8)
    ensures
        code == flag_code(flag),
{
    match flag {
        Flag::Exact => 0,
        Flag::LowerBound => 1,
        Flag::UpperBound => 2,
    }
}

/// One slot of the table: the result of searching one position.
#[derive(Clone, Copy, Debug, PartialEq, Eq, Structural)]
pub struct CacheItem {
    /// The depth to which the position was searched.
    pub depth: u8,
    /// How `value` bounds the position's value.
    pub flag: Flag,
    /// The score found.
    pub value: ScoreTy,
    /// The hash of the position.
    pub board_hash: u64,
    /// The checksum of the four fields above, as it was when the entry was made.
    pub checksum: u64,
}

impl Default for CacheItem {
    fn default() -> (item: CacheItem)
        ensures
            item == CacheItem::entry(0, Flag::Exact, 0, 0),
    {
        CacheItem::new(0, Flag::Exact, 0, 0)
    }
}

impl CacheItem {
    /// The entry that `new` makes of four fields.
    pub open spec fn entry(depth: u8, flag: Flag, value: ScoreTy, board_hash: u64) -> CacheItem {
        CacheItem { depth, flag, value, board_hash, checksum: checksum_of(depth, flag, value, board_hash) }
    }

    /// The entry's checksum is the checksum of its fields.
    pub open spec fn is_valid(self) -> bool {
        self.checksum == checksum_of(self.depth, self.flag, self.value, self.board_hash)
    }

    /// What an unused slot holds: the fields of the default entry under a
    /// checksum that is not theirs, so that no lookup takes it for a result.
    pub open spec fn vacant() -> CacheItem {
        CacheItem {
            depth: 0,
            flag: Flag::Exact,
            value: 0,
            board_hash: 0,
            checksum: checksum_of(0, Flag::Exact, 0, 0) ^ 1,
        }
    }

    /// Makes what an unused slot holds.
    pub fn unused() -> (item: CacheItem)
        ensures
            item == CacheItem::vacant(),
            !item.is_valid(),
    {
        let sum = Self::cache_checksum(0, Flag::Exact, 0, 0);
        assert(sum ^ 1 != sum) by (bit_vector);
        CacheItem { depth: 0, flag: Flag::Exact, value: 0, board_hash: 0, checksum: sum ^ 1 }
    }

    /// Makes an entry of the four fields and seals it with their checksum.
    pub fn new(depth: u8, flag: Flag, value: ScoreTy, board_hash: u64) -> (item: CacheItem)
        ensures
            item == CacheItem::entry(depth, flag, value, board_hash),
            item.is_valid(),
    {
        CacheItem { depth, flag, value, board_hash, checksum: Self::cache_checksum(depth, flag, value, board_hash) }
    }

    /// The checksum of four fields.
    pub fn cache_checksum(depth: u8, flag: Flag, value: ScoreTy, board_hash: u64) -> (sum: u64)
        ensures
            sum == checksum_of(depth, flag, value, board_hash),
    {
        fx_hash_fields(depth, flag_to_code(flag), value, board_hash)
    }

    /// Whether the stored checksum still matches the fields.
    pub fn checksum_is_valid(&self) -> (ok: bool)
        ensures
            ok == self.is_valid(),
    {
        self.checksum == Self::cache_checksum(self.depth, self.flag, self.value, self.board_hash)
    }
}

/// A size that a table can have: a power of two.
pub open spec fn is_table_size(size: usize) -> bool {
    size > 0 && size & ((size - 1) as usize) == 0
}

/// The slot in which a table of `size` entries keeps the position with this
/// hash: the hash's low bits.
pub open spec fn slot_of(size: usize, hash: u64) -> int {
    ((hash as usize) & ((size - 1) as usize)) as int
}

/// What a lookup of `hash` finds in `entries`: the entry in the hash's slot, if
/// it is for that hash and its checksum holds.
pub open spec fn lookup(entries: Seq<CacheItem>, hash: u64) -> Option<CacheItem> {
    let found = entries[slot_of(entries.len() as usize, hash)];
    if found.board_hash == hash && found.is_valid() {
        Some(found)
    } else {
        None
    }
}

/// The entries after `item` has been stored: `item` stands in its hash's slot,
/// whatever stood there before.
pub open spec fn store(entries: Seq<CacheItem>, item: CacheItem) -> Seq<CacheItem> {
    entries.update(slot_of(entries.len() as usize, item.board_hash), item)
}

/// A table of `size` slots into which nothing has been stored.
pub open spec fn empty_table(size: nat) -> Seq<CacheItem> {
    Seq::new(size, |i: int| CacheItem::vacant())
}

/// Whether `size` is a power of two.
pub fn is_power_of_two(size: usize) -> (ok: bool)
    ensures
        ok == is_table_size(size),
{
    size > 0 && size & (size - 1) == 0
}

/// The slot of a hash lies inside the table.
pub proof fn lemma_slot_in_table(size: usize, hash: u64)
    requires
        size > 0,
    ensures
        0 <= slot_of(size, hash) < size,
{
    let h = hash as usize;
    let mask = (size - 1) as usize;
    assert(h & mask <= mask) by (bit_vector);
}

/// A lookup in a table into which nothing has been stored misses, whatever
/// the hash.
pub proof fn lemma_empty_table_misses(size: usize, hash: u64)
    requires
        size > 0,
    ensures
        lookup(empty_table(size as nat), hash) is None,
{
    lemma_slot_in_table(size, hash);
    let sum = checksum_of(0, Flag::Exact, 0, 0);
    assert(sum ^ 1 != sum) by (bit_vector);
}

/// Two entries differ in exactly one of their five fields.
pub open spec fn differ_in_one_field(a: CacheItem, b: CacheItem) -> bool {
    let same_depth = a.depth == b.depth;
    let same_flag = a.flag == b.flag;
    let same_value = a.value == b.value;
    let same_hash = a.board_hash == b.board_hash;
    let same_sum = a.checksum == b.checksum;
    ||| (!same_depth && same_flag && same_value && same_hash && same_sum)
    ||| (same_depth && !same_flag && same_value && same_hash && same_sum)
    ||| (same_depth && same_flag && !same_value && same_hash && same_sum)
    ||| (same_depth && same_flag && same_value && !same_hash && same_sum)
    ||| (same_depth && same_flag && same_value && same_hash && !same_sum)
}

/// Round trip: once a sealed entry has been stored, a lookup of its hash finds
/// that entry.
pub proof fn lemma_store_then_lookup(entries: Seq<CacheItem>, item: CacheItem)
    requires
        0 < entries.len() <= usize::MAX,
        item.is_valid(),
    ensures
        lookup(store(entries, item), item.board_hash) == Some(item),
{
    lemma_slot_in_table(entries.len() as usize, item.board_hash);
}

/// Storing an entry leaves every other slot as it was: a lookup of a hash that
/// falls into another slot finds what it found before.
pub proof fn lemma_store_keeps_other_slots(entries: Seq<CacheItem>, item: CacheItem, hash: u64)
    requires
        0 < entries.len() <= usize::MAX,
        slot_of(entries.len() as usize, hash) != slot_of(entries.len() as usize, item.board_hash),
    ensures
        lookup(store(entries, item), hash) == lookup(entries, hash),
{
    lemma_slot_in_table(entries.len() as usize, item.board_hash);
    lemma_slot_in_table(entries.len() as usize, hash);
}

/// Tamper detection, on the entry: change any single field of a sealed entry
/// and leave the rest, and it is no longer a sealed entry for the same hash.
pub proof fn lemma_forged_entry_is_rejected(item: CacheItem, forged: CacheItem)
    requires
        item.is_valid(),
        differ_in_one_field(item, forged),
    ensures
        !(forged.board_hash == item.board_hash && forged.is_valid()),
{
    if forged.board_hash == item.board_hash && forged.is_valid() {
        if forged.checksum == item.checksum {
            lemma_fx_hash_tells_apart(
                item.depth,
                flag_code(item.flag),
                item.value,
                forged.depth,
                flag_code(forged.flag),
                forged.value,
                item.board_hash,
            );
        }
    }
}

/// Tamper detection, on the table: where the slot of a sealed entry holds a
/// copy with any single field changed, a lookup of the entry's hash misses.
pub proof fn lemma_tampered_slot_misses(entries: Seq<CacheItem>, item: CacheItem, forged: CacheItem)
    requires
        0 < entries.len() <= usize::MAX,
        item.is_valid(),
        differ_in_one_field(item, forged),
        entries[slot_of(entries.len() as usize, item.board_hash)] == forged,
    ensures
        lookup(entries, item.board_hash) is None,
{
    lemma_forged_entry_is_rejected(item, forged);
}

/// A transposition table: a fixed number of entries, one slot per hash bucket.
#[derive(Debug)]
pub struct TTable {
    entries: Vec<CacheItem>,
    size: usize,
    mask: usize,
}

impl View for TTable {
    type V = Seq<CacheItem>;

    closed spec fn view(&self) -> Seq<CacheItem> {
        self.entries@
    }
}

impl TTable {
    /// The table keeps what it was made with: `size` entries, a power of two,
    /// and the mask that picks a slot.
    pub closed spec fn wf(&self) -> bool {
        &&& is_table_size(self.size)
        &&& self.entries@.len() == self.size
        &&& self.mask == self.size - 1
    }

    /// Makes a table of `size` slots, all of them unused.
    pub fn new(size: usize) -> (table: TTable)
        requires
            is_table_size(size),
        ensures
            table.wf(),
            table@ == empty_table(size as nat),
            forall|hash: u64| lookup(table@, hash) is None,
    {
        let blank = CacheItem::unused();
        let mut entries: Vec<CacheItem> = Vec::new();
        let mut filled: usize = 0;
        while filled < size
            invariant
                filled <= size,
                entries@.len() == filled,
                blank == CacheItem::vacant(),
                forall|i: int| 0 <= i < filled ==> entries@[i] == blank,
            decreases size - filled,
        {
            entries.push(blank);
            filled = filled + 1;
        }
        assert(entries@ =~= empty_table(size as nat));
        assert forall|hash: u64| lookup(entries@, hash) is None by {
            lemma_empty_table_misses(size, hash);
        }
        TTable { entries, size, mask: size - 1 }
    }

    /// Makes a table of `size` unused slots, if `size` is a power of two.
    pub fn try_new(size: usize) -> (made: Option<TTable>)
        ensures
            made is Some == is_table_size(size),
            made is Some ==> made.unwrap().wf() && made.unwrap()@ == empty_table(size as nat),
            made is Some ==> forall|hash: u64| lookup(made.unwrap()@, hash) is None,
    {
        if is_power_of_two(size) {
            Some(TTable::new(size))
        } else {
            None
        }
    }

    /// The number of entries.
    pub fn size(&self) -> (size: usize)
        requires
            self.wf(),
        ensures
            size == self@.len(),
            is_table_size(size),
    {
        self.size
    }

    /// Looks a position up by its hash. A hit is the entry in the hash's slot,
    /// and only if it is for this hash and its checksum holds.
    pub fn get(&self, hash: u64) -> (found: Option<CacheItem>)
        requires
            self.wf(),
        ensures
            found == lookup(self@, hash),
    {
        proof {
            lemma_slot_in_table(self.size, hash);
        }
        let possible_entry = self.entries[(#[verifier::truncate] (hash as usize)) & self.mask];
        if possible_entry.board_hash == hash && possible_entry.checksum_is_valid() {
            Some(possible_entry)
        } else {
            None
        }
    }

    /// Stores an entry in the slot of its hash, replacing what was there.
    pub fn set(&mut self, item: CacheItem)
        requires
            old(self).wf(),
        ensures
            final(self).wf(),
            final(self)@ == store(old(self)@, item),
            final(self)@.len() == old(self)@.len(),
            final(self)@[slot_of(final(self)@.len() as usize, item.board_hash)] == item,
            item.is_valid() ==> lookup(final(self)@, item.board_hash) == Some(item),
    {
        proof {
            lemma_slot_in_table(self.size, item.board_hash);
        }
        let slot = (#[verifier::truncate] (item.board_hash as usize)) & self.mask;
        self.entries.set(slot, item);
    }

    /// Gives the table up.
    pub fn free(self) {
    }
}

} // verus!
