//! The asset index: records that locate each asset's bytes and name its row
//! in the type table.
use vstd::prelude::*;
use crate::cursor::{
    align4_padding, le_bytes, le_bytes_of, lemma_pow256_eight, pow256, uint_value, ByteCursor,
    Endianness,
};
use crate::error::{ParseError, ParseResult, ParserContext};
use crate::tables::{count_at, AssetType};

verus! {

/// The number of bytes of one index record.
pub const ENTRY_LEN: usize = 24;

/// One record of the asset index.
#[derive(Clone, Copy, Debug, PartialEq, Eq, Structural)]
pub struct AssetEntry {
    pub path_id: u64,
    /// Where the asset's bytes start, counted from the start of the file.
    pub offset: u64,
    pub size: u32,
    /// The position of the asset's row in the type table.
    pub type_index: usize,
}

/// The type-table position that the record at `q` refers to.
pub open spec fn entry_type_index(s: Seq<u8>, q: int, order: Endianness) -> nat {
    uint_value(s.subrange(q + 20, q + 24), order)
}

/// The offset of the record at `q`, relative to the data region.
pub open spec fn entry_relative_offset(s: Seq<u8>, q: int, order: Endianness) -> nat {
    uint_value(s.subrange(q + 8, q + 16), order)
}

/// Whether a whole record stands at `q`.
pub open spec fn entry_fits(s: Seq<u8>, q: int) -> bool {
    0 <= q && q + ENTRY_LEN <= s.len()
}

/// Whether the record at `q` is whole, refers to one of `n_types` rows, and
/// has an absolute offset that fits in 64 bits.
pub open spec fn entry_ok(
    s: Seq<u8>,
    q: int,
    order: Endianness,
    n_types: nat,
    data_offset: u64,
) -> bool {
    &&& entry_fits(s, q)
    &&& entry_type_index(s, q, order) < n_types
    &&& entry_relative_offset(s, q, order) + data_offset <= u64::MAX
}

/// Whether `e` is what the record at `q` holds, its offset made absolute.
pub open spec fn is_entry_at(
    e: AssetEntry,
    s: Seq<u8>,
    q: int,
    order: Endianness,
    data_offset: u64,
) -> bool {
    &&& e.path_id == uint_value(s.subrange(q, q + 8), order)
    &&& e.offset == entry_relative_offset(s, q, order) + data_offset
    &&& e.size == uint_value(s.subrange(q + 16, q + 20), order)
    &&& e.type_index == entry_type_index(s, q, order)
}

/// Whether `e` is the error that the malformed record at `q` gives: the field
/// under way where the stream runs out, a type-table position out of range
/// (with that position's four bytes, least significant first), or an offset
/// that overflows (with the relative offset's eight bytes).
pub open spec fn is_entry_error(
    e: ParseError,
    s: Seq<u8>,
    q: int,
    order: Endianness,
    n_types: nat,
) -> bool {
    let k = s.len() - q;
    if k < 8 {
        e.is_io_failure("reading entry path id"@)
    } else if k < 16 {
        e.is_io_failure("reading entry offset"@)
    } else if k < 20 {
        e.is_io_failure("reading entry size"@)
    } else if k < 24 {
        e.is_io_failure("reading entry type"@)
    } else if entry_type_index(s, q, order) >= n_types {
        e.is_mismatch(
            "one of the file's asset types"@,
            le_bytes_of(entry_type_index(s, q, order), 4),
        )
    } else {
        e.is_mismatch(
            "an entry offset that stays within 64 bits"@,
            le_bytes_of(entry_relative_offset(s, q, order), 8),
        )
    }
}

/// Decodes one index record against a type table of `n_types` rows.
pub fn parse_entry(
    cursor: &mut ByteCursor,
    order: Endianness,
    data_offset: u64,
    n_types: usize,
) -> (r: ParseResult<AssetEntry>)
    ensures
        final(cursor).data() == old(cursor).data(),
        ({
            let s = old(cursor).data();
            let q = old(cursor).position() as int;
            match r {
                Ok(e) => {
                    &&& entry_ok(s, q, order, n_types as nat, data_offset)
                    &&& is_entry_at(e, s, q, order, data_offset)
                    &&& final(cursor).position() == q + ENTRY_LEN
                },
                Err(e) => {
                    &&& !entry_ok(s, q, order, n_types as nat, data_offset)
                    &&& e is Expected <==> entry_fits(s, q)
                    &&& is_entry_error(e, s, q, order, n_types as nat)
                    &&& e is Expected ==> final(cursor).position() == q + ENTRY_LEN
                },
            }
        }),
{
    let path_id = cursor.read_u64(order).context("reading entry path id")?;
    let offset = cursor.read_u64(order).context("reading entry offset")?;
    let size = cursor.read_u32(order).context("reading entry size")?;
    let ty = cursor.read_u32(order).context("reading entry type")?;
    proof {
        reveal_with_fuel(pow256, 5);
    }
    if ty as usize >= n_types {
        return Err(
            ParseError::expected_without_source(
                "one of the file's asset types",
                le_bytes(ty as u64, 4),
            ),
        );
    }
    if offset > u64::MAX - data_offset {
        proof {
            lemma_pow256_eight();
        }
        return Err(
            ParseError::expected_without_source(
                "an entry offset that stays within 64 bits",
                le_bytes(offset, 8),
            ),
        );
    }
    Ok(AssetEntry { path_id, offset: offset + data_offset, size, type_index: ty as usize })
}

/// Where the first record of an index whose count field is at `p` starts:
/// after the count, at the next multiple of four.
pub open spec fn index_start(p: int) -> int {
    p + 4 + align4_padding((p + 4) as nat)
}

/// Where record `k` of the index whose count field is at `p` starts.
pub open spec fn entry_pos(p: int, k: nat) -> int {
    index_start(p) + ENTRY_LEN * k
}

/// Whether the index whose count field is at `p` decodes: its count is
/// whole, the padding is there, and each of its `n` records is well formed.
pub open spec fn index_ok(
    s: Seq<u8>,
    p: int,
    n: nat,
    order: Endianness,
    n_types: nat,
    data_offset: u64,
) -> bool {
    &&& 0 <= p && p + 4 <= s.len()
    &&& index_start(p) <= s.len()
    &&& forall|k: nat|
        k < n ==> #[trigger] entry_ok(s, entry_pos(p, k), order, n_types, data_offset)
}

/// Whether, in the index at `p`, the first record that fails is whole, so
/// that it fails on its content.
pub open spec fn index_fault_is_content(
    s: Seq<u8>,
    p: int,
    n: nat,
    order: Endianness,
    n_types: nat,
    data_offset: u64,
) -> bool {
    exists|k: nat|
        {
            &&& k < n
            &&& entry_fits(s, #[trigger] entry_pos(p, k))
            &&& !entry_ok(s, entry_pos(p, k), order, n_types, data_offset)
            &&& forall|j: nat|
                j < k ==> #[trigger] entry_ok(s, entry_pos(p, j), order, n_types, data_offset)
        }
}

/// Whether `e` is the error of the index of `n` records whose count field is
/// at `p`: the error of its first malformed record, after which the cursor
/// stands at `end`, just past that record, where the record was whole.
pub open spec fn is_index_error(
    e: ParseError,
    s: Seq<u8>,
    p: int,
    n: nat,
    order: Endianness,
    n_types: nat,
    data_offset: u64,
    end: int,
) -> bool {
    exists|k: nat|
        {
            &&& k < n
            &&& !entry_ok(s, #[trigger] entry_pos(p, k), order, n_types, data_offset)
            &&& forall|j: nat|
                j < k ==> #[trigger] entry_ok(s, entry_pos(p, j), order, n_types, data_offset)
            &&& is_entry_error(e, s, entry_pos(p, k), order, n_types)
            &&& e is Expected ==> end == entry_pos(p, k) + ENTRY_LEN
        }
}

/// Where some record fails and every record is whole, the first failing
/// record fails on its content.
proof fn lemma_first_fault_is_content(
    s: Seq<u8>,
    p: int,
    n: nat,
    order: Endianness,
    n_types: nat,
    data_offset: u64,
    k: nat,
)
    requires
        0 <= p,
        k < n,
        entry_pos(p, n) <= s.len(),
        !entry_ok(s, entry_pos(p, k), order, n_types, data_offset),
    ensures
        index_fault_is_content(s, p, n, order, n_types, data_offset),
    decreases k,
{
    assert(entry_fits(s, entry_pos(p, k)));
    if exists|j: nat|
        j < k && !#[trigger] entry_ok(s, entry_pos(p, j), order, n_types, data_offset) {
        let j = choose|j: nat|
            j < k && !#[trigger] entry_ok(s, entry_pos(p, j), order, n_types, data_offset);
        lemma_first_fault_is_content(s, p, n, order, n_types, data_offset, j);
    }
}

proof fn lemma_same_record(s1: Seq<u8>, s2: Seq<u8>, q: int)
    requires
        s1.len() == s2.len(),
        entry_fits(s1, q),
        forall|i: int| q <= i < q + ENTRY_LEN ==> s1[i] == s2[i],
    ensures
        s1.subrange(q, q + 8) == s2.subrange(q, q + 8),
        s1.subrange(q + 8, q + 16) == s2.subrange(q + 8, q + 16),
        s1.subrange(q + 16, q + 20) == s2.subrange(q + 16, q + 20),
        s1.subrange(q + 20, q + 24) == s2.subrange(q + 20, q + 24),
{
    assert(s1.subrange(q, q + 8) =~= s2.subrange(q, q + 8));
    assert(s1.subrange(q + 8, q + 16) =~= s2.subrange(q + 8, q + 16));
    assert(s1.subrange(q + 16, q + 20) =~= s2.subrange(q + 16, q + 20));
    assert(s1.subrange(q + 20, q + 24) =~= s2.subrange(q + 20, q + 24));
}

/// The padding between the count and the first record is skipped unread:
/// two streams that differ only in those bytes announce the same number of
/// records, decode or fail alike, and hold the same records.
pub proof fn lemma_padding_ignored(
    s1: Seq<u8>,
    s2: Seq<u8>,
    p: int,
    order: Endianness,
    n_types: nat,
    data_offset: u64,
)
    requires
        0 <= p,
        p + 4 <= s1.len(),
        s1.len() == s2.len(),
        forall|i: int| 0 <= i < s1.len() && !(p + 4 <= i < index_start(p)) ==> s1[i] == s2[i],
    ensures
        count_at(s1, p, order) == count_at(s2, p, order),
        index_ok(s1, p, count_at(s1, p, order), order, n_types, data_offset) == index_ok(
            s2,
            p,
            count_at(s2, p, order),
            order,
            n_types,
            data_offset,
        ),
        forall|k: nat, e: AssetEntry|
            entry_fits(s1, entry_pos(p, k)) ==> (#[trigger] is_entry_at(
                e,
                s1,
                entry_pos(p, k),
                order,
                data_offset,
            ) <==> is_entry_at(e, s2, entry_pos(p, k), order, data_offset)),
{
    assert(s1.subrange(p, p + 4) =~= s2.subrange(p, p + 4));
    assert forall|k: nat, e: AssetEntry| entry_fits(s1, entry_pos(p, k)) implies (
    #[trigger] is_entry_at(e, s1, entry_pos(p, k), order, data_offset) <==> is_entry_at(
        e,
        s2,
        entry_pos(p, k),
        order,
        data_offset,
    )) by {
        lemma_same_record(s1, s2, entry_pos(p, k));
    }
    let n = count_at(s1, p, order);
    assert forall|k: nat| k < n implies #[trigger] entry_ok(
        s1,
        entry_pos(p, k),
        order,
        n_types,
        data_offset,
    ) == entry_ok(s2, entry_pos(p, k), order, n_types, data_offset) by {
        if entry_fits(s1, entry_pos(p, k)) {
            lemma_same_record(s1, s2, entry_pos(p, k));
        }
    }
    if index_ok(s2, p, n, order, n_types, data_offset) {
        assert forall|k: nat| k < n implies #[trigger] entry_ok(
            s1,
            entry_pos(p, k),
            order,
            n_types,
            data_offset,
        ) by {
            assert(entry_ok(s2, entry_pos(p, k), order, n_types, data_offset));
        }
    }
    if index_ok(s1, p, n, order, n_types, data_offset) {
        assert forall|k: nat| k < n implies #[trigger] entry_ok(
            s2,
            entry_pos(p, k),
            order,
            n_types,
            data_offset,
        ) by {
            assert(entry_ok(s1, entry_pos(p, k), order, n_types, data_offset));
        }
    }
}

/// Decodes the asset index: a four-byte record count, padding to a multiple
/// of four, then the records, each checked against the type table `types`.
/// A whole index with a record that points past the type table is refused as
/// a content mismatch.
pub fn parse_index(
    cursor: &mut ByteCursor,
    order: Endianness,
    data_offset: u64,
    types: &[AssetType],
) -> (r: ParseResult<Vec<AssetEntry>>)
    ensures
        final(cursor).data() == old(cursor).data(),
        ({
            let s = old(cursor).data();
            let p = old(cursor).position() as int;
            let n = count_at(s, p, order);
            let n_types = types@.len();
            match r {
                Ok(entries) => {
                    &&& index_ok(s, p, n, order, n_types, data_offset)
                    &&& entries@.len() == n
                    &&& forall|k: nat|
                        k < n ==> #[trigger] is_entry_at(
                            entries@[k as int],
                            s,
                            entry_pos(p, k),
                            order,
                            data_offset,
                        )
                    &&& final(cursor).position() == entry_pos(p, n)
                },
                Err(e) => {
                    &&& !index_ok(s, p, n, order, n_types, data_offset)
                    &&& e is Expected <==> p + 4 <= s.len() && index_fault_is_content(
                        s,
                        p,
                        n,
                        order,
                        n_types,
                        data_offset,
                    )
                    &&& if p + 4 > s.len() {
                        e.is_io_failure("reading entry count"@)
                    } else if index_start(p) > s.len() {
                        e.is_io_failure("aligning file reader"@)
                    } else {
                        is_index_error(
                            e,
                            s,
                            p,
                            n,
                            order,
                            n_types,
                            data_offset,
                            final(cursor).position() as int,
                        )
                    }
                },
            }
        }),
        ({
            let s = old(cursor).data();
            let p = old(cursor).position() as int;
            let n = count_at(s, p, order);
            p + 4 <= s.len() && entry_pos(p, n) <= s.len() && (exists|k: nat|
                k < n && #[trigger] entry_type_index(s, entry_pos(p, k), order) >= types@.len())
                ==> (r matches Err(e) && e is Expected)
        }),
{
    let ghost s = cursor.data();
    let ghost p = cursor.position() as int;
    let count = cursor.read_u32(order).context("reading entry count")?;
    cursor.align_to_4().context("aligning file reader")?;
    proof {
        let n = count as nat;
        if entry_pos(p, n) <= s.len() && exists|k: nat|
            k < n && #[trigger] entry_type_index(s, entry_pos(p, k), order) >= types@.len() {
            let k = choose|k: nat|
                k < n && #[trigger] entry_type_index(s, entry_pos(p, k), order) >= types@.len();
            lemma_first_fault_is_content(s, p, n, order, types@.len(), data_offset, k);
        }
    }
    let mut entries: Vec<AssetEntry> = Vec::new();
    let mut i: u32 = 0;
    while i < count
        invariant
            i <= count,
            s == old(cursor).data(),
            p == old(cursor).position(),
            p + 4 <= s.len(),
            index_start(p) <= s.len(),
            count == count_at(s, p, order),
            cursor.data() == s,
            cursor.position() == entry_pos(p, i as nat),
            entries@.len() == i,
            forall|k: nat|
                k < i ==> #[trigger] entry_ok(s, entry_pos(p, k), order, types@.len(), data_offset),
            forall|k: nat|
                k < i ==> #[trigger] is_entry_at(
                    entries@[k as int],
                    s,
                    entry_pos(p, k),
                    order,
                    data_offset,
                ),
        decreases count - i,
    {
        match parse_entry(cursor, order, data_offset, types.len()) {
            Ok(e) => {
                entries.push(e);
                assert(is_entry_at(
                    entries@[i as int],
                    s,
                    entry_pos(p, i as nat),
                    order,
                    data_offset,
                ));
            },
            Err(e) => {
                proof {
                    let q = entry_pos(p, i as nat);
                    if entry_fits(s, q) {
                        assert(index_fault_is_content(
                            s,
                            p,
                            count as nat,
                            order,
                            types@.len(),
                            data_offset,
                        ));
                    } else {
                        assert forall|k: nat|
                            k < count && entry_fits(s, #[trigger] entry_pos(p, k)) implies !(
                            !entry_ok(s, entry_pos(p, k), order, types@.len(), data_offset) && (
                            forall|j: nat|
                                j < k ==> #[trigger] entry_ok(
                                    s,
                                    entry_pos(p, j),
                                    order,
                                    types@.len(),
                                    data_offset,
                                ))) by {
                            if k > i {
                                assert(!entry_ok(s, q, order, types@.len(), data_offset));
                            }
                        }
                    }
                }
                return Err(e);
            },
        }
        i = i + 1;
    }
    Ok(entries)
}

} // verus!
