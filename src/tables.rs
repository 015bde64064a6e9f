//! The type table: the classes of the assets a file holds, addressed by position.
use vstd::prelude::*;
use crate::class::{
    is_known_class_id, lemma_known_ids_distinct, resolve, AssetClass, AssetClassVariant,
    MONO_BEHAVIOR_CLASS_ID,
};
use crate::cursor::{uint_value, ByteCursor, Endianness};
use crate::error::{ParseError, ParseResult, ParserContext};

verus! {

/// One row of the type table.
#[derive(Clone, Copy, Debug)]
pub struct AssetType {
    pub class: AssetClass,
    pub stripped: bool,
    pub script_type_index: u16,
    pub old_type_hash: [u8; 16],
}

/// The class id of the row at `q`.
pub open spec fn row_class_id(s: Seq<u8>, q: int, order: Endianness) -> u32 {
    uint_value(s.subrange(q, q + 4), order) as u32
}

/// Whether the row at `q` carries a script identifier.
pub open spec fn row_has_script(s: Seq<u8>, q: int, order: Endianness) -> bool {
    row_class_id(s, q, order) == MONO_BEHAVIOR_CLASS_ID
}

/// The length of the row at `q`: class id, stripped flag, script type index,
/// the script identifier where the class has one, and the type hash.
pub open spec fn row_len(s: Seq<u8>, q: int, order: Endianness) -> int {
    if row_has_script(s, q, order) {
        39
    } else {
        23
    }
}

/// Whether a whole, well-formed row stands at `q`.
pub open spec fn row_ok(s: Seq<u8>, q: int, order: Endianness) -> bool {
    &&& 0 <= q
    &&& q + 4 <= s.len()
    &&& q + row_len(s, q, order) <= s.len()
    &&& s[q + 4] <= 1
}

/// Whether the row at `q` fails on its content (a stripped flag other than 0
/// or 1) rather than on the end of the stream.
pub open spec fn row_fault_is_content(s: Seq<u8>, q: int) -> bool {
    q + 5 <= s.len() && s[q + 4] > 1
}

/// Whether `e` is the error that the malformed row at `q` gives: the stripped
/// flag refused, or the field under way where the stream runs out.
pub open spec fn is_row_error(e: ParseError, s: Seq<u8>, q: int, order: Endianness) -> bool {
    let k = s.len() - q;
    if k < 4 {
        e.is_io_failure("reading asset type class_id"@)
    } else if k < 5 {
        e.is_io_failure("reading asset type is_stripped"@)
    } else if s[q + 4] > 1 {
        e.is_mismatch("0 or 1 for asset type is_stripped"@, seq![s[q + 4]])
    } else if k < 7 {
        e.is_io_failure("reading asset type script type index"@)
    } else if row_has_script(s, q, order) && k < 23 {
        e.is_io_failure("reading asset type script id"@)
    } else {
        e.is_io_failure("reading old type hash"@)
    }
}

/// Whether `t` is what the row at `q` holds.
pub open spec fn is_row_at(t: AssetType, s: Seq<u8>, q: int, order: Endianness) -> bool {
    let id = row_class_id(s, q, order);
    let end = q + row_len(s, q, order);
    &&& t.class.variant().id() == id
    &&& t.class.variant().is_known() <==> is_known_class_id(id)
    &&& (t.class is MonoBehavior <==> row_has_script(s, q, order))
    &&& (t.class matches AssetClass::MonoBehavior { script_id } ==> script_id@ == s.subrange(
        q + 7,
        q + 23,
    ))
    &&& t.stripped == (s[q + 4] == 1)
    &&& t.script_type_index == uint_value(s.subrange(q + 5, q + 7), order)
    &&& t.old_type_hash@ == s.subrange(end - 16, end)
}

/// Decodes one row of the type table.
pub fn parse_asset_type(cursor: &mut ByteCursor, order: Endianness) -> (r: ParseResult<AssetType>)
    ensures
        final(cursor).data() == old(cursor).data(),
        ({
            let s = old(cursor).data();
            let q = old(cursor).position() as int;
            match r {
                Ok(t) => {
                    &&& row_ok(s, q, order)
                    &&& is_row_at(t, s, q, order)
                    &&& final(cursor).position() == q + row_len(s, q, order)
                },
                Err(e) => {
                    &&& !row_ok(s, q, order)
                    &&& e is Expected <==> row_fault_is_content(s, q)
                    &&& is_row_error(e, s, q, order)
                    &&& e is Expected ==> final(cursor).position() == q + 5
                },
            }
        }),
{
    let ghost s = cursor.data();
    let ghost q = cursor.position() as int;
    let class_id = cursor.read_u32(order).context("reading asset type class_id")?;
    let variant = resolve(class_id);
    let stripped = match cursor.read_bool().context("reading asset type is_stripped")? {
        Ok(flag) => flag,
        Err(byte) => {
            let received = vec![byte];
            assert(received@ =~= seq![s[q + 4]]);
            return Err(
                ParseError::expected_without_source("0 or 1 for asset type is_stripped", received),
            );
        },
    };
    let script_type_index = cursor.read_u16(order).context(
        "reading asset type script type index",
    )?;
    proof {
        if variant is MonoBehavior {
            assert(class_id == MONO_BEHAVIOR_CLASS_ID);
        } else if class_id == MONO_BEHAVIOR_CLASS_ID {
            assert(is_known_class_id(class_id)) by {
                assert(AssetClassVariant::MonoBehavior.id() == MONO_BEHAVIOR_CLASS_ID);
            }
            lemma_known_ids_distinct(variant, AssetClassVariant::MonoBehavior);
        }
    }
    let class = if let AssetClassVariant::MonoBehavior = variant {
        let script_id = cursor.read_16_bytes().context("reading asset type script id")?;
        AssetClass::MonoBehavior { script_id }
    } else {
        AssetClass::from_variant(variant)
    };
    let old_type_hash = cursor.read_16_bytes().context("reading old type hash")?;
    Ok(AssetType { class, stripped, script_type_index, old_type_hash })
}

/// Where the first `n` rows of a table starting at `p` end, or `None` where
/// one of them is cut short or malformed. Row `k` starts where the first `k` end.
pub open spec fn rows_end(s: Seq<u8>, p: int, n: nat, order: Endianness) -> Option<int>
    decreases n,
{
    if n == 0 {
        Some(p)
    } else {
        match rows_end(s, p, (n - 1) as nat, order) {
            Some(q) => if row_ok(s, q, order) {
                Some(q + row_len(s, q, order))
            } else {
                None
            },
            None => None,
        }
    }
}

/// Where row `k` of the table at `p` starts: where the first `k` rows end.
pub open spec fn row_start(s: Seq<u8>, p: int, k: nat, order: Endianness) -> int {
    rows_end(s, p, k, order)->Some_0
}

/// Once a row fails, every longer table fails too.
pub proof fn lemma_rows_end_stays_none(s: Seq<u8>, p: int, i: nat, n: nat, order: Endianness)
    requires
        i <= n,
        rows_end(s, p, i, order) is None,
    ensures
        rows_end(s, p, n, order) is None,
    decreases n - i,
{
    if i < n {
        lemma_rows_end_stays_none(s, p, i + 1, n, order);
    }
}

/// A table that reaches `n` rows reaches every shorter length.
pub proof fn lemma_rows_end_some_prefix(s: Seq<u8>, p: int, i: nat, n: nat, order: Endianness)
    requires
        i <= n,
        rows_end(s, p, n, order) is Some,
    ensures
        rows_end(s, p, i, order) is Some,
    decreases n - i,
{
    if i < n {
        lemma_rows_end_some_prefix(s, p, i, (n - 1) as nat, order);
    }
}

/// The table of `n` rows starting at `p` is well formed and `types` holds its
/// rows in file order.
pub open spec fn is_table_at(
    types: Seq<AssetType>,
    s: Seq<u8>,
    p: int,
    n: nat,
    order: Endianness,
) -> bool {
    &&& rows_end(s, p, n, order) is Some
    &&& types.len() == n
    &&& forall|k: nat|
        k < n ==> #[trigger] is_row_at(types[k as int], s, row_start(s, p, k, order), order)
}

proof fn lemma_rows_end_increasing(s: Seq<u8>, p: int, j: nat, k: nat, order: Endianness)
    requires
        j < k,
        rows_end(s, p, k, order) is Some,
    ensures
        rows_end(s, p, j, order) is Some,
        rows_end(s, p, j, order)->Some_0 < rows_end(s, p, k, order)->Some_0,
    decreases k,
{
    if j + 1 < k {
        lemma_rows_end_increasing(s, p, j, (k - 1) as nat, order);
    }
}

/// A well-formed table of `n` rows decodes to exactly `n` rows in file order:
/// each row starts where the one before it ends, so row positions increase.
pub proof fn lemma_table_in_file_order(
    types: Seq<AssetType>,
    s: Seq<u8>,
    p: int,
    n: nat,
    order: Endianness,
)
    requires
        is_table_at(types, s, p, n, order),
    ensures
        types.len() == n,
        forall|k: nat|
            k < n ==> #[trigger] rows_end(s, p, k + 1, order) == Some(
                row_start(s, p, k, order) + row_len(s, row_start(s, p, k, order), order),
            ),
        forall|j: nat, k: nat|
            j < k <= n ==> #[trigger] rows_end(s, p, j, order)->Some_0 < #[trigger] rows_end(
                s,
                p,
                k,
                order,
            )->Some_0,
{
    assert forall|k: nat| k < n implies #[trigger] rows_end(s, p, k + 1, order) == Some(
        row_start(s, p, k, order) + row_len(s, row_start(s, p, k, order), order),
    ) by {
        lemma_rows_end_some_prefix(s, p, k + 1, n, order);
    }
    assert forall|j: nat, k: nat| j < k <= n implies #[trigger] rows_end(s, p, j, order)->Some_0
        < #[trigger] rows_end(s, p, k, order)->Some_0 by {
        lemma_rows_end_some_prefix(s, p, k, n, order);
        lemma_rows_end_increasing(s, p, j, k, order);
    }
}

/// Whether `e` is the error of the table of `n` rows at `p`: the error of
/// its first malformed row, and where that row's content is refused, the
/// cursor stands at `end`, just past the refused flag.
pub open spec fn is_table_error(
    e: ParseError,
    s: Seq<u8>,
    p: int,
    n: nat,
    order: Endianness,
    end: int,
) -> bool {
    exists|k: nat|
        {
            &&& k < n
            &&& #[trigger] rows_end(s, p, k, order) is Some
            &&& !row_ok(s, row_start(s, p, k, order), order)
            &&& is_row_error(e, s, row_start(s, p, k, order), order)
            &&& e is Expected ==> end == row_start(s, p, k, order) + 5
        }
}

/// The number of rows that a count field at `p` announces.
pub open spec fn count_at(s: Seq<u8>, p: int, order: Endianness) -> nat {
    uint_value(s.subrange(p, p + 4), order)
}

/// Decodes the type table: a four-byte row count, then the rows.
pub fn parse_asset_types(cursor: &mut ByteCursor, order: Endianness) -> (r: ParseResult<
    Vec<AssetType>,
>)
    ensures
        final(cursor).data() == old(cursor).data(),
        ({
            let s = old(cursor).data();
            let p = old(cursor).position() as int;
            let n = count_at(s, p, order);
            match r {
                Ok(types) => {
                    &&& old(cursor).has(4)
                    &&& is_table_at(types@, s, p + 4, n, order)
                    &&& final(cursor).position() == row_start(s, p + 4, n, order)
                },
                Err(e) => {
                    &&& !(old(cursor).has(4) && rows_end(s, p + 4, n, order) is Some)
                    &&& if old(cursor).has(4) {
                        is_table_error(e, s, p + 4, n, order, final(cursor).position() as int)
                    } else {
                        e.is_io_failure("reading asset types count"@)
                    }
                },
            }
        }),
{
    let ghost s = cursor.data();
    let ghost p = cursor.position() as int;
    let count = cursor.read_u32(order).context("reading asset types count")?;
    let mut types: Vec<AssetType> = Vec::new();
    let mut i: u32 = 0;
    while i < count
        invariant
            i <= count,
            s == old(cursor).data(),
            p == old(cursor).position(),
            old(cursor).has(4),
            count == count_at(s, p, order),
            cursor.data() == s,
            rows_end(s, p + 4, i as nat, order) == Some(cursor.position() as int),
            types@.len() == i,
            forall|k: nat|
                k < i ==> #[trigger] is_row_at(
                    types@[k as int],
                    s,
                    row_start(s, p + 4, k, order),
                    order,
                ),
        decreases count - i,
    {
        match parse_asset_type(cursor, order) {
            Ok(t) => {
                types.push(t);
            },
            Err(e) => {
                proof {
                    lemma_rows_end_stays_none(s, p + 4, (i + 1) as nat, count as nat, order);
                    assert(rows_end(s, p + 4, i as nat, order) is Some);
                }
                return Err(e);
            },
        }
        i = i + 1;
    }
    Ok(types)
}

} // verus!
