//! The whole decode: header, version, platform, type-tree flag, type table
//! and asset index, one after the other on one cursor.
use vstd::prelude::*;
use vstd::utf8::{decode_utf8, valid_utf8};
use crate::cursor::{signed32, uint_value, zero_index, ByteCursor, Endianness};
use crate::error::{ParseError, ParseResult};
use crate::header::{
    header_of, header_valid, parse_header, parse_target_platform, parse_type_tree_presence,
    parse_unity_version, platform_of, Header, TargetPlatform, HEADER_LEN,
};
use crate::index::{entry_pos, index_ok, is_entry_at, parse_index, AssetEntry};
use crate::tables::{count_at, is_table_at, parse_asset_types, row_start, rows_end, AssetType};

verus! {

/// Everything decoded from a file.
pub struct AssetsFile {
    pub header: Header,
    pub unity_version: String,
    pub target_platform: TargetPlatform,
    pub asset_types: Vec<AssetType>,
    pub assets: Vec<AssetEntry>,
}

/// The header of a file that starts at `p`.
pub open spec fn file_header(s: Seq<u8>, p: int) -> Header {
    header_of(s.subrange(p, p + HEADER_LEN))
}

/// Where the version string of a file that starts at `p` ends.
pub open spec fn version_end(s: Seq<u8>, p: int) -> int {
    zero_index(s, p + HEADER_LEN)
}

/// Where the platform field of a file that starts at `p` stands.
pub open spec fn platform_pos(s: Seq<u8>, p: int) -> int {
    version_end(s, p) + 1
}

/// Where the type table of a file that starts at `p` stands.
pub open spec fn table_pos(s: Seq<u8>, p: int) -> int {
    platform_pos(s, p) + 5
}

/// Where the asset index of a file that starts at `p` stands.
pub open spec fn index_pos(s: Seq<u8>, p: int) -> int {
    let o = file_header(s, p).endianness;
    row_start(s, table_pos(s, p) + 4, count_at(s, table_pos(s, p), o), o)
}

/// Whether the file that starts at `p` decodes: a valid header, a terminated
/// UTF-8 version string, a platform, a type-tree flag of 0, a well-formed type
/// table and a well-formed index.
pub open spec fn file_ok(s: Seq<u8>, p: int) -> bool {
    let o = file_header(s, p).endianness;
    let v = p + HEADER_LEN;
    let t = table_pos(s, p);
    let x = index_pos(s, p);
    &&& 0 <= p && p + HEADER_LEN <= s.len()
    &&& header_valid(s.subrange(p, p + HEADER_LEN))
    &&& version_end(s, p) < s.len()
    &&& valid_utf8(s.subrange(v, version_end(s, p)))
    &&& t <= s.len()
    &&& s[platform_pos(s, p) + 4] == 0
    &&& t + 4 <= s.len()
    &&& rows_end(s, t + 4, count_at(s, t, o), o) is Some
    &&& index_ok(s, x, count_at(s, x, o), o, count_at(s, t, o), file_header(s, p).data_offset)
}

/// Decodes a whole file. A file that embeds a type tree is refused as a
/// content mismatch, since its rows are laid out otherwise.
pub fn parse_assets_file(cursor: &mut ByteCursor) -> (r: ParseResult<AssetsFile>)
    ensures
        final(cursor).data() == old(cursor).data(),
        ({
            let s = old(cursor).data();
            let p = old(cursor).position() as int;
            let h = file_header(s, p);
            let o = h.endianness;
            let t = table_pos(s, p);
            let x = index_pos(s, p);
            let v = platform_pos(s, p);
            match r {
                Ok(f) => {
                    &&& file_ok(s, p)
                    &&& f.header == h
                    &&& f.unity_version@ == decode_utf8(
                        s.subrange(p + HEADER_LEN, version_end(s, p)),
                    )
                    &&& f.target_platform == platform_of(
                        signed32(uint_value(s.subrange(v, v + 4), o)) as i32,
                    )
                    &&& is_table_at(f.asset_types@, s, t + 4, count_at(s, t, o), o)
                    &&& f.assets@.len() == count_at(s, x, o)
                    &&& forall|k: nat|
                        k < count_at(s, x, o) ==> #[trigger] is_entry_at(
                            f.assets@[k as int],
                            s,
                            entry_pos(x, k),
                            o,
                            h.data_offset,
                        )
                    &&& final(cursor).position() == entry_pos(x, count_at(s, x, o))
                },
                Err(_) => !file_ok(s, p),
            }
        }),
{
    let header = parse_header(cursor)?;
    let unity_version = parse_unity_version(cursor)?;
    let target_platform = parse_target_platform(cursor, header.endianness)?;
    let has_type_tree = parse_type_tree_presence(cursor)?;
    if has_type_tree {
        return Err(
            ParseError::expected_without_source("a file without an embedded type tree", vec![1u8]),
        );
    }
    let asset_types = parse_asset_types(cursor, header.endianness)?;
    let assets = parse_index(
        cursor,
        header.endianness,
        header.data_offset,
        asset_types.as_slice(),
    )?;
    Ok(AssetsFile { header, unity_version, target_platform, asset_types, assets })
}

} // verus!
