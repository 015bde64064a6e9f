//! The fixed header and the fields that follow it: version string, target
//! platform and the type-tree flag.
use vstd::prelude::*;
use vstd::utf8::{decode_utf8, valid_utf8};
use crate::cursor::{
    be_value, bool_of, lemma_be_value_bound, pow256, signed32, uint_value, zero_index, ByteCursor,
    Endianness, TextError,
};
use crate::error::{unexpected_eof, ParseError, ParseResult, ParserContext};

verus! {

/// The number of bytes of the header.
pub const HEADER_LEN: usize = 48;

/// Where the byte-order flag stands in the header.
pub const ENDIANNESS_FLAG_OFFSET: usize = 16;

#[derive(Clone, Copy, Debug, PartialEq, Eq, Structural)]
pub struct Header {
    pub version: u32,
    /// The byte order of every field after the header.
    pub endianness: Endianness,
    /// A word of unknown meaning, kept as read.
    pub metadata: u32,
    pub file_size: u64,
    /// Where the data region starts, counted from the start of the file.
    pub data_offset: u64,
}

/// Whether the header bytes `b` are well formed: long enough, with a flag of 0 or 1.
pub open spec fn header_valid(b: Seq<u8>) -> bool {
    b.len() >= HEADER_LEN && b[ENDIANNESS_FLAG_OFFSET as int] <= 1
}

/// The header that the bytes `b` hold; its own fields are always big-endian.
pub open spec fn header_of(b: Seq<u8>) -> Header {
    Header {
        version: be_value(b.subrange(8, 12)) as u32,
        endianness: if b[16] == 1 {
            Endianness::Big
        } else {
            Endianness::Little
        },
        metadata: be_value(b.subrange(20, 24)) as u32,
        file_size: be_value(b.subrange(24, 32)) as u64,
        data_offset: be_value(b.subrange(32, 40)) as u64,
    }
}

/// The `w` bytes of `x`, most significant first.
pub open spec fn be_bytes(x: nat, w: nat) -> Seq<u8>
    decreases w,
{
    if w == 0 {
        Seq::empty()
    } else {
        be_bytes(x / 256, (w - 1) as nat).push((x % 256) as u8)
    }
}

/// The header written back as bytes, with zeros in the spans it does not keep.
pub open spec fn header_bytes(h: Header) -> Seq<u8> {
    Seq::new(8, |i: int| 0u8) + be_bytes(h.version as nat, 4) + Seq::new(4, |i: int| 0u8) + seq![
        if h.endianness == Endianness::Big {
            1u8
        } else {
            0u8
        },
    ] + Seq::new(3, |i: int| 0u8) + be_bytes(h.metadata as nat, 4) + be_bytes(
        h.file_size as nat,
        8,
    ) + be_bytes(h.data_offset as nat, 8) + Seq::new(8, |i: int| 0u8)
}

/// The bytes of a header that carry its fields.
pub open spec fn header_field_bytes(b: Seq<u8>) -> Seq<u8> {
    b.subrange(8, 12) + b.subrange(16, 17) + b.subrange(20, 40)
}

proof fn lemma_be_value_of_bytes(x: nat, w: nat)
    requires
        x < pow256(w),
    ensures
        be_bytes(x, w).len() == w,
        be_value(be_bytes(x, w)) == x,
    decreases w,
{
    if w > 0 {
        assert(x / 256 < pow256((w - 1) as nat)) by (nonlinear_arith)
            requires
                x < pow256(w),
                pow256(w) == 256 * pow256((w - 1) as nat),
        ;
        lemma_be_value_of_bytes(x / 256, (w - 1) as nat);
        let b = be_bytes(x, w);
        assert(b.drop_last() =~= be_bytes(x / 256, (w - 1) as nat));
    }
}

proof fn lemma_be_bytes_of_value(b: Seq<u8>)
    ensures
        be_bytes(be_value(b), b.len()) == b,
    decreases b.len(),
{
    if b.len() > 0 {
        let x = be_value(b);
        let rest = b.drop_last();
        assert(x / 256 == be_value(rest) && x % 256 == b.last()) by (nonlinear_arith)
            requires
                x == be_value(rest) * 256 + b.last(),
                b.last() < 256,
        ;
        lemma_be_bytes_of_value(rest);
        assert(be_bytes(x, b.len()) =~= b);
    }
}

/// Decoding a valid header, writing it back and decoding the result gives the
/// same header, and the written bytes agree with the bytes read wherever a
/// field is stored.
pub proof fn lemma_header_round_trip(b: Seq<u8>)
    requires
        b.len() == HEADER_LEN,
        header_valid(b),
    ensures
        header_bytes(header_of(b)).len() == HEADER_LEN,
        header_valid(header_bytes(header_of(b))),
        header_of(header_bytes(header_of(b))) == header_of(b),
        header_field_bytes(header_bytes(header_of(b))) == header_field_bytes(b),
{
    let h = header_of(b);
    lemma_be_value_bound(b.subrange(8, 12));
    lemma_be_value_bound(b.subrange(20, 24));
    lemma_be_value_bound(b.subrange(24, 32));
    lemma_be_value_bound(b.subrange(32, 40));
    reveal_with_fuel(pow256, 9);
    lemma_be_bytes_of_value(b.subrange(8, 12));
    lemma_be_bytes_of_value(b.subrange(20, 24));
    lemma_be_bytes_of_value(b.subrange(24, 32));
    lemma_be_bytes_of_value(b.subrange(32, 40));
    let e = header_bytes(h);
    assert(e.subrange(8, 12) =~= b.subrange(8, 12));
    assert(e.subrange(20, 24) =~= b.subrange(20, 24));
    assert(e.subrange(24, 32) =~= b.subrange(24, 32));
    assert(e.subrange(32, 40) =~= b.subrange(32, 40));
    assert(e[16] == b[16]);
    assert(header_field_bytes(e) =~= header_field_bytes(b));
}

/// Every header written back as bytes is a valid header that decodes to itself.
pub proof fn lemma_header_bytes_decode(h: Header)
    ensures
        header_bytes(h).len() == HEADER_LEN,
        header_valid(header_bytes(h)),
        header_of(header_bytes(h)) == h,
{
    reveal_with_fuel(pow256, 9);
    lemma_be_value_of_bytes(h.version as nat, 4);
    lemma_be_value_of_bytes(h.metadata as nat, 4);
    lemma_be_value_of_bytes(h.file_size as nat, 8);
    lemma_be_value_of_bytes(h.data_offset as nat, 8);
    let e = header_bytes(h);
    assert(e.subrange(8, 12) =~= be_bytes(h.version as nat, 4));
    assert(e.subrange(20, 24) =~= be_bytes(h.metadata as nat, 4));
    assert(e.subrange(24, 32) =~= be_bytes(h.file_size as nat, 8));
    assert(e.subrange(32, 40) =~= be_bytes(h.data_offset as nat, 8));
}

/// The operation under way when a stream that holds only `k` bytes of a
/// header runs out.
pub open spec fn header_io_label(k: int) -> Seq<char> {
    if k < 8 {
        "ignoring first 8 bytes"@
    } else if k < 12 {
        "reading header version"@
    } else if k < 16 {
        "ignoring 4 bytes after header"@
    } else if k < 17 {
        "reading endianess boolean"@
    } else if k < 20 {
        "ignoring reserved bytes"@
    } else if k < 24 {
        "reading header metadata"@
    } else if k < 32 {
        "reading header file size"@
    } else if k < 40 {
        "reading header data offset"@
    } else {
        "ignoring last 8 bytes of header"@
    }
}

/// Reads a one-byte flag: fails on a short stream with `ctx`, and on a byte
/// other than 0 or 1 with a mismatch that names `what` and holds the byte.
fn parse_flag(
    cursor: &mut ByteCursor,
    ctx: &'static str,
    what: &'static str,
) -> (r: ParseResult<bool>)
    ensures
        final(cursor).data() == old(cursor).data(),
        match r {
            Ok(flag) => old(cursor).has(1) && bool_of(old(cursor).ahead(1)[0]) == Ok::<bool, u8>(
                flag,
            ) && final(cursor).position() == old(cursor).position() + 1,
            Err(e) => if old(cursor).has(1) {
                &&& old(cursor).ahead(1)[0] > 1
                &&& e.is_mismatch(what@, seq![old(cursor).ahead(1)[0]])
                &&& final(cursor).position() == old(cursor).position() + 1
            } else {
                e.is_io_failure(ctx@)
            },
        },
{
    let ghost s = cursor.data();
    let ghost p = cursor.position() as int;
    match cursor.read_bool().context(ctx)? {
        Ok(flag) => Ok(flag),
        Err(byte) => {
            let received = vec![byte];
            assert(received@ =~= seq![s.subrange(p, p + 1)[0]]);
            Err(ParseError::expected_without_source(what, received))
        },
    }
}

/// Decodes the header at the cursor.
pub fn parse_header(cursor: &mut ByteCursor) -> (r: ParseResult<Header>)
    ensures
        final(cursor).data() == old(cursor).data(),
        match r {
            Ok(h) => {
                &&& old(cursor).has(HEADER_LEN as nat)
                &&& header_valid(old(cursor).ahead(HEADER_LEN as nat))
                &&& h == header_of(old(cursor).ahead(HEADER_LEN as nat))
                &&& final(cursor).position() == old(cursor).position() + HEADER_LEN
            },
            Err(e) => {
                let s = old(cursor).data();
                let p = old(cursor).position() as int;
                &&& !(old(cursor).has(HEADER_LEN as nat) && header_valid(
                    old(cursor).ahead(HEADER_LEN as nat),
                ))
                &&& if old(cursor).has(17) && s[p + 16] > 1 {
                    e.is_mismatch("0 or 1 for the byte order flag"@, seq![s[p + 16]])
                } else {
                    e.is_io_failure(header_io_label(s.len() - p))
                }
            },
        },
{
    let ghost s = cursor.data();
    let ghost p = cursor.position() as int;
    cursor.skip(8).context("ignoring first 8 bytes")?;
    let version = cursor.read_u32(Endianness::Big).context("reading header version")?;
    cursor.skip(4).context("ignoring 4 bytes after header")?;
    let big = parse_flag(cursor, "reading endianess boolean", "0 or 1 for the byte order flag")?;
    let endianness = if big {
        Endianness::Big
    } else {
        Endianness::Little
    };
    cursor.skip(3).context("ignoring reserved bytes")?;
    let metadata = cursor.read_u32(Endianness::Big).context("reading header metadata")?;
    let file_size = cursor.read_u64(Endianness::Big).context("reading header file size")?;
    let data_offset = cursor.read_u64(Endianness::Big).context("reading header data offset")?;
    cursor.skip(8).context("ignoring last 8 bytes of header")?;
    let h = Header { version, endianness, metadata, file_size, data_offset };
    proof {
        let b = s.subrange(p, p + 48);
        assert(b.subrange(8, 12) =~= s.subrange(p + 8, p + 12));
        assert(b.subrange(20, 24) =~= s.subrange(p + 20, p + 24));
        assert(b.subrange(24, 32) =~= s.subrange(p + 24, p + 32));
        assert(b.subrange(32, 40) =~= s.subrange(p + 32, p + 40));
        assert(b[16] == s[p + 16]);
    }
    Ok(h)
}

/// Decodes the engine version: UTF-8 text ended by a zero byte, which is
/// consumed and left out of the text.
pub fn parse_unity_version(cursor: &mut ByteCursor) -> (r: ParseResult<String>)
    ensures
        final(cursor).data() == old(cursor).data(),
        ({
            let s = old(cursor).data();
            let p = old(cursor).position() as int;
            let z = zero_index(s, p);
            let field = s.subrange(p, z);
            match r {
                Ok(text) => z < s.len() && valid_utf8(field) && text@ == decode_utf8(field)
                    && final(cursor).position() == z + 1,
                Err(e) => {
                    &&& !(z < s.len() && valid_utf8(field))
                    &&& z == s.len() ==> e.is_mismatch(
                        "Unity version ending with a null byte"@,
                        field,
                    ) && final(cursor).position() == s.len()
                    &&& z < s.len() ==> e.is_mismatch("valid utf-8 for Unity version"@, field)
                        && final(cursor).position() == z + 1
                },
            }
        }),
{
    match cursor.read_null_terminated_string() {
        Ok(text) => Ok(text),
        Err(TextError::Unterminated(bytes)) => Err(
            ParseError::expected("Unity version ending with a null byte", bytes, unexpected_eof()),
        ),
        Err(TextError::InvalidUtf8(bytes, source)) => Err(
            ParseError::expected("valid utf-8 for Unity version", bytes, source),
        ),
    }
}

/// The platform a file was built for.
#[derive(Clone, Copy, Debug, PartialEq, Eq, Structural)]
pub enum TargetPlatform {
    /// Any other platform, with its raw value.
    Unknown(i32),
    Windows64,
}

/// The raw value of the one known platform.
pub const WINDOWS64_PLATFORM: i32 = 19;

/// The platform that the raw value `v` names.
pub open spec fn platform_of(v: i32) -> TargetPlatform {
    if v == WINDOWS64_PLATFORM {
        TargetPlatform::Windows64
    } else {
        TargetPlatform::Unknown(v)
    }
}

impl From<i32> for TargetPlatform {
    fn from(value: i32) -> (r: TargetPlatform)
        ensures
            r == platform_of(value),
    {
        if value == WINDOWS64_PLATFORM {
            TargetPlatform::Windows64
        } else {
            TargetPlatform::Unknown(value)
        }
    }
}

impl vstd::std_specs::convert::FromSpecImpl<i32> for TargetPlatform {
    open spec fn obeys_from_spec() -> bool {
        true
    }

    open spec fn from_spec(v: i32) -> TargetPlatform {
        platform_of(v)
    }
}

/// Decodes the target platform, a four-byte signed integer in `order`.
pub fn parse_target_platform(cursor: &mut ByteCursor, order: Endianness) -> (r: ParseResult<
    TargetPlatform,
>)
    ensures
        final(cursor).data() == old(cursor).data(),
        match r {
            Ok(t) => old(cursor).has(4) && t == platform_of(
                signed32(uint_value(old(cursor).ahead(4), order)) as i32,
            ) && final(cursor).position() == old(cursor).position() + 4,
            Err(e) => !old(cursor).has(4) && e.is_io_failure("reading target platform"@),
        },
{
    let raw = cursor.read_i32(order).context("reading target platform")?;
    Ok(TargetPlatform::from(raw))
}

/// Decodes the flag that tells whether the file embeds a type tree.
pub fn parse_type_tree_presence(cursor: &mut ByteCursor) -> (r: ParseResult<bool>)
    ensures
        final(cursor).data() == old(cursor).data(),
        match r {
            Ok(flag) => old(cursor).has(1) && bool_of(old(cursor).ahead(1)[0]) == Ok::<bool, u8>(
                flag,
            ) && final(cursor).position() == old(cursor).position() + 1,
            Err(e) => if old(cursor).has(1) {
                &&& old(cursor).ahead(1)[0] > 1
                &&& e.is_mismatch(
                    "0 or 1 for the type tree flag"@,
                    seq![old(cursor).ahead(1)[0]],
                )
                &&& final(cursor).position() == old(cursor).position() + 1
            } else {
                e.is_io_failure("reading type tree status"@)
            },
        },
{
    parse_flag(cursor, "reading type tree status", "0 or 1 for the type tree flag")
}

} // verus!
