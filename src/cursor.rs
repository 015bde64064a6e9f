//! A forward-only reader over an in-memory byte stream.
use vstd::prelude::*;
use vstd::utf8::{decode_utf8, valid_utf8};
use crate::error::unexpected_eof;

verus! {

/// The order in which the bytes of a multi-byte integer are stored.
#[derive(Clone, Copy, Debug, PartialEq, Eq, Structural)]
pub enum Endianness {
    Big,
    Little,
}

/// `256` raised to the power `n`.
pub open spec fn pow256(n: nat) -> nat
    decreases n,
{
    if n == 0 {
        1
    } else {
        256 * pow256((n - 1) as nat)
    }
}

/// The unsigned value of `b` read most significant byte first.
pub open spec fn be_value(b: Seq<u8>) -> nat
    decreases b.len(),
{
    if b.len() == 0 {
        0
    } else {
        (be_value(b.drop_last()) * 256 + b.last()) as nat
    }
}

/// The unsigned value of `b` read least significant byte first.
pub open spec fn le_value(b: Seq<u8>) -> nat
    decreases b.len(),
{
    if b.len() == 0 {
        0
    } else {
        (le_value(b.drop_first()) * 256 + b[0]) as nat
    }
}

/// The unsigned value of `b` in the given byte order.
pub open spec fn uint_value(b: Seq<u8>, order: Endianness) -> nat {
    match order {
        Endianness::Big => be_value(b),
        Endianness::Little => le_value(b),
    }
}

pub proof fn lemma_be_value_bound(b: Seq<u8>)
    ensures
        be_value(b) < pow256(b.len()),
    decreases b.len(),
{
    if b.len() > 0 {
        lemma_be_value_bound(b.drop_last());
    }
}

pub proof fn lemma_le_value_bound(b: Seq<u8>)
    ensures
        le_value(b) < pow256(b.len()),
    decreases b.len(),
{
    if b.len() > 0 {
        lemma_le_value_bound(b.drop_first());
    }
}

pub proof fn lemma_pow256_monotone(a: nat, b: nat)
    requires
        a <= b,
    ensures
        pow256(a) <= pow256(b),
    decreases b,
{
    if a < b {
        lemma_pow256_monotone(a, (b - 1) as nat);
    }
}

pub proof fn lemma_pow256_eight()
    ensures
        pow256(8) == 0x1_0000_0000_0000_0000,
{
    reveal_with_fuel(pow256, 9);
}

proof fn lemma_le_value_push(b: Seq<u8>, x: u8)
    ensures
        le_value(b.push(x)) == le_value(b) + pow256(b.len()) * x,
    decreases b.len(),
{
    if b.len() > 0 {
        lemma_le_value_push(b.drop_first(), x);
        assert(b.push(x).drop_first() =~= b.drop_first().push(x));
        assert(b.push(x)[0] == b[0]);
        assert(le_value(b.push(x)) == le_value(b.drop_first().push(x)) * 256 + b[0]);
        assert(le_value(b) == le_value(b.drop_first()) * 256 + b[0]);
        assert(pow256(b.len()) == 256 * pow256(b.drop_first().len()));
        assert((le_value(b.drop_first()) + pow256(b.drop_first().len()) * x) * 256 == le_value(
            b.drop_first(),
        ) * 256 + (256 * pow256(b.drop_first().len())) * x) by (nonlinear_arith);
    } else {
        assert(b.push(x).drop_first() =~= Seq::<u8>::empty());
        assert(le_value(b.push(x).drop_first()) == 0);
        assert(b.push(x)[0] == x);
        assert(pow256(0) == 1);
    }
}

/// The `w` low bytes of `x`, least significant first.
pub open spec fn le_bytes_of(x: nat, w: nat) -> Seq<u8>
    decreases w,
{
    if w == 0 {
        Seq::empty()
    } else {
        seq![(x % 256) as u8] + le_bytes_of(x / 256, (w - 1) as nat)
    }
}

/// The `width` bytes of `x`, least significant first.
pub fn le_bytes(x: u64, width: usize) -> (r: Vec<u8>)
    requires
        width <= 8,
        x < pow256(width as nat),
    ensures
        r@ == le_bytes_of(x as nat, width as nat),
        r@.len() == width,
        le_value(r@) == x,
{
    let mut out: Vec<u8> = Vec::new();
    let mut rest: u64 = x;
    let mut i: usize = 0;
    assert(le_value(out@) == 0 && pow256(0) == 1);
    while i < width
        invariant
            i <= width <= 8,
            out@.len() == i,
            x == le_value(out@) + pow256(i as nat) * rest,
            out@ + le_bytes_of(rest as nat, (width - i) as nat) == le_bytes_of(
                x as nat,
                width as nat,
            ),
            rest < pow256((width - i) as nat),
        decreases width - i,
    {
        let byte = (rest % 256) as u8;
        proof {
            lemma_le_value_push(out@, byte);
            let next = rest / 256;
            assert(pow256((i + 1) as nat) == 256 * pow256(i as nat));
            assert(pow256((width - i) as nat) == 256 * pow256((width - i - 1) as nat));
            assert(pow256(i as nat) * rest == pow256(i as nat) * byte + pow256((i + 1) as nat)
                * next && next < pow256((width - i - 1) as nat)) by (nonlinear_arith)
                requires
                    byte == rest % 256,
                    next == rest / 256,
                    pow256((i + 1) as nat) == 256 * pow256(i as nat),
                    rest < pow256((width - i) as nat),
                    pow256((width - i) as nat) == 256 * pow256((width - i - 1) as nat),
            ;
        }
        let ghost before = out@;
        out.push(byte);
        proof {
            let m = (width - i) as nat;
            assert(le_bytes_of(rest as nat, m) == seq![byte] + le_bytes_of((rest / 256) as nat, (m
                - 1) as nat));
            assert(out@ + le_bytes_of((rest / 256) as nat, (m - 1) as nat) =~= before
                + le_bytes_of(rest as nat, m));
        }
        rest = rest / 256;
        i = i + 1;
    }
    proof {
        assert(rest == 0);
        assert(out@ + le_bytes_of(rest as nat, 0) =~= out@);
    }
    out
}

pub proof fn lemma_uint_value_bound(b: Seq<u8>, order: Endianness)
    ensures
        uint_value(b, order) < pow256(b.len()),
{
    lemma_be_value_bound(b);
    lemma_le_value_bound(b);
}

/// The signed value of a four-byte two's-complement integer whose unsigned value is `u`.
pub open spec fn signed32(u: nat) -> int {
    if u < 0x8000_0000 {
        u as int
    } else {
        u - 0x1_0000_0000
    }
}

/// How many bytes take position `p` to the next multiple of four.
pub open spec fn align4_padding(p: nat) -> nat {
    ((4 - p % 4) % 4) as nat
}

/// The index of the first zero byte of `s` at or after `i`, or `s.len()`
/// where there is none.
pub open spec fn zero_index(s: Seq<u8>, i: int) -> int
    decreases s.len() - i,
{
    if i < 0 || i >= s.len() {
        s.len() as int
    } else if s[i] == 0 {
        i
    } else {
        zero_index(s, i + 1)
    }
}

/// Why a null-terminated text field could not be read.
pub enum TextError {
    /// The stream ended before a zero byte; holds the bytes read up to the end.
    Unterminated(Vec<u8>),
    /// The bytes before the zero byte are not UTF-8; holds those bytes and
    /// the failure reported by the decoder.
    InvalidUtf8(Vec<u8>, std::io::Error),
}

/// Relies on `String::from_utf8`: it accepts exactly the well-formed UTF-8
/// sequences and decodes them; on refusal `FromUtf8Error::into_bytes` hands the
/// bytes back, and its `Utf8Error` becomes an `InvalidData` I/O error.
#[verifier::external_body]
fn string_from_utf8(bytes: Vec<u8>) -> (r: Result<String, (Vec<u8>, std::io::Error)>)
    ensures
        match r {
            Ok(text) => valid_utf8(bytes@) && text@ == decode_utf8(bytes@),
            Err((back, _)) => !valid_utf8(bytes@) && back@ == bytes@,
        },
{
    match String::from_utf8(bytes) {
        Ok(text) => Ok(text),
        Err(e) => {
            let source = std::io::Error::new(std::io::ErrorKind::InvalidData, e.utf8_error());
            Err((e.into_bytes(), source))
        },
    }
}

/// A byte read as a boolean: 0 and 1 are `false` and `true`, any other byte
/// is refused and handed back.
pub open spec fn bool_of(b: u8) -> Result<bool, u8> {
    if b == 0 {
        Ok(false)
    } else if b == 1 {
        Ok(true)
    } else {
        Err(b)
    }
}

/// A reader over `bytes` whose next byte is at `pos`.
pub struct ByteCursor {
    bytes: Vec<u8>,
    pos: usize,
}

impl ByteCursor {
    /// The whole stream.
    pub closed spec fn data(&self) -> Seq<u8> {
        self.bytes@
    }

    /// How many bytes have been consumed from the start of the stream.
    pub closed spec fn position(&self) -> nat {
        self.pos as nat
    }

    #[verifier::type_invariant]
    spec fn wf(&self) -> bool {
        self.pos <= self.bytes.len()
    }

    /// The `n` bytes that follow the cursor.
    pub open spec fn ahead(&self, n: nat) -> Seq<u8> {
        self.data().subrange(self.position() as int, (self.position() + n) as int)
    }

    /// Whether at least `n` bytes remain.
    pub open spec fn has(&self, n: nat) -> bool {
        self.position() + n <= self.data().len()
    }

    pub fn new(bytes: Vec<u8>) -> (r: ByteCursor)
        ensures
            r.data() == bytes@,
            r.position() == 0,
    {
        ByteCursor { bytes, pos: 0 }
    }

    pub fn pos(&self) -> (r: usize)
        ensures
            r == self.position(),
            r <= self.data().len(),
    {
        proof {
            use_type_invariant(self);
        }
        self.pos
    }

    /// Whether at least `n` bytes remain after the cursor.
    pub fn remaining_at_least(&self, n: usize) -> (r: bool)
        ensures
            r == self.has(n as nat),
    {
        proof {
            use_type_invariant(self);
        }
        n <= self.bytes.len() - self.pos
    }

    /// Advances `n` bytes; fails, without moving, where fewer remain.
    pub fn skip(&mut self, n: usize) -> (r: Result<(), std::io::Error>)
        ensures
            final(self).data() == old(self).data(),
            r is Ok <==> old(self).has(n as nat),
            r is Ok ==> final(self).position() == old(self).position() + n,
            r is Err ==> final(self).position() == old(self).position(),
    {
        if !self.remaining_at_least(n) {
            return Err(unexpected_eof());
        }
        proof {
            use_type_invariant(&*self);
            assert(self.bytes.len() == self.bytes@.len());
        }
        self.pos = self.pos + n;
        Ok(())
    }

    /// Reads one byte.
    pub fn read_u8(&mut self) -> (r: Result<u8, std::io::Error>)
        ensures
            final(self).data() == old(self).data(),
            r is Ok <==> old(self).has(1),
            r is Ok ==> r->Ok_0 == old(self).data()[old(self).position() as int]
                && final(self).position() == old(self).position() + 1,
            r is Err ==> final(self).position() == old(self).position(),
    {
        if !self.remaining_at_least(1) {
            return Err(unexpected_eof());
        }
        proof {
            use_type_invariant(&*self);
        }
        let b = self.bytes[self.pos];
        self.pos = self.pos + 1;
        Ok(b)
    }

    /// Reads a `width`-byte unsigned integer in `order`.
    fn read_uint(&mut self, width: usize, order: Endianness) -> (r: Result<u64, std::io::Error>)
        requires
            width <= 8,
        ensures
            final(self).data() == old(self).data(),
            r is Ok <==> old(self).has(width as nat),
            r is Ok ==> r->Ok_0 == uint_value(old(self).ahead(width as nat), order)
                && final(self).position() == old(self).position() + width,
            r is Err ==> final(self).position() == old(self).position(),
    {
        if !self.remaining_at_least(width) {
            return Err(unexpected_eof());
        }
        proof {
            use_type_invariant(&*self);
            lemma_pow256_eight();
        }
        let start = self.pos;
        let ghost s = self.bytes@;
        assert(s.len() == self.bytes.len());
        let mut v: u64 = 0;
        match order {
            Endianness::Big => {
                let mut i: usize = 0;
                while i < width
                    invariant
                        i <= width <= 8,
                        start + width <= s.len() <= usize::MAX,
                        s == self.bytes@,
                        v == be_value(s.subrange(start as int, start + i)),
                        v < pow256(i as nat),
                        pow256(8) == 0x1_0000_0000_0000_0000,
                    decreases width - i,
                {
                    proof {
                        lemma_pow256_monotone((i + 1) as nat, 8);
                        assert(s.subrange(start as int, start + i + 1).drop_last() =~= s.subrange(
                            start as int,
                            start + i,
                        ));
                    }
                    v = v * 256 + self.bytes[start + i] as u64;
                    i = i + 1;
                }
            },
            Endianness::Little => {
                let mut k: usize = width;
                while k > 0
                    invariant
                        k <= width <= 8,
                        start + width <= s.len() <= usize::MAX,
                        s == self.bytes@,
                        v == le_value(s.subrange(start + k, start + width)),
                        v < pow256((width - k) as nat),
                        pow256(8) == 0x1_0000_0000_0000_0000,
                    decreases k,
                {
                    proof {
                        lemma_pow256_monotone((width - k + 1) as nat, 8);
                        assert(s.subrange(start + k - 1, start + width).drop_first() =~= s.subrange(
                            start + k,
                            start + width,
                        ));
                    }
                    v = v * 256 + self.bytes[start + k - 1] as u64;
                    k = k - 1;
                }
            },
        }
        self.pos = start + width;
        Ok(v)
    }

    /// Reads a two-byte unsigned integer in `order`.
    pub fn read_u16(&mut self, order: Endianness) -> (r: Result<u16, std::io::Error>)
        ensures
            final(self).data() == old(self).data(),
            r is Ok <==> old(self).has(2),
            r is Ok ==> r->Ok_0 == uint_value(old(self).ahead(2), order)
                && final(self).position() == old(self).position() + 2,
            r is Err ==> final(self).position() == old(self).position(),
    {
        let v = self.read_uint(2, order)?;
        proof {
            lemma_uint_value_bound(old(self).ahead(2), order);
            reveal_with_fuel(pow256, 3);
        }
        Ok(v as u16)
    }

    /// Reads a four-byte unsigned integer in `order`.
    pub fn read_u32(&mut self, order: Endianness) -> (r: Result<u32, std::io::Error>)
        ensures
            final(self).data() == old(self).data(),
            r is Ok <==> old(self).has(4),
            r is Ok ==> r->Ok_0 == uint_value(old(self).ahead(4), order)
                && final(self).position() == old(self).position() + 4,
            r is Err ==> final(self).position() == old(self).position(),
    {
        let v = self.read_uint(4, order)?;
        proof {
            lemma_uint_value_bound(old(self).ahead(4), order);
            reveal_with_fuel(pow256, 5);
        }
        Ok(v as u32)
    }

    /// Reads a four-byte two's-complement integer in `order`.
    pub fn read_i32(&mut self, order: Endianness) -> (r: Result<i32, std::io::Error>)
        ensures
            final(self).data() == old(self).data(),
            r is Ok <==> old(self).has(4),
            r is Ok ==> r->Ok_0 == signed32(uint_value(old(self).ahead(4), order))
                && final(self).position() == old(self).position() + 4,
            r is Err ==> final(self).position() == old(self).position(),
    {
        let u = self.read_u32(order)?;
        if u < 0x8000_0000 {
            Ok(u as i32)
        } else {
            let below: u32 = 0xffff_ffff - u;
            Ok(-(below as i32) - 1)
        }
    }

    /// Reads an eight-byte unsigned integer in `order`.
    pub fn read_u64(&mut self, order: Endianness) -> (r: Result<u64, std::io::Error>)
        ensures
            final(self).data() == old(self).data(),
            r is Ok <==> old(self).has(8),
            r is Ok ==> r->Ok_0 == uint_value(old(self).ahead(8), order)
                && final(self).position() == old(self).position() + 8,
            r is Err ==> final(self).position() == old(self).position(),
    {
        self.read_uint(8, order)
    }

    /// Reads sixteen raw bytes.
    pub fn read_16_bytes(&mut self) -> (r: Result<[u8; 16], std::io::Error>)
        ensures
            final(self).data() == old(self).data(),
            r is Ok <==> old(self).has(16),
            r is Ok ==> r->Ok_0@ == old(self).ahead(16)
                && final(self).position() == old(self).position() + 16,
            r is Err ==> final(self).position() == old(self).position(),
    {
        if !self.remaining_at_least(16) {
            return Err(unexpected_eof());
        }
        proof {
            use_type_invariant(&*self);
        }
        let start = self.pos;
        let mut out = [0u8; 16];
        assert(self.bytes@.len() == self.bytes.len());
        let mut i: usize = 0;
        while i < 16
            invariant
                i <= 16,
                start + 16 <= self.bytes@.len() <= usize::MAX,
                out@.len() == 16,
                forall|j: int| 0 <= j < i ==> out@[j] == self.bytes@[start + j],
            decreases 16 - i,
        {
            out[i] = self.bytes[start + i];
            i = i + 1;
        }
        self.pos = start + 16;
        assert(out@ =~= self.bytes@.subrange(start as int, start + 16));
        Ok(out)
    }

    /// Advances to the next multiple of four counted from the start of the
    /// stream, consuming the bytes in between; does nothing at a multiple of four.
    pub fn align_to_4(&mut self) -> (r: Result<(), std::io::Error>)
        ensures
            final(self).data() == old(self).data(),
            r is Ok <==> old(self).has(align4_padding(old(self).position())),
            r is Ok ==> final(self).position() == old(self).position() + align4_padding(
                old(self).position(),
            ),
            old(self).position() % 4 == 0 ==> r is Ok && final(self).position() == old(
                self,
            ).position(),
            r is Err ==> final(self).position() == old(self).position(),
    {
        proof {
            use_type_invariant(&*self);
        }
        let pad: usize = (4 - self.pos % 4) % 4;
        self.skip(pad)
    }

    /// Reads bytes up to and including the next zero byte and decodes those
    /// before it as UTF-8.
    pub fn read_null_terminated_string(&mut self) -> (r: Result<String, TextError>)
        ensures
            final(self).data() == old(self).data(),
            ({
                let s = old(self).data();
                let p = old(self).position() as int;
                let z = zero_index(s, p);
                let field = s.subrange(p, z);
                match r {
                    Ok(text) => z < s.len() && valid_utf8(field) && text@ == decode_utf8(field)
                        && final(self).position() == z + 1,
                    Err(TextError::Unterminated(got)) => {
                        &&& z == s.len()
                        &&& got@ == s.subrange(p, s.len() as int)
                        &&& final(self).position() == s.len()
                    },
                    Err(TextError::InvalidUtf8(got, _)) => {
                        &&& z < s.len()
                        &&& !valid_utf8(field)
                        &&& got@ == field
                        &&& final(self).position() == z + 1
                    },
                }
            }),
    {
        proof {
            use_type_invariant(&*self);
        }
        let start = self.pos;
        let len = self.bytes.len();
        let ghost s = self.bytes@;
        let mut buffer: Vec<u8> = Vec::new();
        let mut i: usize = start;
        while i < len && self.bytes[i] != 0
            invariant
                start <= i <= len,
                len == s.len(),
                s == self.bytes@,
                zero_index(s, start as int) == zero_index(s, i as int),
                buffer@ == s.subrange(start as int, i as int),
            decreases len - i,
        {
            buffer.push(self.bytes[i]);
            i = i + 1;
            assert(buffer@ =~= s.subrange(start as int, i as int));
        }
        if i == len {
            self.pos = len;
            return Err(TextError::Unterminated(buffer));
        }
        self.pos = i + 1;
        match string_from_utf8(buffer) {
            Ok(text) => Ok(text),
            Err((back, source)) => Err(TextError::InvalidUtf8(back, source)),
        }
    }

    /// Reads one byte as a boolean: `Ok(false)` for 0, `Ok(true)` for 1, and
    /// `Err(b)` for any other byte `b`, which is consumed all the same.
    pub fn read_bool(&mut self) -> (r: Result<Result<bool, u8>, std::io::Error>)
        ensures
            final(self).data() == old(self).data(),
            r is Ok <==> old(self).has(1),
            r is Ok ==> final(self).position() == old(self).position() + 1 && r->Ok_0 == bool_of(
                old(self).data()[old(self).position() as int],
            ),
            r is Err ==> final(self).position() == old(self).position(),
    {
        let b = self.read_u8()?;
        if b == 0 {
            Ok(Ok(false))
        } else if b == 1 {
            Ok(Ok(true))
        } else {
            Ok(Err(b))
        }
    }
}

} // verus!
