//! Decoding of memory, table and reference types from the WebAssembly binary format.
use vstd::prelude::*;
use crate::memory::MemoryType;
use crate::reference::RefType;
use crate::table::TableType;

verus! {

/// An error that can occur while decoding.
#[derive(Clone, Copy, Debug, PartialEq, Eq, Hash, Structural)]
pub enum DecodeError {
    /// The input ended in the middle of a value.
    UnexpectedEnd,
    /// An unsigned 32-bit integer was encoded in more than five bytes.
    IntegerTooLong,
    /// An unsigned 32-bit integer encoded a value of more than 32 bits.
    IntegerTooLarge,
    /// The flag of a memory type was neither 0 nor 1.
    InvalidMemoryType,
    /// The flag of a table type was neither 0 nor 1.
    InvalidTableType,
    /// The byte of a reference type was neither 0x70 nor 0x6F.
    MalformedRefType,
}

impl DecodeError {
    /// Returns the message that describes this error.
    pub fn message(&self) -> (r: &'static str)
        ensures
            r@ == (match self {
                DecodeError::UnexpectedEnd => "unexpected end"@,
                DecodeError::IntegerTooLong => "integer representation too long"@,
                DecodeError::IntegerTooLarge => "integer too large"@,
                DecodeError::InvalidMemoryType => "invalid memory type"@,
                DecodeError::InvalidTableType => "invalid table type"@,
                DecodeError::MalformedRefType => "malformed reference type"@,
            }),
    {
        match self {
            DecodeError::UnexpectedEnd => "unexpected end",
            DecodeError::IntegerTooLong => "integer representation too long",
            DecodeError::IntegerTooLarge => "integer too large",
            DecodeError::InvalidMemoryType => "invalid memory type",
            DecodeError::InvalidTableType => "invalid table type",
            DecodeError::MalformedRefType => "malformed reference type",
        }
    }
}

/// The weight of the `i`-th byte of an LEB128 encoding: 128 to the power `i`.
pub open spec fn leb_weight(i: nat) -> nat
    decreases i,
{
    if i == 0 {
        1
    } else {
        128 * leb_weight((i - 1) as nat)
    }
}

/// Decoding the rest of an unsigned 32-bit LEB128 integer from `s`, of which the first
/// `i` bytes, whose 7-bit groups sum to `acc`, have been read and all had their
/// continuation bit set. The result is the value and the number of bytes the whole
/// encoding takes.
pub open spec fn spec_leb128_u32_from(s: Seq<u8>, i: nat, acc: nat) -> Result<(u32, nat), DecodeError>
    decreases 4 - i,
{
    if i >= s.len() {
        Err(DecodeError::UnexpectedEnd)
    } else if i >= 4 {
        let b = s[i as int];
        if b >= 0x80 {
            Err(DecodeError::IntegerTooLong)
        } else if b >= 0x10 {
            Err(DecodeError::IntegerTooLarge)
        } else {
            Ok(((acc + (b as nat) * leb_weight(i)) as u32, i + 1))
        }
    } else {
        let b = s[i as int];
        let acc2: nat = acc + ((b % 128) as nat) * leb_weight(i);
        if b < 0x80 {
            Ok((acc2 as u32, i + 1))
        } else {
            spec_leb128_u32_from(s, i + 1, acc2)
        }
    }
}

/// Decoding an unsigned 32-bit LEB128 integer from the start of `s`: each byte gives
/// seven bits, least significant first, and has its high bit set when another byte
/// follows; at most five bytes, and the fifth holds at most four bits.
pub open spec fn spec_leb128_u32(s: Seq<u8>) -> Result<(u32, nat), DecodeError> {
    spec_leb128_u32_from(s, 0, 0)
}

proof fn lemma_leb128_u32_from_prefix(s: Seq<u8>, t: Seq<u8>, i: nat, acc: nat)
    requires
        spec_leb128_u32_from(s, i, acc) is Ok,
    ensures
        spec_leb128_u32_from(s + t, i, acc) == spec_leb128_u32_from(s, i, acc),
        i < spec_leb128_u32_from(s, i, acc)->Ok_0.1 <= s.len(),
        spec_leb128_u32_from(s, i, acc)->Ok_0.1 <= if i <= 4 { 5 } else { i + 1 },
    decreases 4 - i,
{
    assert((s + t)[i as int] == s[i as int]);
    if i < 4 && s[i as int] >= 0x80 {
        lemma_leb128_u32_from_prefix(s, t, i + 1, acc + ((s[i as int] % 128) as nat) * leb_weight(i));
    }
}

/// Decoding an LEB128 integer reads only the bytes of its encoding, at least one and
/// at most five: whatever follows them does not change the result.
pub proof fn law_leb128_u32_prefix(s: Seq<u8>, t: Seq<u8>)
    requires
        spec_leb128_u32(s) is Ok,
    ensures
        spec_leb128_u32(s + t) == spec_leb128_u32(s),
        1 <= spec_leb128_u32(s)->Ok_0.1 <= 5,
        spec_leb128_u32(s)->Ok_0.1 <= s.len(),
{
    lemma_leb128_u32_from_prefix(s, t, 0, 0);
}

/// The unsigned LEB128 encoding of `v`, in the fewest bytes: seven bits per byte, least
/// significant first, the high bit set on every byte but the last.
pub open spec fn leb128_encode(v: nat) -> Seq<u8>
    decreases v,
{
    if v < 128 {
        seq![v as u8]
    } else {
        seq![(v % 128 + 128) as u8] + leb128_encode(v / 128)
    }
}

proof fn lemma_weight_values()
    ensures
        leb_weight(0) == 1,
        leb_weight(1) == 128,
        leb_weight(2) == 0x4000,
        leb_weight(3) == 0x20_0000,
        leb_weight(4) == 0x1000_0000,
{
    reveal_with_fuel(leb_weight, 5);
}

/// Decoding, from index `i` on, a sequence that holds the encoding of `v` there gives
/// `acc + v * 128^i` and stops right after the encoding, provided that value fits in 32 bits.
proof fn lemma_leb128_decode_encoding(s: Seq<u8>, i: nat, acc: nat, v: nat)
    requires
        i <= 4,
        acc < leb_weight(i),
        acc + v * leb_weight(i) < 0x1_0000_0000,
        i + leb128_encode(v).len() <= s.len(),
        s.subrange(i as int, (i + leb128_encode(v).len()) as int) == leb128_encode(v),
    ensures
        spec_leb128_u32_from(s, i, acc) == Ok::<(u32, nat), DecodeError>(
            ((acc + v * leb_weight(i)) as u32, i + leb128_encode(v).len()),
        ),
        i + leb128_encode(v).len() <= 5,
    decreases v,
{
    lemma_weight_values();
    let w = leb_weight(i);
    let e = leb128_encode(v);
    assert(s[i as int] == e[0]) by {
        assert(s.subrange(i as int, (i + e.len()) as int)[0] == s[i as int]);
    }
    if v < 128 {
        assert(e[0] == v as u8);
        if i >= 4 {
            assert(w == 0x1000_0000);
            assert(v < 16) by (nonlinear_arith)
                requires
                    v * w < 0x1_0000_0000,
                    w == 0x1000_0000,
            ;
        } else {
            assert((s[i as int] % 128) as nat == v);
        }
    } else {
        let q = v / 128;
        let r = v % 128;
        assert(v == 128 * q + r);
        assert(e == seq![(r + 128) as u8] + leb128_encode(q));
        assert(i < 4) by {
            if i >= 4 {
                assert(w == 0x1000_0000);
                assert(v * w >= 0x1_0000_0000) by (nonlinear_arith)
                    requires
                        v >= 128,
                        w == 0x1000_0000,
                ;
            }
        }
        assert(s[i as int] == (r + 128) as u8);
        assert((s[i as int] % 128) as nat == r);
        let acc2: nat = acc + r * w;
        assert(leb_weight(i + 1) == 128 * w);
        assert(acc2 < leb_weight(i + 1)) by (nonlinear_arith)
            requires
                acc < w,
                r < 128,
                acc2 == acc + r * w,
                leb_weight(i + 1) == 128 * w,
        ;
        assert(acc2 + q * leb_weight(i + 1) == acc + v * w) by (nonlinear_arith)
            requires
                acc2 == acc + r * w,
                leb_weight(i + 1) == 128 * w,
                v == 128 * q + r,
        ;
        assert(s.subrange((i + 1) as int, (i + 1 + leb128_encode(q).len()) as int) =~= leb128_encode(q)) by {
            assert forall|k: int| 0 <= k < leb128_encode(q).len() implies s.subrange(
                (i + 1) as int,
                (i + 1 + leb128_encode(q).len()) as int,
            )[k] == leb128_encode(q)[k] by {
                assert(s.subrange(i as int, (i + e.len()) as int)[k + 1] == e[k + 1]);
            }
        }
        lemma_leb128_decode_encoding(s, i + 1, acc2, q);
    }
}

/// Decoding the LEB128 encoding of any 32-bit value, whatever follows it, gives that value
/// back and reads exactly the encoding, which is one to five bytes long.
pub proof fn law_leb128_u32_roundtrip(v: u32, t: Seq<u8>)
    ensures
        spec_leb128_u32(leb128_encode(v as nat) + t) == Ok::<(u32, nat), DecodeError>(
            (v, leb128_encode(v as nat).len()),
        ),
        1 <= leb128_encode(v as nat).len() <= 5,
{
    lemma_weight_values();
    let e = leb128_encode(v as nat);
    let s = e + t;
    assert(s.subrange(0, e.len() as int) =~= e);
    lemma_leb128_decode_encoding(s, 0, 0, v as nat);
    assert(0 + v * leb_weight(0) == v);
}

/// Decoding a memory type reads a flag byte, then the minimum as an LEB128 integer, then,
/// when the flag is 1, the maximum as another: for any minimum and maximum, the flag and
/// their encodings decode back to them, whatever follows.
pub proof fn law_memory_type_decode(minimum: u32, maximum: Option<u32>, t: Seq<u8>)
    ensures
        ({
            let e_min = leb128_encode(minimum as nat);
            match maximum {
                None => spec_memory_type(seq![0u8] + e_min + t) == Ok::<
                    (u32, Option<u32>, nat),
                    DecodeError,
                >((minimum, None, 1 + e_min.len())),
                Some(m) => spec_memory_type(seq![1u8] + e_min + leb128_encode(m as nat) + t)
                    == Ok::<(u32, Option<u32>, nat), DecodeError>(
                    (minimum, Some(m), 1 + e_min.len() + leb128_encode(m as nat).len()),
                ),
            }
        }),
{
    lemma_limits_decode(minimum, maximum, t, DecodeError::InvalidMemoryType);
}

proof fn lemma_limits_decode(minimum: u32, maximum: Option<u32>, t: Seq<u8>, flag_error: DecodeError)
    ensures
        ({
            let e_min = leb128_encode(minimum as nat);
            match maximum {
                None => spec_limits(seq![0u8] + e_min + t, flag_error) == Ok::<
                    (u32, Option<u32>, nat),
                    DecodeError,
                >((minimum, None, 1 + e_min.len())),
                Some(m) => spec_limits(seq![1u8] + e_min + leb128_encode(m as nat) + t, flag_error)
                    == Ok::<(u32, Option<u32>, nat), DecodeError>(
                    (minimum, Some(m), 1 + e_min.len() + leb128_encode(m as nat).len()),
                ),
            }
        }),
{
    let e_min = leb128_encode(minimum as nat);
    match maximum {
        None => {
            let s = seq![0u8] + e_min + t;
            assert(s.skip(1) =~= e_min + t);
            law_leb128_u32_roundtrip(minimum, t);
        },
        Some(m) => {
            let e_max = leb128_encode(m as nat);
            let s = seq![1u8] + e_min + e_max + t;
            assert(s.skip(1) =~= e_min + (e_max + t));
            law_leb128_u32_roundtrip(minimum, e_max + t);
            assert(s.skip((1 + e_min.len()) as int) =~= e_max + t);
            law_leb128_u32_roundtrip(m, t);
        },
    }
}

/// Decoding a table type reads its reference type byte (0x70 for functions, 0x6F for
/// host objects), then its limits as a memory type does: for any table type, that byte,
/// the flag and the encodings of its minimum and maximum decode back to it, whatever
/// follows.
pub proof fn law_table_type_decode(ty: TableType, t: Seq<u8>)
    ensures
        ({
            let b: u8 = match ty.element {
                RefType::FuncRef => 0x70u8,
                RefType::ExternRef => 0x6Fu8,
            };
            let e_min = leb128_encode(ty.minimum as nat);
            match ty.maximum {
                None => spec_table_type(seq![b, 0u8] + e_min + t) == Ok::<(TableType, nat), DecodeError>(
                    (ty, 2 + e_min.len()),
                ),
                Some(m) => spec_table_type(seq![b, 1u8] + e_min + leb128_encode(m as nat) + t)
                    == Ok::<(TableType, nat), DecodeError>(
                    (ty, 2 + e_min.len() + leb128_encode(m as nat).len()),
                ),
            }
        }),
{
    let b: u8 = match ty.element {
        RefType::FuncRef => 0x70u8,
        RefType::ExternRef => 0x6Fu8,
    };
    let e_min = leb128_encode(ty.minimum as nat);
    lemma_limits_decode(ty.minimum, ty.maximum, t, DecodeError::InvalidTableType);
    match ty.maximum {
        None => {
            let s = seq![b, 0u8] + e_min + t;
            assert(s.skip(1) =~= seq![0u8] + e_min + t);
        },
        Some(m) => {
            let s = seq![b, 1u8] + e_min + leb128_encode(m as nat) + t;
            assert(s.skip(1) =~= seq![1u8] + e_min + leb128_encode(m as nat) + t);
        },
    }
}

/// A memory or table type whose flag byte is neither 0 nor 1 is refused with the error of
/// its kind, and a table type whose first byte is neither 0x70 nor 0x6F is refused as a
/// malformed reference type.
pub proof fn law_type_decode_errors(flag: u8, b: u8, t: Seq<u8>)
    ensures
        flag > 1 ==> spec_memory_type(seq![flag] + t) == Err::<(u32, Option<u32>, nat), DecodeError>(
            DecodeError::InvalidMemoryType,
        ),
        flag > 1 && (b == 0x70 || b == 0x6F) ==> spec_table_type(seq![b, flag] + t) == Err::<
            (TableType, nat),
            DecodeError,
        >(DecodeError::InvalidTableType),
        b != 0x70 && b != 0x6F ==> spec_table_type(seq![b] + t) == Err::<(TableType, nat), DecodeError>(
            DecodeError::MalformedRefType,
        ),
        spec_memory_type(Seq::<u8>::empty()) == Err::<(u32, Option<u32>, nat), DecodeError>(
            DecodeError::UnexpectedEnd,
        ),
{
    assert((seq![b, flag] + t).skip(1) =~= seq![flag] + t);
}

/// Decoding one byte from the start of `s`.
pub open spec fn spec_byte(s: Seq<u8>) -> Result<(u8, nat), DecodeError> {
    if s.len() == 0 {
        Err(DecodeError::UnexpectedEnd)
    } else {
        Ok((s[0], 1))
    }
}

/// Decoding a reference type from the start of `s`.
pub open spec fn spec_ref_type(s: Seq<u8>) -> Result<(RefType, nat), DecodeError> {
    match spec_byte(s) {
        Err(e) => Err(e),
        Ok((b, n)) => if b == 0x70 {
            Ok((RefType::FuncRef, n))
        } else if b == 0x6F {
            Ok((RefType::ExternRef, n))
        } else {
            Err(DecodeError::MalformedRefType)
        },
    }
}

/// Decoding limits from the start of `s`: a flag byte that is 0 (no maximum) or 1
/// (a maximum follows), the minimum, then the maximum if the flag says so. `flag_error`
/// is the error for any other flag. The result is the minimum, the maximum and the
/// number of bytes read.
pub open spec fn spec_limits(s: Seq<u8>, flag_error: DecodeError) -> Result<(u32, Option<u32>, nat), DecodeError> {
    match spec_byte(s) {
        Err(e) => Err(e),
        Ok((flag, n1)) => if flag > 1 {
            Err(flag_error)
        } else {
            match spec_leb128_u32(s.skip(n1 as int)) {
                Err(e) => Err(e),
                Ok((minimum, n2)) => if flag == 0 {
                    Ok((minimum, None, n1 + n2))
                } else {
                    match spec_leb128_u32(s.skip((n1 + n2) as int)) {
                        Err(e) => Err(e),
                        Ok((maximum, n3)) => Ok((minimum, Some(maximum), n1 + n2 + n3)),
                    }
                },
            }
        },
    }
}

/// Decoding a memory type from the start of `s`: its limits.
pub open spec fn spec_memory_type(s: Seq<u8>) -> Result<(u32, Option<u32>, nat), DecodeError> {
    spec_limits(s, DecodeError::InvalidMemoryType)
}

/// Decoding a table type from the start of `s`: its reference type, then its limits.
pub open spec fn spec_table_type(s: Seq<u8>) -> Result<(TableType, nat), DecodeError> {
    match spec_ref_type(s) {
        Err(e) => Err(e),
        Ok((element, n1)) => match spec_limits(s.skip(n1 as int), DecodeError::InvalidTableType) {
            Err(e) => Err(e),
            Ok((minimum, maximum, n2)) => Ok((TableType { element, minimum, maximum }, n1 + n2)),
        },
    }
}

/// A cursor over bytes in the WebAssembly binary format.
#[derive(Clone, Copy, Debug)]
pub struct Decoder<'a> {
    bytes: &'a [u8],
    position: usize,
}

impl<'a> Decoder<'a> {
    /// All the bytes the decoder reads from.
    pub closed spec fn spec_bytes(&self) -> Seq<u8> {
        self.bytes@
    }

    /// The number of bytes already read.
    pub closed spec fn spec_position(&self) -> int {
        self.position as int
    }

    /// The position is within the bytes.
    pub open spec fn wf(&self) -> bool {
        0 <= self.spec_position() <= self.spec_bytes().len()
    }

    /// The bytes not read yet.
    pub open spec fn remaining(&self) -> Seq<u8> {
        self.spec_bytes().skip(self.spec_position())
    }

    /// Whether `d` is this decoder moved forward by `n` bytes.
    pub open spec fn advanced_by(&self, d: &Decoder<'a>, n: nat) -> bool {
        &&& d.spec_bytes() == self.spec_bytes()
        &&& d.spec_position() == self.spec_position() + n
    }

    /// Creates a decoder at the start of `bytes`.
    pub fn new(bytes: &'a [u8]) -> (r: Self)
        ensures
            r.wf(),
            r.spec_bytes() == bytes@,
            r.spec_position() == 0,
    {
        Decoder { bytes, position: 0 }
    }

    /// Returns the number of bytes already read.
    pub fn position(&self) -> (r: usize)
        ensures
            r == self.spec_position(),
    {
        self.position
    }

    /// Returns whether every byte has been read.
    pub fn is_at_end(&self) -> (r: bool)
        requires
            self.wf(),
        ensures
            r == (self.remaining().len() == 0),
    {
        self.position == self.bytes.len()
    }

    /// Reads one byte. On error the decoder is unchanged.
    pub fn read_byte(&mut self) -> (r: Result<u8, DecodeError>)
        requires
            old(self).wf(),
        ensures
            final(self).wf(),
            match spec_byte(old(self).remaining()) {
                Ok((b, n)) => r == Ok::<u8, DecodeError>(b) && old(self).advanced_by(final(self), n),
                Err(e) => r == Err::<u8, DecodeError>(e) && *final(self) == *old(self),
            },
    {
        if self.position >= self.bytes.len() {
            return Err(DecodeError::UnexpectedEnd);
        }
        let b = self.bytes[self.position];
        self.position = self.position + 1;
        Ok(b)
    }

    /// Reads an unsigned 32-bit LEB128 integer. On error the decoder is unchanged.
    pub fn read_u32(&mut self) -> (r: Result<u32, DecodeError>)
        requires
            old(self).wf(),
        ensures
            final(self).wf(),
            match spec_leb128_u32(old(self).remaining()) {
                Ok((v, n)) => r == Ok::<u32, DecodeError>(v) && old(self).advanced_by(final(self), n),
                Err(e) => r == Err::<u32, DecodeError>(e) && *final(self) == *old(self),
            },
    {
        let ghost rem = self.remaining();
        let len = self.bytes.len();
        let start = self.position;
        let mut pos = self.position;
        let mut result: u64 = 0;
        let mut mult: u64 = 1;
        let mut i: usize = 0;
        proof {
            reveal_with_fuel(leb_weight, 5);
        }
        loop
            invariant
                i <= 4,
                len == self.bytes@.len(),
                start == self.position,
                self.wf(),
                *self == *old(self),
                rem == self.remaining(),
                pos == start + i,
                mult == leb_weight(i as nat),
                result < leb_weight(i as nat),
                leb_weight(4) == 0x1000_0000,
                leb_weight(3) == 0x20_0000,
                spec_leb128_u32(rem) == spec_leb128_u32_from(rem, i as nat, result as nat),
            decreases 4 - i,
        {
            if pos >= len {
                return Err(DecodeError::UnexpectedEnd);
            }
            let b = self.bytes[pos];
            assert(b == rem[i as int]);
            pos = pos + 1;
            if i == 4 {
                if b >= 0x80 {
                    return Err(DecodeError::IntegerTooLong);
                }
                if b >= 0x10 {
                    return Err(DecodeError::IntegerTooLarge);
                }
                assert((b as u64) * mult <= 0xF000_0000) by (nonlinear_arith)
                    requires b < 0x10, mult == 0x1000_0000;
                self.position = pos;
                return Ok((result + (b as u64) * mult) as u32);
            }
            proof {
                assert(leb_weight((i + 1) as nat) == 128 * leb_weight(i as nat));
                assert(leb_weight(i as nat) <= 0x20_0000) by {
                    if i == 0 {} else if i == 1 {} else if i == 2 {} else {}
                }
                assert(result + (b % 128) as u64 * mult < leb_weight((i + 1) as nat)) by (nonlinear_arith)
                    requires
                        result < mult,
                        b % 128 < 128,
                        leb_weight((i + 1) as nat) == 128 * mult,
                ;
            }
            result = result + ((b % 128) as u64) * mult;
            if b < 0x80 {
                self.position = pos;
                return Ok(result as u32);
            }
            mult = mult * 128;
            i = i + 1;
        }
    }
}

/// Reads limits: a flag byte that is 0 or 1, the minimum, then the maximum if the flag
/// is 1. On error the decoder is unchanged.
fn read_limits(decoder: &mut Decoder, flag_error: DecodeError) -> (r: Result<(u32, Option<u32>), DecodeError>)
    requires
        old(decoder).wf(),
    ensures
        final(decoder).wf(),
        match spec_limits(old(decoder).remaining(), flag_error) {
            Ok((minimum, maximum, n)) => r == Ok::<(u32, Option<u32>), DecodeError>((minimum, maximum))
                && old(decoder).advanced_by(final(decoder), n),
            Err(e) => r == Err::<(u32, Option<u32>), DecodeError>(e) && *final(decoder) == *old(decoder),
        },
{
    let ghost s = decoder.remaining();
    let mut d = *decoder;
    let has_maximum = match d.read_byte() {
        Ok(0x00) => false,
        Ok(0x01) => true,
        Ok(_) => return Err(flag_error),
        Err(e) => return Err(e),
    };
    let ghost s1 = d.remaining();
    proof {
        assert(s1 =~= s.skip(1));
    }
    let minimum = match d.read_u32() {
        Ok(v) => v,
        Err(e) => return Err(e),
    };
    let maximum = if has_maximum {
        let ghost n2 = d.spec_position() - decoder.spec_position();
        proof {
            assert(d.remaining() =~= s.skip(n2));
        }
        match d.read_u32() {
            Ok(v) => Some(v),
            Err(e) => return Err(e),
        }
    } else {
        None
    };
    *decoder = d;
    Ok((minimum, maximum))
}

impl RefType {
    /// Decodes a reference type: the byte 0x70 for a function reference, 0x6F for an
    /// external reference. On error the decoder is unchanged.
    pub fn decode(decoder: &mut Decoder) -> (r: Result<Self, DecodeError>)
        requires
            old(decoder).wf(),
        ensures
            final(decoder).wf(),
            match spec_ref_type(old(decoder).remaining()) {
                Ok((ty, n)) => r == Ok::<RefType, DecodeError>(ty) && old(decoder).advanced_by(final(decoder), n),
                Err(e) => r == Err::<RefType, DecodeError>(e) && *final(decoder) == *old(decoder),
            },
    {
        let mut d = *decoder;
        let ty = match d.read_byte() {
            Ok(0x70) => RefType::FuncRef,
            Ok(0x6F) => RefType::ExternRef,
            Ok(_) => return Err(DecodeError::MalformedRefType),
            Err(e) => return Err(e),
        };
        *decoder = d;
        Ok(ty)
    }
}

impl MemoryType {
    /// Decodes a memory type: a flag byte that is 0 (no maximum) or 1 (a maximum
    /// follows), the minimum, then the maximum if any, each an unsigned 32-bit LEB128
    /// integer. On error the decoder is unchanged.
    pub fn decode(decoder: &mut Decoder) -> (r: Result<Self, DecodeError>)
        requires
            old(decoder).wf(),
        ensures
            final(decoder).wf(),
            match spec_memory_type(old(decoder).remaining()) {
                Ok((minimum, maximum, n)) => {
                    &&& r matches Ok(ty)
                    &&& ty.spec_minimum() == minimum
                    &&& ty.spec_maximum() == maximum
                    &&& old(decoder).advanced_by(final(decoder), n)
                },
                Err(e) => r == Err::<MemoryType, DecodeError>(e) && *final(decoder) == *old(decoder),
            },
    {
        match read_limits(decoder, DecodeError::InvalidMemoryType) {
            Ok((minimum, maximum)) => Ok(MemoryType::new(minimum, maximum)),
            Err(e) => Err(e),
        }
    }
}

impl TableType {
    /// Decodes a table type: its reference type, then its limits as for a memory type.
    /// On error the decoder is unchanged.
    pub fn decode(decoder: &mut Decoder) -> (r: Result<Self, DecodeError>)
        requires
            old(decoder).wf(),
        ensures
            final(decoder).wf(),
            match spec_table_type(old(decoder).remaining()) {
                Ok((ty, n)) => r == Ok::<TableType, DecodeError>(ty) && old(decoder).advanced_by(final(decoder), n),
                Err(e) => r == Err::<TableType, DecodeError>(e) && *final(decoder) == *old(decoder),
            },
    {
        let ghost s = decoder.remaining();
        let mut d = *decoder;
        let element = match RefType::decode(&mut d) {
            Ok(element) => element,
            Err(e) => return Err(e),
        };
        proof {
            assert(d.remaining() =~= s.skip(1));
        }
        let (minimum, maximum) = match read_limits(&mut d, DecodeError::InvalidTableType) {
            Ok(limits) => limits,
            Err(e) => return Err(e),
        };
        *decoder = d;
        Ok(TableType { element, minimum, maximum })
    }
}

} // verus!
