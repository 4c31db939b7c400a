use vstd::prelude::*;

verus! {

/// A constant operand. Integer variants remember the type they were written as;
/// `Unsized` holds raw bytes (a string or a long hex literal), as `B`.
#[derive(Clone, Debug)]
pub enum ImmediateOf<B> {
    Imm8(i8),
    Imm16(i16),
    Imm32(i32),
    Imm64(i64),
    ImmU8(u8),
    ImmU16(u16),
    ImmU32(u32),
    ImmU64(u64),
    Unsized(B),
}

/// A constant operand holding its raw bytes in a `Vec`.
pub type Immediate = ImmediateOf<Vec<u8>>;

/// A constant operand as specifications see it.
pub type ImmediateModel = ImmediateOf<Seq<u8>>;

/// The `n` least significant bytes of `u`, least significant first.
pub open spec fn le_bytes(u: nat, n: nat) -> Seq<u8>
    decreases n,
{
    if n == 0 {
        Seq::empty()
    } else {
        seq![(u % 256) as u8] + le_bytes(u / 256, (n - 1) as nat)
    }
}

/// The number that a little-endian byte sequence denotes.
pub open spec fn le_value(b: Seq<u8>) -> nat
    decreases b.len(),
{
    if b.len() == 0 {
        0
    } else {
        (b[0] as nat + 256 * le_value(b.drop_first())) as nat
    }
}

/// Powers of 256.
pub open spec fn pow256(n: nat) -> nat
    decreases n,
{
    if n == 0 {
        1
    } else {
        256 * pow256((n - 1) as nat)
    }
}

/// `n` little-endian bytes are `n` bytes long.
pub proof fn lemma_le_bytes_len(u: nat, n: nat)
    ensures
        le_bytes(u, n).len() == n,
    decreases n,
{
    if n > 0 {
        lemma_le_bytes_len(u / 256, (n - 1) as nat);
    }
}

/// Reading back `n` little-endian bytes gives the number, when it fits in `n` bytes.
pub proof fn lemma_le_bytes_roundtrip(u: nat, n: nat)
    requires
        u < pow256(n),
    ensures
        le_bytes(u, n).len() == n,
        le_value(le_bytes(u, n)) == u,
    decreases n,
{
    if n > 0 {
        assert(u / 256 < pow256((n - 1) as nat)) by (nonlinear_arith)
            requires
                u < 256 * pow256((n - 1) as nat),
        ;
        lemma_le_bytes_roundtrip(u / 256, (n - 1) as nat);
        let b = le_bytes(u, n);
        assert(b.drop_first() =~= le_bytes(u / 256, (n - 1) as nat));
        assert(u == u % 256 + 256 * (u / 256)) by (nonlinear_arith);
    }
}

/// The `n` least significant bytes of `x`, least significant first.
pub fn le_bytes_of(x: u64, n: usize) -> (r: Vec<u8>)
    requires
        n <= 8,
    ensures
        r@ == le_bytes(x as nat, n as nat),
{
    let mut out: Vec<u8> = Vec::new();
    let mut cur = x;
    let mut i: usize = 0;
    while i < n
        invariant
            i <= n,
            le_bytes(x as nat, n as nat) == out@ + le_bytes(cur as nat, (n - i) as nat),
        decreases n - i,
    {
        let ghost old_out = out@;
        assert(cur & 0xff == cur % 256 && cur >> 8 == cur / 256) by (bit_vector);
        let byte = (cur & 0xff) as u8;
        out.push(byte);
        assert(le_bytes(cur as nat, (n - i) as nat) == seq![byte] + le_bytes(
            (cur / 256) as nat,
            (n - i - 1) as nat,
        ));
        cur = cur >> 8;
        i += 1;
        assert(old_out + (seq![byte] + le_bytes(cur as nat, (n - i) as nat)) =~= out@ + le_bytes(
            cur as nat,
            (n - i) as nat,
        ));
    }
    assert(out@ + le_bytes(cur as nat, 0) =~= out@);
    out
}


/// Little-endian byte sequences stay below the next power of 256.
pub proof fn lemma_le_value_bound(b: Seq<u8>)
    ensures
        le_value(b) < pow256(b.len()),
    decreases b.len(),
{
    if b.len() > 0 {
        lemma_le_value_bound(b.drop_first());
        assert(b[0] as nat + 256 * le_value(b.drop_first()) < 256 * pow256(
            (b.len() - 1) as nat,
        )) by (nonlinear_arith)
            requires
                b[0] < 256,
                le_value(b.drop_first()) < pow256((b.len() - 1) as nat),
        ;
    }
}

/// The number that up to eight little-endian bytes denote.
pub fn le_value_of(b: &[u8]) -> (r: u64)
    requires
        b.len() <= 8,
    ensures
        r == le_value(b@),
{
    proof {
        reveal_with_fuel(pow256, 9);
        lemma_le_value_bound(b@);
    }
    let mut acc: u64 = 0;
    let mut k: usize = b.len();
    assert(b@.subrange(k as int, b.len() as int) =~= Seq::<u8>::empty());
    while k > 0
        invariant
            k <= b.len() <= 8,
            acc == le_value(b@.subrange(k as int, b.len() as int)),
            pow256(8) == 0x1_0000_0000_0000_0000,
        decreases k,
    {
        let ghost tail = b@.subrange(k - 1, b.len() as int);
        assert(tail.drop_first() =~= b@.subrange(k as int, b.len() as int));
        proof {
            lemma_le_value_bound(tail);
            lemma_pow256_mono(tail.len(), 8);
            assert(le_value(tail) == tail[0] as nat + 256 * acc);
            assert(tail[0] == b[k - 1]);
        }
        acc = b[k - 1] as u64 + 256 * acc;
        k -= 1;
    }
    assert(b@.subrange(0, b.len() as int) =~= b@);
    acc
}

/// Powers of 256 grow with the exponent.
pub proof fn lemma_pow256_mono(m: nat, n: nat)
    requires
        m <= n,
    ensures
        pow256(m) <= pow256(n),
    decreases n,
{
    if m < n {
        lemma_pow256_mono(m, (n - 1) as nat);
    }
}

impl<B> ImmediateOf<B> {
    /// The integer that the immediate denotes, or `None` for raw bytes.
    pub open spec fn spec_int(self) -> Option<int> {
        match self {
            ImmediateOf::Imm8(v) => Some(v as int),
            ImmediateOf::Imm16(v) => Some(v as int),
            ImmediateOf::Imm32(v) => Some(v as int),
            ImmediateOf::Imm64(v) => Some(v as int),
            ImmediateOf::ImmU8(v) => Some(v as int),
            ImmediateOf::ImmU16(v) => Some(v as int),
            ImmediateOf::ImmU32(v) => Some(v as int),
            ImmediateOf::ImmU64(v) => Some(v as int),
            ImmediateOf::Unsized(_) => None,
        }
    }

    /// The integer as an `i8`, when it is one.
    pub open spec fn spec_cast_i8(self) -> Option<i8> {
        if self.in_range(i8::MIN as int, i8::MAX as int) {
            Some(self.spec_int().unwrap() as i8)
        } else {
            None
        }
    }

    /// The integer as an `i16`, when it is one.
    pub open spec fn spec_cast_i16(self) -> Option<i16> {
        if self.in_range(i16::MIN as int, i16::MAX as int) {
            Some(self.spec_int().unwrap() as i16)
        } else {
            None
        }
    }

    /// The integer as an `i32`, when it is one.
    pub open spec fn spec_cast_i32(self) -> Option<i32> {
        if self.in_range(i32::MIN as int, i32::MAX as int) {
            Some(self.spec_int().unwrap() as i32)
        } else {
            None
        }
    }

    /// The integer as an `i64`, when it is one.
    pub open spec fn spec_cast_i64(self) -> Option<i64> {
        if self.in_range(i64::MIN as int, i64::MAX as int) {
            Some(self.spec_int().unwrap() as i64)
        } else {
            None
        }
    }

    /// The integer as a `u8`, when it is one or when it was written as an `i8`.
    pub open spec fn spec_cast_u8(self) -> Option<u8> {
        if self.in_range(0, u8::MAX as int) || self is Imm8 {
            Some(self.spec_int().unwrap() as u8)
        } else {
            None
        }
    }

    /// The integer as a `u16`, when it is one or when it was written as an `i16`.
    pub open spec fn spec_cast_u16(self) -> Option<u16> {
        if self.in_range(0, u16::MAX as int) || self is Imm16 {
            Some(self.spec_int().unwrap() as u16)
        } else {
            None
        }
    }

    /// The integer as a `u32`, when it is one or when it was written as an `i32`.
    pub open spec fn spec_cast_u32(self) -> Option<u32> {
        if self.in_range(0, u32::MAX as int) || self is Imm32 {
            Some(self.spec_int().unwrap() as u32)
        } else {
            None
        }
    }

    /// The integer as a `u64`, when it is one.
    pub open spec fn spec_cast_u64(self) -> Option<u64> {
        if self.in_range(0, u64::MAX as int) {
            Some(self.spec_int().unwrap() as u64)
        } else {
            None
        }
    }

    /// The integer as a `u8` when it is one; negative values are refused.
    pub open spec fn spec_strict_cast_u8(self) -> Option<u8> {
        if self.in_range(0, u8::MAX as int) {
            Some(self.spec_int().unwrap() as u8)
        } else {
            None
        }
    }

    /// Whether the immediate is an integer in `lo..=hi`.
    pub open spec fn in_range(self, lo: int, hi: int) -> bool {
        match self.spec_int() {
            Some(v) => lo <= v <= hi,
            None => false,
        }
    }

}

impl ImmediateOf<Seq<u8>> {
    /// The bytes that the immediate stands for: integers in little-endian order at the
    /// width they were written with (negative values in two's complement).
    pub open spec fn spec_bytes(self) -> Seq<u8> {
        match self {
            ImmediateOf::Imm8(v) => le_bytes((v as u8) as nat, 1),
            ImmediateOf::Imm16(v) => le_bytes((v as u16) as nat, 2),
            ImmediateOf::Imm32(v) => le_bytes((v as u32) as nat, 4),
            ImmediateOf::Imm64(v) => le_bytes((v as u64) as nat, 8),
            ImmediateOf::ImmU8(v) => le_bytes(v as nat, 1),
            ImmediateOf::ImmU16(v) => le_bytes(v as nat, 2),
            ImmediateOf::ImmU32(v) => le_bytes(v as nat, 4),
            ImmediateOf::ImmU64(v) => le_bytes(v as nat, 8),
            ImmediateOf::Unsized(v) => v,
        }
    }
}

impl ImmediateOf<Vec<u8>> {
    /// The immediate with its raw bytes taken as a sequence.
    pub open spec fn model(self) -> ImmediateModel {
        match self {
            ImmediateOf::Imm8(v) => ImmediateOf::Imm8(v),
            ImmediateOf::Imm16(v) => ImmediateOf::Imm16(v),
            ImmediateOf::Imm32(v) => ImmediateOf::Imm32(v),
            ImmediateOf::Imm64(v) => ImmediateOf::Imm64(v),
            ImmediateOf::ImmU8(v) => ImmediateOf::ImmU8(v),
            ImmediateOf::ImmU16(v) => ImmediateOf::ImmU16(v),
            ImmediateOf::ImmU32(v) => ImmediateOf::ImmU32(v),
            ImmediateOf::ImmU64(v) => ImmediateOf::ImmU64(v),
            ImmediateOf::Unsized(v) => ImmediateOf::Unsized(v@),
        }
    }

    /// The bytes that the immediate stands for.
    pub fn cast_unsized(self) -> (r: Vec<u8>)
        ensures
            r@ == self.model().spec_bytes(),
    {
        match self {
            ImmediateOf::Imm8(val) => le_bytes_of((val as u8) as u64, 1),
            ImmediateOf::Imm16(val) => le_bytes_of((val as u16) as u64, 2),
            ImmediateOf::Imm32(val) => le_bytes_of((val as u32) as u64, 4),
            ImmediateOf::Imm64(val) => le_bytes_of(val as u64, 8),
            ImmediateOf::ImmU8(val) => le_bytes_of(val as u64, 1),
            ImmediateOf::ImmU16(val) => le_bytes_of(val as u64, 2),
            ImmediateOf::ImmU32(val) => le_bytes_of(val as u64, 4),
            ImmediateOf::ImmU64(val) => le_bytes_of(val, 8),
            ImmediateOf::Unsized(val) => val,
        }
    }

    /// The integer, when it lies in `0..=u64::MAX`.
    pub fn cast_u64(&self) -> (r: Result<u64, &'static str>)
        ensures
            r is Ok <==> self.spec_cast_u64() is Some,
            r matches Ok(v) ==> self.spec_cast_u64() == Some(v),
            r is Ok <==> self.in_range(0, u64::MAX as int),
            r matches Ok(v) ==> self.spec_int() == Some(v as int),
    {
        match *self {
            ImmediateOf::Imm8(val) => if val >= 0 {
                Ok(val as u64)
            } else {
                Err("could not cast immediate to u64")
            },
            ImmediateOf::Imm16(val) => if val >= 0 {
                Ok(val as u64)
            } else {
                Err("could not cast immediate to u64")
            },
            ImmediateOf::Imm32(val) => if val >= 0 {
                Ok(val as u64)
            } else {
                Err("could not cast immediate to u64")
            },
            ImmediateOf::Imm64(val) => if val >= 0 {
                Ok(val as u64)
            } else {
                Err("could not cast immediate to u64")
            },
            ImmediateOf::ImmU8(val) => Ok(val as u64),
            ImmediateOf::ImmU16(val) => Ok(val as u64),
            ImmediateOf::ImmU32(val) => Ok(val as u64),
            ImmediateOf::ImmU64(val) => Ok(val),
            ImmediateOf::Unsized(_) => Err("could not cast immediate to u64"),
        }
    }

    /// The integer, when it lies in the range of `i64`.
    pub fn cast_i64(&self) -> (r: Result<i64, &'static str>)
        ensures
            r is Ok <==> self.spec_cast_i64() is Some,
            r matches Ok(v) ==> self.spec_cast_i64() == Some(v),
            r is Ok <==> self.in_range(i64::MIN as int, i64::MAX as int),
            r matches Ok(v) ==> self.spec_int() == Some(v as int),
    {
        match *self {
            ImmediateOf::Imm8(val) => Ok(val as i64),
            ImmediateOf::Imm16(val) => Ok(val as i64),
            ImmediateOf::Imm32(val) => Ok(val as i64),
            ImmediateOf::Imm64(val) => Ok(val),
            ImmediateOf::ImmU8(val) => Ok(val as i64),
            ImmediateOf::ImmU16(val) => Ok(val as i64),
            ImmediateOf::ImmU32(val) => Ok(val as i64),
            ImmediateOf::ImmU64(val) => if val <= i64::MAX as u64 {
                Ok(val as i64)
            } else {
                Err("could not cast immediate to signed i64")
            },
            ImmediateOf::Unsized(_) => Err("could not cast immediate to signed i64"),
        }
    }

    /// The integer as a `u32`: when it lies in `0..=u32::MAX`, or, for an `Imm32`,
    /// its two's complement bits.
    pub fn cast_u32(&self) -> (r: Result<u32, &'static str>)
        ensures
            r is Ok <==> self.spec_cast_u32() is Some,
            r matches Ok(v) ==> self.spec_cast_u32() == Some(v),
            r is Ok <==> self.in_range(0, u32::MAX as int) || self is Imm32,
            r matches Ok(v) ==> (self.spec_int().unwrap() as u32) == v,
            r matches Ok(v) ==> !(self is Imm32) ==> self.spec_int() == Some(v as int),
    {
        match *self {
            ImmediateOf::Imm8(val) => if val >= 0 {
                Ok(val as u32)
            } else {
                Err("could not cast immediate to u32")
            },
            ImmediateOf::Imm16(val) => if val >= 0 {
                Ok(val as u32)
            } else {
                Err("could not cast immediate to u32")
            },
            ImmediateOf::Imm32(val) => Ok(val as u32),
            ImmediateOf::Imm64(val) => if 0 <= val && val <= u32::MAX as i64 {
                Ok(val as u32)
            } else {
                Err("could not cast immediate to u32")
            },
            ImmediateOf::ImmU8(val) => Ok(val as u32),
            ImmediateOf::ImmU16(val) => Ok(val as u32),
            ImmediateOf::ImmU32(val) => Ok(val),
            ImmediateOf::ImmU64(val) => if val <= u32::MAX as u64 {
                Ok(val as u32)
            } else {
                Err("could not cast immediate to u32")
            },
            ImmediateOf::Unsized(_) => Err("could not cast immediate to u32"),
        }
    }

    /// The integer, when it lies in the range of `i32`.
    pub fn cast_i32(&self) -> (r: Result<i32, &'static str>)
        ensures
            r is Ok <==> self.spec_cast_i32() is Some,
            r matches Ok(v) ==> self.spec_cast_i32() == Some(v),
            r is Ok <==> self.in_range(i32::MIN as int, i32::MAX as int),
            r matches Ok(v) ==> self.spec_int() == Some(v as int),
    {
        match *self {
            ImmediateOf::Imm8(val) => Ok(val as i32),
            ImmediateOf::Imm16(val) => Ok(val as i32),
            ImmediateOf::Imm32(val) => Ok(val),
            ImmediateOf::Imm64(val) => if i32::MIN as i64 <= val && val <= i32::MAX as i64 {
                Ok(val as i32)
            } else {
                Err("could not cast immediate to signed i32")
            },
            ImmediateOf::ImmU8(val) => Ok(val as i32),
            ImmediateOf::ImmU16(val) => Ok(val as i32),
            ImmediateOf::ImmU32(val) => if val <= i32::MAX as u32 {
                Ok(val as i32)
            } else {
                Err("could not cast immediate to signed i32")
            },
            ImmediateOf::ImmU64(val) => if val <= i32::MAX as u64 {
                Ok(val as i32)
            } else {
                Err("could not cast immediate to signed i32")
            },
            ImmediateOf::Unsized(_) => Err("could not cast immediate to signed i32"),
        }
    }

    /// The integer, when it lies in the range of `i16`.
    pub fn cast_i16(&self) -> (r: Result<i16, &'static str>)
        ensures
            r is Ok <==> self.spec_cast_i16() is Some,
            r matches Ok(v) ==> self.spec_cast_i16() == Some(v),
            r is Ok <==> self.in_range(i16::MIN as int, i16::MAX as int),
            r matches Ok(v) ==> self.spec_int() == Some(v as int),
    {
        match *self {
            ImmediateOf::Imm8(val) => Ok(val as i16),
            ImmediateOf::Imm16(val) => Ok(val),
            ImmediateOf::Imm32(val) => if i16::MIN as i32 <= val && val <= i16::MAX as i32 {
                Ok(val as i16)
            } else {
                Err("could not cast immediate to signed i16")
            },
            ImmediateOf::Imm64(val) => if i16::MIN as i64 <= val && val <= i16::MAX as i64 {
                Ok(val as i16)
            } else {
                Err("could not cast immediate to signed i16")
            },
            ImmediateOf::ImmU8(val) => Ok(val as i16),
            ImmediateOf::ImmU16(val) => if val <= i16::MAX as u16 {
                Ok(val as i16)
            } else {
                Err("could not cast immediate to signed i16")
            },
            ImmediateOf::ImmU32(val) => if val <= i16::MAX as u32 {
                Ok(val as i16)
            } else {
                Err("could not cast immediate to signed i16")
            },
            ImmediateOf::ImmU64(val) => if val <= i16::MAX as u64 {
                Ok(val as i16)
            } else {
                Err("could not cast immediate to signed i16")
            },
            ImmediateOf::Unsized(_) => Err("could not cast immediate to signed i16"),
        }
    }

    /// The integer as a `u16`: when it lies in `0..=u16::MAX`, or, for an `Imm16`,
    /// its two's complement bits.
    pub fn cast_u16(&self) -> (r: Result<u16, &'static str>)
        ensures
            r is Ok <==> self.spec_cast_u16() is Some,
            r matches Ok(v) ==> self.spec_cast_u16() == Some(v),
            r is Ok <==> self.in_range(0, u16::MAX as int) || self is Imm16,
            r matches Ok(v) ==> (self.spec_int().unwrap() as u16) == v,
            r matches Ok(v) ==> !(self is Imm16) ==> self.spec_int() == Some(v as int),
    {
        match *self {
            ImmediateOf::Imm8(val) => if val >= 0 {
                Ok(val as u16)
            } else {
                Err("could not cast immediate to u16")
            },
            ImmediateOf::Imm16(val) => Ok(val as u16),
            ImmediateOf::Imm32(val) => if 0 <= val && val <= u16::MAX as i32 {
                Ok(val as u16)
            } else {
                Err("could not cast immediate to u16")
            },
            ImmediateOf::Imm64(val) => if 0 <= val && val <= u16::MAX as i64 {
                Ok(val as u16)
            } else {
                Err("could not cast immediate to u16")
            },
            ImmediateOf::ImmU8(val) => Ok(val as u16),
            ImmediateOf::ImmU16(val) => Ok(val),
            ImmediateOf::ImmU32(val) => if val <= u16::MAX as u32 {
                Ok(val as u16)
            } else {
                Err("could not cast immediate to u16")
            },
            ImmediateOf::ImmU64(val) => if val <= u16::MAX as u64 {
                Ok(val as u16)
            } else {
                Err("could not cast immediate to u16")
            },
            ImmediateOf::Unsized(_) => Err("could not cast immediate to u16"),
        }
    }

    /// The integer, when it lies in the range of `i8`.
    pub fn cast_i8(&self) -> (r: Result<i8, &'static str>)
        ensures
            r is Ok <==> self.spec_cast_i8() is Some,
            r matches Ok(v) ==> self.spec_cast_i8() == Some(v),
            r is Ok <==> self.in_range(i8::MIN as int, i8::MAX as int),
            r matches Ok(v) ==> self.spec_int() == Some(v as int),
    {
        match *self {
            ImmediateOf::Imm8(val) => Ok(val),
            ImmediateOf::Imm16(val) => if i8::MIN as i16 <= val && val <= i8::MAX as i16 {
                Ok(val as i8)
            } else {
                Err("could not cast immediate to signed i8")
            },
            ImmediateOf::Imm32(val) => if i8::MIN as i32 <= val && val <= i8::MAX as i32 {
                Ok(val as i8)
            } else {
                Err("could not cast immediate to signed i8")
            },
            ImmediateOf::Imm64(val) => if i8::MIN as i64 <= val && val <= i8::MAX as i64 {
                Ok(val as i8)
            } else {
                Err("could not cast immediate to signed i8")
            },
            ImmediateOf::ImmU8(val) => if val <= i8::MAX as u8 {
                Ok(val as i8)
            } else {
                Err("could not cast immediate to signed i8")
            },
            ImmediateOf::ImmU16(val) => if val <= i8::MAX as u16 {
                Ok(val as i8)
            } else {
                Err("could not cast immediate to signed i8")
            },
            ImmediateOf::ImmU32(val) => if val <= i8::MAX as u32 {
                Ok(val as i8)
            } else {
                Err("could not cast immediate to signed i8")
            },
            ImmediateOf::ImmU64(val) => if val <= i8::MAX as u64 {
                Ok(val as i8)
            } else {
                Err("could not cast immediate to signed i8")
            },
            ImmediateOf::Unsized(_) => Err("could not cast immediate to signed i8"),
        }
    }

    /// The integer as a `u8`: when it lies in `0..=u8::MAX`, or, for an `Imm8`,
    /// its two's complement bits.
    pub fn cast_u8(&self) -> (r: Result<u8, &'static str>)
        ensures
            r is Ok <==> self.spec_cast_u8() is Some,
            r matches Ok(v) ==> self.spec_cast_u8() == Some(v),
            r is Ok <==> self.in_range(0, u8::MAX as int) || self is Imm8,
            r matches Ok(v) ==> (self.spec_int().unwrap() as u8) == v,
            r matches Ok(v) ==> !(self is Imm8) ==> self.spec_int() == Some(v as int),
    {
        match *self {
            ImmediateOf::Imm8(val) => Ok(val as u8),
            ImmediateOf::Imm16(val) => if 0 <= val && val <= u8::MAX as i16 {
                Ok(val as u8)
            } else {
                Err("could not cast immediate to u8")
            },
            ImmediateOf::Imm32(val) => if 0 <= val && val <= u8::MAX as i32 {
                Ok(val as u8)
            } else {
                Err("could not cast immediate to u8")
            },
            ImmediateOf::Imm64(val) => if 0 <= val && val <= u8::MAX as i64 {
                Ok(val as u8)
            } else {
                Err("could not cast immediate to u8")
            },
            ImmediateOf::ImmU8(val) => Ok(val),
            ImmediateOf::ImmU16(val) => if val <= u8::MAX as u16 {
                Ok(val as u8)
            } else {
                Err("could not cast immediate to u8")
            },
            ImmediateOf::ImmU32(val) => if val <= u8::MAX as u32 {
                Ok(val as u8)
            } else {
                Err("could not cast immediate to u8")
            },
            ImmediateOf::ImmU64(val) => if val <= u8::MAX as u64 {
                Ok(val as u8)
            } else {
                Err("could not cast immediate to u8")
            },
            ImmediateOf::Unsized(_) => Err("could not cast immediate to u8"),
        }
    }

    /// The integer, when it lies in `0..=u8::MAX` (negative values are refused).
    pub fn strict_cast_u8(&self) -> (r: Result<u8, &'static str>)
        ensures
            r is Ok <==> self.spec_strict_cast_u8() is Some,
            r matches Ok(v) ==> self.spec_strict_cast_u8() == Some(v),
            r is Ok <==> self.in_range(0, u8::MAX as int),
            r matches Ok(v) ==> self.spec_int() == Some(v as int),
    {
        match *self {
            ImmediateOf::Imm8(val) => if val >= 0 {
                Ok(val as u8)
            } else {
                Err("could not cast immediate to strictly positive u8")
            },
            ImmediateOf::ImmU8(val) => Ok(val),
            _ => match self.cast_u8() {
                Ok(v) => Ok(v),
                Err(_) => Err("could not cast immediate to strictly positive u8"),
            },
        }
    }
}

/// An immediate that fits a narrower signed type fits every wider one, with the same
/// value.
pub proof fn lemma_signed_casts_widen<B>(imm: ImmediateOf<B>)
    ensures
        imm.spec_cast_i8() matches Some(v) ==> imm.spec_cast_i16() == Some(v as i16)
            && imm.spec_cast_i32() == Some(v as i32) && imm.spec_cast_i64() == Some(v as i64),
        imm.spec_cast_i16() matches Some(v) ==> imm.spec_cast_i32() == Some(v as i32)
            && imm.spec_cast_i64() == Some(v as i64),
        imm.spec_cast_i32() matches Some(v) ==> imm.spec_cast_i64() == Some(v as i64),
{
}

/// An immediate in `0..=255` is read alike by every unsigned cast.
pub proof fn lemma_unsigned_casts_agree<B>(imm: ImmediateOf<B>)
    ensures
        imm.spec_strict_cast_u8() matches Some(v) ==> imm.spec_cast_u8() == Some(v)
            && imm.spec_cast_u16() == Some(v as u16) && imm.spec_cast_u32() == Some(v as u32)
            && imm.spec_cast_u64() == Some(v as u64),
{
}

/// The bytes of an immediate are its value in little-endian order at the width it was
/// written with: they are that many, reading them back gives the value (in two's complement
/// for the signed widths), and raw bytes stay as written.
pub proof fn lemma_immediate_bytes(imm: ImmediateModel)
    ensures
        imm matches ImmediateOf::Imm8(v) ==> imm.spec_bytes().len() == 1 && (le_value(imm.spec_bytes()) as u8) as i8 == v,
        imm matches ImmediateOf::Imm16(v) ==> imm.spec_bytes().len() == 2 && (le_value(imm.spec_bytes()) as u16) as i16 == v,
        imm matches ImmediateOf::Imm32(v) ==> imm.spec_bytes().len() == 4 && (le_value(imm.spec_bytes()) as u32) as i32 == v,
        imm matches ImmediateOf::Imm64(v) ==> imm.spec_bytes().len() == 8 && (le_value(imm.spec_bytes()) as u64) as i64 == v,
        imm matches ImmediateOf::ImmU8(v) ==> imm.spec_bytes().len() == 1 && le_value(imm.spec_bytes()) == v,
        imm matches ImmediateOf::ImmU16(v) ==> imm.spec_bytes().len() == 2 && le_value(imm.spec_bytes()) == v,
        imm matches ImmediateOf::ImmU32(v) ==> imm.spec_bytes().len() == 4 && le_value(imm.spec_bytes()) == v,
        imm matches ImmediateOf::ImmU64(v) ==> imm.spec_bytes().len() == 8 && le_value(imm.spec_bytes()) == v,
        imm matches ImmediateOf::Unsized(b) ==> imm.spec_bytes() == b,
{
    reveal_with_fuel(pow256, 9);
    match imm {
        ImmediateOf::Imm8(v) => {
            lemma_le_bytes_roundtrip((v as u8) as nat, 1);
            assert(((v as u8) as u8) as i8 == v) by (bit_vector);
        },
        ImmediateOf::Imm16(v) => {
            lemma_le_bytes_roundtrip((v as u16) as nat, 2);
            assert(((v as u16) as u16) as i16 == v) by (bit_vector);
        },
        ImmediateOf::Imm32(v) => {
            lemma_le_bytes_roundtrip((v as u32) as nat, 4);
            assert(((v as u32) as u32) as i32 == v) by (bit_vector);
        },
        ImmediateOf::Imm64(v) => {
            lemma_le_bytes_roundtrip((v as u64) as nat, 8);
            assert(((v as u64) as u64) as i64 == v) by (bit_vector);
        },
        ImmediateOf::ImmU8(v) => lemma_le_bytes_roundtrip(v as nat, 1),
        ImmediateOf::ImmU16(v) => lemma_le_bytes_roundtrip(v as nat, 2),
        ImmediateOf::ImmU32(v) => lemma_le_bytes_roundtrip(v as nat, 4),
        ImmediateOf::ImmU64(v) => lemma_le_bytes_roundtrip(v as nat, 8),
        ImmediateOf::Unsized(_) => {},
    }
}

} // verus!
