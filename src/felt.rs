use vstd::prelude::*;

verus! {

/// Whether 32 big-endian bytes encode a value below the field order
/// `P = 2^251 + 17 * 2^192 + 1`, whose bytes are `08 00*6 11 00*23 01`.
pub open spec fn canonical(b: Seq<u8>) -> bool {
    &&& b.len() == 32
    &&& (b[0] < 8 || (b[0] == 8 && (forall|i: int| 1 <= i < 7 ==> b[i] == 0) && (b[7] < 0x11 || (
    b[7] == 0x11 && (forall|i: int| 8 <= i < 32 ==> b[i] == 0)))))
}

/// Byte `k` of `x`, counted from the least significant.
pub open spec fn byte_at(x: u128, k: int) -> u8 {
    ((x >> ((8 * k) as u128)) & 0xff) as u8
}

/// The 32 big-endian bytes of an unsigned 128-bit value.
pub open spec fn u128_be_bytes(x: u128) -> Seq<u8> {
    Seq::new(32, |i: int| if i < 16 { 0u8 } else { byte_at(x, 31 - i) })
}

/// The order of the field, `2^251 + 17 * 2^192 + 1`.
pub open spec fn field_order() -> nat {
    0x800000000000011 * 0x1_0000_0000_0000_0000_0000_0000_0000_0000 * 0x1_0000_0000_0000_0000 + 1
}

/// The value of big-endian bytes.
pub open spec fn be_value(b: Seq<u8>) -> nat
    decreases b.len(),
{
    if b.len() == 0 {
        0
    } else {
        be_value(b.drop_last()) * 256 + b.last() as nat
    }
}

/// The 32 bytes of the zero element.
pub open spec fn zero_bytes() -> Seq<u8> {
    Seq::new(32, |i: int| 0u8)
}

/// A field element, held as its canonical 32-byte big-endian form.
#[derive(Clone, Copy, Debug)]
pub struct Felt {
    pub bytes: [u8; 32],
}

impl View for Felt {
    type V = Seq<u8>;

    open spec fn view(&self) -> Seq<u8> {
        self.bytes@
    }
}

impl Felt {
    pub open spec fn wf(&self) -> bool {
        canonical(self@)
    }

    /// The zero element.
    pub fn zero() -> (r: Felt)
        ensures
            r@ == zero_bytes(),
            r.wf(),
    {
        let r = Felt { bytes: [0u8; 32] };
        assert(r@ =~= zero_bytes());
        r
    }

    /// The element whose value is `x`.
    pub fn from_u128(x: u128) -> (r: Felt)
        ensures
            r@ == u128_be_bytes(x),
            r.wf(),
    {
        let mut b: [u8; 32] = [0u8; 32];
        let mut i: usize = 16;
        while i < 32
            invariant
                16 <= i <= 32,
                forall|j: int| 0 <= j < 16 ==> b@[j] == 0,
                forall|j: int| 16 <= j < i ==> b@[j] == u128_be_bytes(x)[j],
            decreases 32 - i,
        {
            let shift: u128 = (8 * (31 - i)) as u128;
            b[i] = ((x >> shift) & 0xff) as u8;
            i = i + 1;
        }
        let r = Felt { bytes: b };
        assert(r@ =~= u128_be_bytes(x));
        r
    }

    /// The element whose big-endian bytes are `bytes`, or `None` where they
    /// encode a value that is not below the field order.
    pub fn from_bytes_be_checked(bytes: [u8; 32]) -> (r: Option<Felt>)
        ensures
            r is Some <==> canonical(bytes@),
            r matches Some(f) ==> f@ == bytes@,
    {
        if bytes[0] < 8 {
            return Some(Felt { bytes });
        }
        if bytes[0] > 8 {
            return None;
        }
        let mut i: usize = 1;
        while i < 7
            invariant
                1 <= i <= 7,
                bytes@[0] == 8,
                forall|j: int| 1 <= j < i ==> bytes@[j] == 0,
            decreases 7 - i,
        {
            if bytes[i] != 0 {
                return None;
            }
            i = i + 1;
        }
        if bytes[7] < 0x11 {
            return Some(Felt { bytes });
        }
        if bytes[7] > 0x11 {
            return None;
        }
        let mut k: usize = 8;
        while k < 32
            invariant
                8 <= k <= 32,
                bytes@[0] == 8,
                bytes@[7] == 0x11,
                forall|j: int| 1 <= j < 7 ==> bytes@[j] == 0,
                forall|j: int| 8 <= j < k ==> bytes@[j] == 0,
            decreases 32 - k,
        {
            if bytes[k] != 0 {
                return None;
            }
            k = k + 1;
        }
        Some(Felt { bytes })
    }
}

/// An unsigned 256-bit integer as two 128-bit halves.
#[derive(Clone, Copy, Debug, PartialEq, Eq, Structural)]
pub struct U256 {
    pub lo: u128,
    pub hi: u128,
}

impl U256 {
    pub open spec fn value(&self) -> nat {
        (self.hi as nat) * 0x1_0000_0000_0000_0000_0000_0000_0000_0000 + self.lo as nat
    }
}

/// The value of four little-endian 64-bit limbs.
pub open spec fn limbs_value(limbs: [u64; 4]) -> nat {
    limbs[0] as nat + limbs[1] as nat * 0x1_0000_0000_0000_0000 + limbs[2] as nat
        * 0x1_0000_0000_0000_0000_0000_0000_0000_0000 + limbs[3] as nat
        * 0x1_0000_0000_0000_0000_0000_0000_0000_0000_0000_0000_0000_0000
}

proof fn lemma_pair_limbs(x: u64, y: u64)
    ensures
        (x as u128) | ((y as u128) << 64u128) == x as u128 + y as u128 * 0x1_0000_0000_0000_0000,
{
    let xx = x as u128;
    let yy = y as u128;
    assert(xx < 0x1_0000_0000_0000_0000);
    assert(yy < 0x1_0000_0000_0000_0000);
    assert(xx | (yy << 64u128) == xx + (yy << 64u128)) by (bit_vector)
        requires
            xx < 0x1_0000_0000_0000_0000,
    ;
    assert(yy << 64u128 == yy * 0x1_0000_0000_0000_0000) by (bit_vector)
        requires
            yy < 0x1_0000_0000_0000_0000,
    ;
}

/// Pairs four little-endian 64-bit limbs into the halves of a 256-bit integer:
/// `lo = limb0 | limb1 << 64`, `hi = limb2 | limb3 << 64`.
pub fn big4int_to_u256(limbs: [u64; 4]) -> (r: U256)
    ensures
        r.lo == limbs[0] as u128 + limbs[1] as u128 * 0x1_0000_0000_0000_0000,
        r.hi == limbs[2] as u128 + limbs[3] as u128 * 0x1_0000_0000_0000_0000,
        r.value() == limbs_value(limbs),
{
    let a = limbs[0];
    let b = limbs[1];
    let c = limbs[2];
    let d = limbs[3];
    let lo = (a as u128) | ((b as u128) << 64u128);
    let hi = (c as u128) | ((d as u128) << 64u128);
    proof {
        lemma_pair_limbs(a, b);
        lemma_pair_limbs(c, d);
    }
    let r = U256 { lo, hi };
    assert(r.value() == limbs_value(limbs)) by (nonlinear_arith)
        requires
            r.lo == a as u128 + b as u128 * 0x1_0000_0000_0000_0000,
            r.hi == c as u128 + d as u128 * 0x1_0000_0000_0000_0000,
            limbs[0] == a, limbs[1] == b, limbs[2] == c, limbs[3] == d,
    ;
    r
}

} // verus!
