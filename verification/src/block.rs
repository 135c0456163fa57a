//! Address blocks: the range of 48-bit addresses that share a prefix.

use crate::error::OuiError;
use vstd::arithmetic::power2::{lemma_pow2_pos, pow2};
use vstd::bits::{lemma_u64_low_bits_mask_is_mod, lemma_u64_shl_is_mul};
use vstd::prelude::*;

verus! {

/// Largest 48-bit address.
pub const MAX_ADDRESS: u64 = 0xFFFF_FFFF_FFFF;

/// Number of bits of an address.
pub const ADDRESS_BITS: u8 = 48;

/// Shortest prefix that a block may have.
pub const MIN_MASK: u8 = 8;

/// Mask of a block specifier that names none. A prefix with this mask is
/// written as its high 24 bits only.
pub const DEFAULT_MASK: u8 = 24;

/// The addresses `lo ..= hi`, which agree in their first `prefix_len` bits.
#[derive(Clone, Copy, Debug, PartialEq, Eq, Structural)]
pub struct AddressBlock {
    /// First address of the block.
    pub lo: u64,
    /// Last address of the block.
    pub hi: u64,
    /// Number of leading bits that the addresses of the block share.
    pub prefix_len: u8,
}

/// Number of addresses in a block whose prefix has `mask` bits.
pub open spec fn block_size(mask: u8) -> nat {
    pow2((ADDRESS_BITS - mask) as nat)
}

impl AddressBlock {
    /// The block is a prefix block of the 48-bit address space: it starts at
    /// a multiple of its size and does not reach beyond the last address.
    pub open spec fn wf(self) -> bool {
        &&& MIN_MASK <= self.prefix_len <= ADDRESS_BITS
        &&& (self.lo as int) % (block_size(self.prefix_len) as int) == 0
        &&& self.hi == self.lo + block_size(self.prefix_len) - 1
        &&& self.hi <= MAX_ADDRESS
    }

    /// Whether `addr` lies in the block.
    pub open spec fn holds(self, addr: u64) -> bool {
        self.lo <= addr <= self.hi
    }

    /// Tells whether `addr` lies in the block.
    pub fn contains(&self, addr: u64) -> (r: bool)
        ensures
            r == self.holds(addr),
    {
        self.lo <= addr && addr <= self.hi
    }
}

/// First address of the block that a line names with `prefix` and `mask`: a
/// prefix with the default mask of 24 stands for its high 24 bits, any other
/// is written out in full.
pub open spec fn block_start(prefix: u64, mask: u8) -> int {
    if mask == DEFAULT_MASK {
        prefix * 0x100_0000
    } else {
        prefix as int
    }
}

/// Whether `prefix` and `mask` name a block: the mask is from 8 to 48, the
/// block starts within the address space, and the start has no bit set below
/// the mask.
pub open spec fn is_block(prefix: u64, mask: u8) -> bool {
    &&& MIN_MASK <= mask <= ADDRESS_BITS
    &&& block_start(prefix, mask) <= MAX_ADDRESS
    &&& block_start(prefix, mask) % (block_size(mask) as int) == 0
}

/// The block that `prefix` and `mask` name.
pub open spec fn block_spec(prefix: u64, mask: u8) -> Result<AddressBlock, OuiError> {
    if is_block(prefix, mask) {
        let lo = block_start(prefix, mask);
        Ok(
            AddressBlock {
                lo: lo as u64,
                hi: (lo + block_size(mask) - 1) as u64,
                prefix_len: mask,
            },
        )
    } else {
        Err(OuiError::InvalidBlock)
    }
}

/// For a mask from 8 to 48, the low bits that a block's addresses range over
/// are one less than the block's size.
proof fn lemma_low_bits(mask: u8)
    requires
        MIN_MASK <= mask <= ADDRESS_BITS,
    ensures
        (MAX_ADDRESS >> mask) + 1 == block_size(mask),
        0 < block_size(mask) <= 0x100_0000_0000,
{
    let shift: u64 = (48 - mask) as u64;
    assert((0xFFFF_FFFF_FFFFu64 >> mask) + 1 == 1u64 << shift && (1u64 << shift)
        <= 0x100_0000_0000u64) by (bit_vector)
        requires
            8 <= mask <= 48,
            shift == (48 - mask) as u64,
    ;
    vstd::bits::lemma_u64_pow2_no_overflow(shift as nat);
    lemma_u64_shl_is_mul(1, shift);
    lemma_pow2_pos(shift as nat);
}

/// A multiple of a block's size has none of the block's low bits set, and
/// setting them all adds one less than the size.
proof fn lemma_aligned(lo: u64, mask: u8)
    requires
        MIN_MASK <= mask <= ADDRESS_BITS,
        lo <= MAX_ADDRESS,
    ensures
        (lo & (MAX_ADDRESS >> mask)) == 0 <==> (lo as int) % (block_size(mask) as int) == 0,
        (lo & (MAX_ADDRESS >> mask)) == 0 ==> (lo | (MAX_ADDRESS >> mask)) == lo + block_size(mask)
            - 1,
        (lo | (MAX_ADDRESS >> mask)) <= MAX_ADDRESS,
{
    lemma_low_bits(mask);
    let low: u64 = MAX_ADDRESS >> mask;
    let bits: nat = (ADDRESS_BITS - mask) as nat;
    lemma_u64_low_bits_mask_is_mod(lo, bits);
    assert((lo & low) == 0 ==> (lo | low) == lo + low) by (bit_vector);
    assert((lo | low) <= 0xFFFF_FFFF_FFFFu64) by (bit_vector)
        requires
            lo <= 0xFFFF_FFFF_FFFFu64,
            low == 0xFFFF_FFFF_FFFFu64 >> mask,
    ;
}

/// Builds the block that a line names with `prefix` and `mask`.
///
/// Fails with [`OuiError::InvalidBlock`] where the mask is not from 8 to 48,
/// where the block would start beyond the last 48-bit address, and where the
/// prefix has a bit set below the mask.
pub fn build_block(prefix: u64, mask: u8) -> (r: Result<AddressBlock, OuiError>)
    ensures
        r == block_spec(prefix, mask),
        r matches Ok(block) ==> block.wf(),
{
    if mask < MIN_MASK || mask > ADDRESS_BITS {
        return Err(OuiError::InvalidBlock);
    }
    let lo: u64 = if mask == DEFAULT_MASK {
        if prefix > 0xFF_FFFF {
            return Err(OuiError::InvalidBlock);
        }
        assert(prefix << 24 == prefix * 0x100_0000) by (bit_vector)
            requires
                prefix <= 0xFF_FFFF,
        ;
        prefix << 24
    } else {
        if prefix > MAX_ADDRESS {
            return Err(OuiError::InvalidBlock);
        }
        prefix
    };
    let low: u64 = MAX_ADDRESS >> mask;
    proof {
        lemma_low_bits(mask);
        lemma_aligned(lo, mask);
    }
    if lo & low != 0 {
        return Err(OuiError::InvalidBlock);
    }
    Ok(AddressBlock { lo, hi: lo | low, prefix_len: mask })
}

/// Every block that is built has a prefix of 8 to 48 bits, does not end
/// before it starts, and holds two to the power of the bits left free by the
/// prefix.
pub proof fn lemma_block_size(prefix: u64, mask: u8)
    requires
        block_spec(prefix, mask) is Ok,
    ensures
        ({
            let block = block_spec(prefix, mask)->Ok_0;
            &&& 8 <= block.prefix_len <= 48
            &&& block.lo <= block.hi
            &&& block.hi - block.lo + 1 == pow2((48 - block.prefix_len) as nat)
            &&& block.wf()
        }),
{
    lemma_low_bits(mask);
    lemma_aligned(block_start(prefix, mask) as u64, mask);
}

/// The addresses of a block are those that agree with its start in all bits
/// of the prefix: those with the same quotient by the block's size.
pub proof fn lemma_block_members(block: AddressBlock, addr: u64)
    requires
        block.wf(),
    ensures
        block.holds(addr) <==> addr / (block_size(block.prefix_len) as u64) == block.lo / (
        block_size(block.prefix_len) as u64),
{
    lemma_low_bits(block.prefix_len);
    let size = block_size(block.prefix_len) as int;
    let lo = block.lo as int;
    let a = addr as int;
    assert((lo <= a <= lo + size - 1) <==> a / size == lo / size) by (nonlinear_arith)
        requires
            size > 0,
            lo % size == 0,
            0 <= lo,
            0 <= a,
    ;
}

/// A block with a prefix of 48 bits holds one address.
pub proof fn lemma_full_prefix_block(block: AddressBlock, addr: u64)
    requires
        block.wf(),
        block.prefix_len == ADDRESS_BITS,
    ensures
        block.lo == block.hi,
        block.holds(addr) <==> addr == block.lo,
{
    vstd::arithmetic::power2::lemma2_to64();
}

/// A block with a prefix of 8 bits holds the `2^40` addresses that share its
/// high byte.
pub proof fn lemma_byte_prefix_block(block: AddressBlock, addr: u64)
    requires
        block.wf(),
        block.prefix_len == MIN_MASK,
    ensures
        block.hi - block.lo + 1 == 0x100_0000_0000,
        block.holds(addr) <==> addr / 0x100_0000_0000 == block.lo / 0x100_0000_0000,
{
    vstd::arithmetic::power2::lemma2_to64_rest();
    lemma_block_members(block, addr);
}

/// Whether the addresses `lo ..= hi` are a block: whether a prefix length
/// makes them one.
pub open spec fn is_block_range(lo: u64, hi: u64) -> bool {
    exists|len: u8| #[trigger] block_of(lo, hi, len).wf()
}

/// The block of the addresses `lo ..= hi` with the prefix length `len`.
pub open spec fn block_of(lo: u64, hi: u64, len: u8) -> AddressBlock {
    AddressBlock { lo, hi, prefix_len: len }
}

/// A block starts at the multiple of its size that lies at or next below
/// each of its addresses.
proof fn lemma_block_start(block: AddressBlock, addr: u64)
    requires
        block.wf(),
        block.holds(addr),
    ensures
        block.lo == (addr as int / block_size(block.prefix_len) as int) * block_size(
            block.prefix_len,
        ),
{
    lemma_low_bits(block.prefix_len);
    let size = block_size(block.prefix_len) as int;
    let lo = block.lo as int;
    let a = addr as int;
    assert(lo == (a / size) * size) by (nonlinear_arith)
        requires
            size > 0,
            lo % size == 0,
            0 <= lo <= a <= lo + size - 1,
    ;
}

/// Of two blocks that hold a common address, the one with the longer prefix
/// lies within the other, and is the smaller.
pub proof fn lemma_longer_prefix_lies_within(a: AddressBlock, b: AddressBlock, addr: u64)
    requires
        a.wf(),
        b.wf(),
        a.holds(addr),
        b.holds(addr),
        a.prefix_len > b.prefix_len,
    ensures
        b.lo <= a.lo,
        a.hi <= b.hi,
        a.hi - a.lo < b.hi - b.lo,
{
    lemma_low_bits(a.prefix_len);
    lemma_low_bits(b.prefix_len);
    lemma_block_start(a, addr);
    lemma_block_start(b, addr);
    let free_a: nat = (ADDRESS_BITS - a.prefix_len) as nat;
    let more: nat = (a.prefix_len - b.prefix_len) as nat;
    vstd::arithmetic::power2::lemma_pow2_adds(free_a, more);
    lemma_pow2_pos(more);
    vstd::arithmetic::power2::lemma_pow2_strictly_increases(0, more);
    assert(pow2(0) == 1) by {
        vstd::arithmetic::power2::lemma2_to64();
    }
    let small = block_size(a.prefix_len) as int;
    let factor = pow2(more) as int;
    let large = block_size(b.prefix_len) as int;
    let q = addr as int / small;
    let m = addr as int / large;
    let x = addr as int;
    let a_lo = a.lo as int;
    let b_lo = b.lo as int;
    let parts = m * factor;
    assert(small < large) by (nonlinear_arith)
        requires
            large == small * factor,
            factor >= 2,
            small > 0,
    ;
    assert(b_lo == parts * small) by (nonlinear_arith)
        requires
            b_lo == m * large,
            large == small * factor,
            parts == m * factor,
    ;
    assert((q + 1) * small == a_lo + small) by (nonlinear_arith)
        requires
            a_lo == q * small,
    ;
    assert((parts + factor) * small == b_lo + large) by (nonlinear_arith)
        requires
            b_lo == parts * small,
            large == small * factor,
    ;
    assert(parts < q + 1) by (nonlinear_arith)
        requires
            parts * small < (q + 1) * small,
            small > 0,
    ;
    assert(parts * small <= q * small) by (nonlinear_arith)
        requires
            parts <= q,
            small > 0,
    ;
    assert(q < parts + factor) by (nonlinear_arith)
        requires
            q * small < (parts + factor) * small,
            small > 0,
    ;
    assert((q + 1) * small <= (parts + factor) * small) by (nonlinear_arith)
        requires
            q + 1 <= parts + factor,
            small > 0,
    ;
}

} // verus!
