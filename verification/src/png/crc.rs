//! The 32-bit cyclic redundancy check that guards every chunk.

use vstd::prelude::*;

verus! {

/// The generator polynomial, bits reversed.
pub const CRC_POLYNOMIAL: u32 = 0xEDB88320;

/// The register after one bit has been shifted out.
pub open spec fn crc_shift(register: u32) -> u32 {
    if register & 1 == 1 {
        CRC_POLYNOMIAL ^ (register >> 1)
    } else {
        register >> 1
    }
}

/// The register after `n` bits have been shifted out.
pub open spec fn crc_shifts(register: u32, n: nat) -> u32
    decreases n,
{
    if n == 0 {
        register
    } else {
        crc_shift(crc_shifts(register, (n - 1) as nat))
    }
}

/// The register after one more byte.
pub open spec fn crc_byte(register: u32, byte: u8) -> u32 {
    crc_shifts(register ^ (byte as u32), 8)
}

/// The register after all of `data`, starting from all ones.
pub open spec fn crc_register(data: Seq<u8>) -> u32
    decreases data.len(),
{
    if data.len() == 0 {
        0xFFFF_FFFF
    } else {
        crc_byte(crc_register(data.drop_last()), data.last())
    }
}

/// The checksum of `data`: the register after the data, complemented.
pub open spec fn crc32_of(data: Seq<u8>) -> u32 {
    crc_register(data) ^ 0xFFFF_FFFF
}

/// Computes the checksum of `data`.
pub fn crc32(data: &[u8]) -> (crc: u32)
    ensures
        crc == crc32_of(data@),
{
    let mut register: u32 = 0xFFFF_FFFF;
    let mut i: usize = 0;
    assert(data@.take(0) =~= Seq::<u8>::empty());
    while i < data.len()
        invariant
            i <= data@.len(),
            register == crc_register(data@.take(i as int)),
        decreases data@.len() - i,
    {
        let ghost before = register;
        register = register ^ (data[i] as u32);
        let mut bit: u8 = 0;
        while bit < 8
            invariant
                bit <= 8,
                i < data@.len(),
                register == crc_shifts(before ^ (data@[i as int] as u32), bit as nat),
            decreases 8 - bit,
        {
            register = if register & 1 == 1 {
                CRC_POLYNOMIAL ^ (register >> 1)
            } else {
                register >> 1
            };
            bit = bit + 1;
        }
        assert(data@.take(i + 1).drop_last() =~= data@.take(i as int));
        i = i + 1;
    }
    assert(data@.take(data@.len() as int) =~= data@);
    register ^ 0xFFFF_FFFF
}

} // verus!
