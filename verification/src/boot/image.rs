//! The RKnanoFW firmware image header and its CRC-32.
use vstd::prelude::*;

verus! {

/// Magic bytes at the start of an RKnanoFW image: "RKnanoFW".
pub const MAGIC: [u8; 8] = [0x52, 0x4B, 0x6E, 0x61, 0x6E, 0x6F, 0x46, 0x57];

/// Current firmware format version.
pub const FORMAT_VERSION: u32 = 1;

/// Header size in bytes.
pub const HEADER_SIZE: usize = 512;

/// RKNanoD chip identifier ("NAND" in little-endian ASCII).
pub const CHIP_ID_RKNANOD: u32 = 0x4E41_4E44;

/// SRAM load address.
pub const LOAD_ADDR: u32 = 0x0000_0000;

/// Entry point address (right after the header: the vector table).
pub const ENTRY_ADDR: u32 = 0x0000_0200;

/// RKnanoFW firmware image header (512 bytes, little-endian).
pub struct FirmwareHeader {
    pub magic: [u8; 8],
    pub version: u32,
    pub payload_size: u32,
    pub crc32: u32,
    pub load_addr: u32,
    pub entry_addr: u32,
    pub flags: u32,
    pub chip_id: u32,
    pub _reserved: [u8; 12],
    pub _padding: [u8; 464],
}

impl FirmwareHeader {
    /// Validate the magic, version, and chip ID fields.
    pub fn is_valid(&self) -> (ok: bool)
        ensures
            ok == (self.magic@ == MAGIC@ && self.version == FORMAT_VERSION && self.chip_id == CHIP_ID_RKNANOD),
    {
        let magic = MAGIC;
        let mut same = true;
        let mut i: usize = 0;
        while i < 8
            invariant
                i <= 8,
                magic@ == MAGIC@,
                self.magic@.len() == 8,
                magic@.len() == 8,
                same == (forall|k: int| 0 <= k < i ==> self.magic@[k] == magic@[k]),
            decreases 8 - i,
        {
            if self.magic[i] != magic[i] {
                same = false;
            }
            i = i + 1;
        }
        assert(same == (self.magic@ =~= MAGIC@));
        same && self.version == FORMAT_VERSION && self.chip_id == CHIP_ID_RKNANOD
    }
}

/// The reflected CRC-32 polynomial.
pub const CRC32_POLY: u32 = 0xEDB8_8320;

/// One bit step of the reflected CRC-32 register.
pub open spec fn crc_bit(c: u32) -> u32 {
    if c & 1 != 0 { (c >> 1u32) ^ CRC32_POLY } else { c >> 1u32 }
}

/// `n` bit steps.
pub open spec fn crc_bits(c: u32, n: nat) -> u32
    decreases n,
{
    if n == 0 { c } else { crc_bits(crc_bit(c), (n - 1) as nat) }
}

/// The register after all of `data` has been shifted in (initial value all ones).
pub open spec fn crc_register(data: Seq<u8>) -> u32
    decreases data.len(),
{
    if data.len() == 0 {
        0xFFFF_FFFFu32
    } else {
        crc_bits(crc_register(data.drop_last()) ^ (data.last() as u32), 8)
    }
}

/// CRC-32 (ISO 3309 / IEEE 802.3) of `data`.
pub open spec fn crc32_of(data: Seq<u8>) -> u32 {
    !crc_register(data)
}

/// Compute the CRC-32 (ISO 3309) of a byte slice.
pub fn crc32(data: &[u8]) -> (crc: u32)
    ensures
        crc == crc32_of(data@),
{
    let mut crc: u32 = 0xFFFF_FFFF;
    let mut i: usize = 0;
    while i < data.len()
        invariant
            i <= data@.len(),
            crc == crc_register(data@.take(i as int)),
        decreases data@.len() - i,
    {
        let byte = data[i];
        crc = crc ^ (byte as u32);
        let ghost start = crc;
        let mut k: u32 = 0;
        while k < 8
            invariant
                k <= 8,
                crc_bits(start, 8) == crc_bits(crc, (8 - k) as nat),
            decreases 8 - k,
        {
            if crc & 1 != 0 {
                crc = (crc >> 1) ^ CRC32_POLY;
            } else {
                crc = crc >> 1;
            }
            k = k + 1;
        }
        assert(data@.take(i + 1).drop_last() =~= data@.take(i as int));
        i = i + 1;
    }
    assert(data@.take(data@.len() as int) =~= data@);
    !crc
}

} // verus!
