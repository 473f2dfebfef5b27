use vstd::prelude::*;

verus! {

/// The four bytes every program image starts with.
pub const ELF_MAGIC: [u8; 4] = [0x7f, 0x45, 0x4c, 0x46];

/// Whether `bytes` begins with the ELF magic number.
pub open spec fn has_elf_magic(bytes: Seq<u8>) -> bool {
    &&& bytes.len() >= 4
    &&& bytes[0] == 0x7f
    &&& bytes[1] == 0x45
    &&& bytes[2] == 0x4c
    &&& bytes[3] == 0x46
}

/// Checks the magic number of a program image. An image shorter than the
/// magic number is not an ELF image.
pub fn check_elf_magic(bytes: &[u8]) -> (ok: bool)
    ensures
        ok == has_elf_magic(bytes@),
{
    bytes.len() >= 4 && bytes[0] == 0x7f && bytes[1] == 0x45 && bytes[2] == 0x4c && bytes[3]
        == 0x46
}

} // verus!
