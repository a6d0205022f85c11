//! The binary container's header records: a 52-byte file header and two
//! 32-byte load-segment descriptors, all serialized big-endian and tightly
//! packed.

use vstd::prelude::*;

use crate::data::be_bytes_spec;

verus! {

/// Which of the two segments a section marker starts.
#[derive(Debug, Clone, Copy, PartialEq, Eq, Structural)]
pub enum Sections {
    Code,
    Data,
}

/// The file header of the produced image.
#[derive(Debug)]
#[allow(non_snake_case)]
pub struct RelfHeader32 {
    pub e_ident_MAG: u32,
    pub e_ident_CLASS: u8,
    pub e_ident_DATA: u8,
    pub e_ident_VERSION: u8,
    pub e_ident_OSABI: u8,
    pub e_ident_ABIVERSION: u8,
    pub e_ident_EIPAD: Vec<u8>,
    pub e_type: u16,
    pub e_machine: u16,
    pub e_version: u32,
    pub e_entry: u32,
    pub e_phoff: u32,
    pub e_shoff: u32,
    pub e_flags: u32,
    pub e_ehsize: u16,
    pub e_phentsize: u16,
    pub e_phnum: u16,
    pub e_shentsize: u16,
    pub e_shnum: u16,
    pub e_shstrndx: u16,
}

/// One load-segment descriptor of the produced image.
#[derive(Debug)]
pub struct SectionHeader32 {
    pub p_type: u32,
    pub p_offset: u32,
    pub p_vaddr: u32,
    pub p_paddr: u32,
    pub p_filesz: u32,
    pub p_memsz: u32,
    pub p_flags: u32,
    pub p_align: u32,
}

/// The four big-endian bytes of a 32-bit value.
pub open spec fn be32(v: u32) -> Seq<u8> {
    be_bytes_spec(v, 4)
}

/// The two big-endian bytes of a 16-bit value.
pub open spec fn be16(v: u16) -> Seq<u8> {
    be_bytes_spec(v as u32, 2)
}

/// The 52-byte big-endian serialization of the file header, with the 7
/// padding bytes written raw.
pub open spec fn relf_header_bytes(h: RelfHeader32) -> Seq<u8> {
    be32(h.e_ident_MAG) + seq![
        h.e_ident_CLASS,
        h.e_ident_DATA,
        h.e_ident_VERSION,
        h.e_ident_OSABI,
        h.e_ident_ABIVERSION,
    ] + h.e_ident_EIPAD@ + be16(h.e_type) + be16(h.e_machine) + be32(h.e_version) + be32(h.e_entry)
        + be32(h.e_phoff) + be32(h.e_shoff) + be32(h.e_flags) + be16(h.e_ehsize) + be16(
        h.e_phentsize,
    ) + be16(h.e_phnum) + be16(h.e_shentsize) + be16(h.e_shnum) + be16(h.e_shstrndx)
}

/// The 32-byte big-endian serialization of a load-segment descriptor.
pub open spec fn section_header_bytes(h: SectionHeader32) -> Seq<u8> {
    be32(h.p_type) + be32(h.p_offset) + be32(h.p_vaddr) + be32(h.p_paddr) + be32(h.p_filesz)
        + be32(h.p_memsz) + be32(h.p_flags) + be32(h.p_align)
}

/// Field values of the default file header: a 32-bit, big-endian,
/// executable image for machine 8, with two program headers of 32 bytes
/// each after the 52-byte header, and no section headers.
pub open spec fn relf_header_default_spec(h: RelfHeader32) -> bool {
    &&& h.e_ident_MAG == 0x7f454c46u32
    &&& h.e_ident_CLASS == 0x01u8
    &&& h.e_ident_DATA == 0x02u8
    &&& h.e_ident_VERSION == 0x1u8
    &&& h.e_ident_OSABI == 0u8
    &&& h.e_ident_ABIVERSION == 0u8
    &&& h.e_ident_EIPAD@ == Seq::new(7, |i: int| 0u8)
    &&& h.e_type == 0x02u16
    &&& h.e_machine == 0x08u16
    &&& h.e_version == 0x1u32
    &&& h.e_entry == 0u32
    &&& h.e_phoff == 0x0034u32
    &&& h.e_shoff == 0u32
    &&& h.e_flags == 0u32
    &&& h.e_ehsize == 0x34u16
    &&& h.e_phentsize == 0x20u16
    &&& h.e_phnum == 0x02u16
    &&& h.e_shentsize == 0u16
    &&& h.e_shnum == 0u16
    &&& h.e_shstrndx == 0u16
}

impl RelfHeader32 {
    /// The header's field values in declaration order, padding bytes
    /// included.
    pub fn into_tuple(self) -> (t: (
        u32,
        u8,
        u8,
        u8,
        u8,
        u8,
        Vec<u8>,
        u16,
        u16,
        u32,
        u32,
        u32,
        u32,
        u32,
        u16,
        u16,
        u16,
        u16,
        u16,
        u16,
    ))
        ensures
            t.0 == self.e_ident_MAG,
            t.1 == self.e_ident_CLASS,
            t.2 == self.e_ident_DATA,
            t.3 == self.e_ident_VERSION,
            t.4 == self.e_ident_OSABI,
            t.5 == self.e_ident_ABIVERSION,
            t.6 == self.e_ident_EIPAD,
            t.7 == self.e_type,
            t.8 == self.e_machine,
            t.9 == self.e_version,
            t.10 == self.e_entry,
            t.11 == self.e_phoff,
            t.12 == self.e_shoff,
            t.13 == self.e_flags,
            t.14 == self.e_ehsize,
            t.15 == self.e_phentsize,
            t.16 == self.e_phnum,
            t.17 == self.e_shentsize,
            t.18 == self.e_shnum,
            t.19 == self.e_shstrndx,
    {
        (
            self.e_ident_MAG,
            self.e_ident_CLASS,
            self.e_ident_DATA,
            self.e_ident_VERSION,
            self.e_ident_OSABI,
            self.e_ident_ABIVERSION,
            self.e_ident_EIPAD,
            self.e_type,
            self.e_machine,
            self.e_version,
            self.e_entry,
            self.e_phoff,
            self.e_shoff,
            self.e_flags,
            self.e_ehsize,
            self.e_phentsize,
            self.e_phnum,
            self.e_shentsize,
            self.e_shnum,
            self.e_shstrndx,
        )
    }

    /// The default file header.
    pub fn default() -> (h: RelfHeader32)
        ensures
            relf_header_default_spec(h),
    {
        let mut pad: Vec<u8> = Vec::new();
        let mut k: usize = 0;
        while k < 7
            invariant
                k <= 7,
                pad@ == Seq::new(k as nat, |i: int| 0u8),
            decreases 7 - k,
        {
            pad.push(0u8);
            k += 1;
            proof {
                assert(pad@ =~= Seq::new(k as nat, |i: int| 0u8));
            }
        }
        RelfHeader32 {
            e_ident_MAG: 0x7f454c46,
            e_ident_CLASS: 0x01,
            e_ident_DATA: 0x02,
            e_ident_VERSION: 0x1,
            e_ident_OSABI: 0,
            e_ident_ABIVERSION: 0,
            e_ident_EIPAD: pad,
            e_type: 0x02,
            e_machine: 0x08,
            e_version: 0x1,
            e_entry: 0,
            e_phoff: 0x0034,
            e_shoff: 0,
            e_flags: 0,
            e_ehsize: 0x34,
            e_phentsize: 0x20,
            e_phnum: 0x02,
            e_shentsize: 0,
            e_shnum: 0,
            e_shstrndx: 0,
        }
    }

    /// Builds a header from its field values, padding bytes included, in
    /// declaration order.
    pub fn from_tuple(
        tuple: (
            u32,
            u8,
            u8,
            u8,
            u8,
            u8,
            Vec<u8>,
            u16,
            u16,
            u32,
            u32,
            u32,
            u32,
            u32,
            u16,
            u16,
            u16,
            u16,
            u16,
            u16,
        ),
    ) -> (h: RelfHeader32)
        ensures
            h.e_ident_MAG == tuple.0,
            h.e_ident_CLASS == tuple.1,
            h.e_ident_DATA == tuple.2,
            h.e_ident_VERSION == tuple.3,
            h.e_ident_OSABI == tuple.4,
            h.e_ident_ABIVERSION == tuple.5,
            h.e_ident_EIPAD == tuple.6,
            h.e_type == tuple.7,
            h.e_machine == tuple.8,
            h.e_version == tuple.9,
            h.e_entry == tuple.10,
            h.e_phoff == tuple.11,
            h.e_shoff == tuple.12,
            h.e_flags == tuple.13,
            h.e_ehsize == tuple.14,
            h.e_phentsize == tuple.15,
            h.e_phnum == tuple.16,
            h.e_shentsize == tuple.17,
            h.e_shnum == tuple.18,
            h.e_shstrndx == tuple.19,
    {
        RelfHeader32 {
            e_ident_MAG: tuple.0,
            e_ident_CLASS: tuple.1,
            e_ident_DATA: tuple.2,
            e_ident_VERSION: tuple.3,
            e_ident_OSABI: tuple.4,
            e_ident_ABIVERSION: tuple.5,
            e_ident_EIPAD: tuple.6,
            e_type: tuple.7,
            e_machine: tuple.8,
            e_version: tuple.9,
            e_entry: tuple.10,
            e_phoff: tuple.11,
            e_shoff: tuple.12,
            e_flags: tuple.13,
            e_ehsize: tuple.14,
            e_phentsize: tuple.15,
            e_phnum: tuple.16,
            e_shentsize: tuple.17,
            e_shnum: tuple.18,
            e_shstrndx: tuple.19,
        }
    }
}

impl SectionHeader32 {
    /// The header's field values in declaration order.
    pub fn into_tuple(self) -> (t: (u32, u32, u32, u32, u32, u32, u32, u32))
        ensures
            t == (
                self.p_type,
                self.p_offset,
                self.p_vaddr,
                self.p_paddr,
                self.p_filesz,
                self.p_memsz,
                self.p_flags,
                self.p_align,
            ),
    {
        (
            self.p_type,
            self.p_offset,
            self.p_vaddr,
            self.p_paddr,
            self.p_filesz,
            self.p_memsz,
            self.p_flags,
            self.p_align,
        )
    }

    /// The all-zero load-segment descriptor.
    pub fn default() -> (h: SectionHeader32)
        ensures
            h == (SectionHeader32 {
                p_type: 0u32,
                p_offset: 0u32,
                p_vaddr: 0u32,
                p_paddr: 0u32,
                p_filesz: 0u32,
                p_memsz: 0u32,
                p_flags: 0u32,
                p_align: 0u32,
            }),
    {
        SectionHeader32 {
            p_type: 0,
            p_offset: 0,
            p_vaddr: 0,
            p_paddr: 0,
            p_filesz: 0,
            p_memsz: 0,
            p_flags: 0,
            p_align: 0,
        }
    }

    /// Builds a descriptor from its field values in declaration order.
    pub fn from_tuple(tuple: (u32, u32, u32, u32, u32, u32, u32, u32)) -> (h: SectionHeader32)
        ensures
            h == (SectionHeader32 {
                p_type: tuple.0,
                p_offset: tuple.1,
                p_vaddr: tuple.2,
                p_paddr: tuple.3,
                p_filesz: tuple.4,
                p_memsz: tuple.5,
                p_flags: tuple.6,
                p_align: tuple.7,
            }),
    {
        SectionHeader32 {
            p_type: tuple.0,
            p_offset: tuple.1,
            p_vaddr: tuple.2,
            p_paddr: tuple.3,
            p_filesz: tuple.4,
            p_memsz: tuple.5,
            p_flags: tuple.6,
            p_align: tuple.7,
        }
    }
}

} // verus!
