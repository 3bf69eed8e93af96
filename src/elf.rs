//! Reading a kernel image's header and program-header table with `xmas_elf`.
use vstd::prelude::*;
use xmas_elf::program::Type;
use crate::segment::{LoadError, SegmentHeader, SegmentType};
use crate::walker::KernelImage;
use crate::elf_file::{open_elf, program_header_fields, slot_ok, word_aligned, ElfLayout, WordAligned};

verus! {

/// The four bytes every image starts with.
pub open spec fn elf_magic() -> Seq<u8> {
    seq![0x7fu8, 0x45u8, 0x4cu8, 0x46u8]
}

/// The image is long enough for its identification block and, for the class
/// that byte 4 names (1: 32-bit, 2: 64-bit), for the rest of the file header,
/// and it starts with the magic bytes.
pub open spec fn header_fits(b: Seq<u8>) -> bool {
    b.len() >= 16 && b.subrange(0, 4) == elf_magic() && ((b[4] == 1 && b.len() >= 52) || (b[4] == 2
        && b.len() >= 64))
}

/// The image has a 64-bit header.
pub open spec fn is_64_bit(b: Seq<u8>) -> bool {
    b[4] == 2
}

/// The little-endian 16-bit integer at byte `at`.
pub open spec fn le16(b: Seq<u8>, at: int) -> int {
    b[at] + b[at + 1] * 0x100
}

/// The little-endian 32-bit integer at byte `at`.
pub open spec fn le32(b: Seq<u8>, at: int) -> int {
    le16(b, at) + le16(b, at + 2) * 0x10000
}

/// The little-endian 64-bit integer at byte `at`.
pub open spec fn le64(b: Seq<u8>, at: int) -> int {
    le32(b, at) + le32(b, at + 4) * 0x1_0000_0000
}

/// The header's entry address.
pub open spec fn entry_field(b: Seq<u8>) -> u64 {
    (if is_64_bit(b) { le64(b, 24) } else { le32(b, 24) }) as u64
}

/// The header's offset of the program-header table.
pub open spec fn ph_offset_field(b: Seq<u8>) -> u64 {
    (if is_64_bit(b) { le64(b, 32) } else { le32(b, 28) }) as u64
}

/// The header's size of one program-header entry.
pub open spec fn ph_entry_size_field(b: Seq<u8>) -> u16 {
    (if is_64_bit(b) { le16(b, 54) } else { le16(b, 42) }) as u16
}

/// The header's number of program-header entries.
pub open spec fn ph_count_field(b: Seq<u8>) -> u16 {
    (if is_64_bit(b) { le16(b, 56) } else { le16(b, 44) }) as u16
}

/// Bytes that one program-header entry of the image's class occupies.
pub open spec fn entry_size_min(b: Seq<u8>) -> int {
    if is_64_bit(b) { 56 } else { 32 }
}

/// Alignment that a program-header entry of the image's class needs.
pub open spec fn entry_align(b: Seq<u8>) -> int {
    if is_64_bit(b) { 8 } else { 4 }
}

/// Where entry `i` of the table starts.
pub open spec fn entry_start(b: Seq<u8>, i: int) -> int {
    ph_offset_field(b) + i * ph_entry_size_field(b)
}

/// Entry `i` of the table is aligned and lies inside the image.
pub open spec fn entry_fits(b: Seq<u8>, i: int) -> bool {
    entry_start(b, i) % entry_align(b) == 0 && entry_start(b, i) + ph_entry_size_field(b) <= b.len()
}

/// The declared program-header table lies inside the image, with entries
/// long enough and aligned for the image's class.
pub open spec fn table_fits(b: Seq<u8>) -> bool {
    ph_count_field(b) == 0 || (ph_offset_field(b) > 0 && ph_entry_size_field(b) >= entry_size_min(b)
        && forall|i: int| 0 <= i < ph_count_field(b) ==> #[trigger] entry_fits(b, i))
}

/// The image has a complete header and a complete program-header table.
pub open spec fn well_formed(b: Seq<u8>) -> bool {
    header_fits(b) && table_fits(b)
}

/// The segment type that a raw type field denotes, if any.
pub open spec fn type_of_raw(v: u32) -> Option<SegmentType> {
    if v == 0 {
        Some(SegmentType::Null)
    } else if v == 1 {
        Some(SegmentType::Load)
    } else if v == 2 {
        Some(SegmentType::Dynamic)
    } else if v == 3 {
        Some(SegmentType::Interp)
    } else if v == 4 {
        Some(SegmentType::Note)
    } else if v == 5 {
        Some(SegmentType::ShLib)
    } else if v == 6 {
        Some(SegmentType::Phdr)
    } else if v == 7 {
        Some(SegmentType::Tls)
    } else if v == 0x6474e552 {
        Some(SegmentType::GnuRelro)
    } else if 0x6000_0000 <= v <= 0x6fff_ffff {
        Some(SegmentType::OsSpecific(v))
    } else if 0x7000_0000 <= v <= 0x7fff_ffff {
        Some(SegmentType::ProcessorSpecific(v))
    } else {
        None
    }
}

/// Entry `i` of the table, as plain values.
pub open spec fn entry_of(b: Seq<u8>, i: int) -> SegmentHeader {
    let s = entry_start(b, i);
    if is_64_bit(b) {
        SegmentHeader {
            kind: type_of_raw(le32(b, s) as u32),
            offset: le64(b, s + 8) as u64,
            phys_addr: le64(b, s + 24) as u64,
            file_size: le64(b, s + 32) as u64,
            mem_size: le64(b, s + 40) as u64,
        }
    } else {
        SegmentHeader {
            kind: type_of_raw(le32(b, s) as u32),
            offset: le32(b, s + 4) as u64,
            phys_addr: le32(b, s + 12) as u64,
            file_size: le32(b, s + 16) as u64,
            mem_size: le32(b, s + 20) as u64,
        }
    }
}

/// All entries of the declared table, in table order.
pub open spec fn table_entries(b: Seq<u8>) -> Seq<SegmentHeader> {
    Seq::new(ph_count_field(b) as nat, |i: int| entry_of(b, i))
}

/// The library's name for each `xmas_elf` segment type.
pub open spec fn spec_segment_type(t: Type) -> SegmentType {
    match t {
        Type::Null => SegmentType::Null,
        Type::Load => SegmentType::Load,
        Type::Dynamic => SegmentType::Dynamic,
        Type::Interp => SegmentType::Interp,
        Type::Note => SegmentType::Note,
        Type::ShLib => SegmentType::ShLib,
        Type::Phdr => SegmentType::Phdr,
        Type::Tls => SegmentType::Tls,
        Type::GnuRelro => SegmentType::GnuRelro,
        Type::OsSpecific(v) => SegmentType::OsSpecific(v),
        Type::ProcessorSpecific(v) => SegmentType::ProcessorSpecific(v),
    }
}


/// The library's name for a segment type.
pub fn segment_type(t: Type) -> (r: SegmentType)
    ensures
        r == spec_segment_type(t),
{
    match t {
        Type::Null => SegmentType::Null,
        Type::Load => SegmentType::Load,
        Type::Dynamic => SegmentType::Dynamic,
        Type::Interp => SegmentType::Interp,
        Type::Note => SegmentType::Note,
        Type::ShLib => SegmentType::ShLib,
        Type::Phdr => SegmentType::Phdr,
        Type::Tls => SegmentType::Tls,
        Type::GnuRelro => SegmentType::GnuRelro,
        Type::OsSpecific(v) => SegmentType::OsSpecific(v),
        Type::ProcessorSpecific(v) => SegmentType::ProcessorSpecific(v),
    }
}

/// Reads entry `index` of the table into plain values; an unknown type
/// becomes `kind == None`.
fn read_entry(e: &ElfLayout, index: u16) -> (r: SegmentHeader)
    requires
        slot_ok(*e, index),
    ensures
        r == entry_of(e.input_bytes(), index as int),
{
    let f = program_header_fields(e, index);
    let f = match f {
        Ok(f) => f,
        Err(_) => {
            assert(false);
            return SegmentHeader { kind: None, offset: 0, phys_addr: 0, file_size: 0, mem_size: 0 };
        },
    };
    let kind = match f.kind {
        Ok(t) => Some(segment_type(t)),
        Err(_) => None,
    };
    SegmentHeader {
        kind,
        offset: f.offset,
        phys_addr: f.phys_addr,
        file_size: f.file_size,
        mem_size: f.mem_size,
    }
}

/// Reads an aligned image: its entry address and its program-header entries
/// in table order. Succeeds exactly on a well-formed image.
pub(crate) fn read_image(a: WordAligned) -> (r: Result<KernelImage, LoadError>)
    ensures
        r is Ok <==> well_formed(a.bytes_view()),
        r is Err ==> r->Err_0 == LoadError::InvalidKernelImage,
        r is Ok ==> r->Ok_0.entry == entry_field(a.bytes_view()) && r->Ok_0.segments@ == table_entries(a.bytes_view()),
{
    let bytes = a.bytes();
    let e = match open_elf(a) {
        Ok(e) => e,
        Err(_) => return Err(LoadError::InvalidKernelImage),
    };
    let wide: bool = bytes[4] == 2;
    let size: u64 = if wide { 56 } else { 32 };
    let align: u64 = if wide { 8 } else { 4 };
    let len: u64 = bytes.len() as u64;
    let entry: u64 = e.entry();
    let ph_offset: u64 = e.ph_offset();
    let ph_count: u16 = e.ph_count();
    let entry_size: u64 = e.ph_entry_size() as u64;
    let mut segments: Vec<SegmentHeader> = Vec::new();
    let mut i: u16 = 0;
    while i < ph_count
        invariant
            e.input_bytes() == bytes@,
            e.wf(),
            bytes@ == a.bytes_view(),
            header_fits(bytes@),
            entry == entry_field(bytes@),
            ph_offset == ph_offset_field(bytes@),
            ph_count == ph_count_field(bytes@),
            wide == is_64_bit(bytes@),
            size == entry_size_min(bytes@),
            align == entry_align(bytes@),
            len == bytes@.len(),
            entry_size == ph_entry_size_field(bytes@),
            i <= ph_count,
            i > 0 ==> ph_offset > 0 && entry_size >= size,
            forall|j: int| 0 <= j < i ==> #[trigger] entry_fits(bytes@, j),
            segments@ =~= table_entries(bytes@).subrange(0, i as int),
        decreases ph_count - i,
    {
        if ph_offset == 0 || entry_size < size || ph_offset > len {
            proof {
                if ph_offset > 0 && entry_size >= size {
                    assert(i * entry_size >= 0) by (nonlinear_arith)
                        requires i >= 0, entry_size >= 0;
                    assert(!entry_fits(bytes@, i as int));
                }
                assert(!table_fits(bytes@));
            }
            return Err(LoadError::InvalidKernelImage);
        }
        let index: u64 = i as u64;
        assert(index * entry_size <= 0xffff * 0xffff) by (nonlinear_arith)
            requires index <= 0xffff, entry_size <= 0xffff;
        let step: u64 = index * entry_size;
        if step > len - ph_offset {
            assert(!entry_fits(bytes@, i as int));
            assert(!table_fits(bytes@));
            return Err(LoadError::InvalidKernelImage);
        }
        let start: u64 = ph_offset + step;
        if start % align != 0 || entry_size > len - start {
            assert(!entry_fits(bytes@, i as int));
            assert(!table_fits(bytes@));
            return Err(LoadError::InvalidKernelImage);
        }
        assert(entry_fits(bytes@, i as int));
        let h = read_entry(&e, i);
        segments.push(h);
        i = i + 1;
    }
    assert(segments@ =~= table_entries(bytes@));
    Ok(KernelImage { entry, segments })
}

/// Parses a kernel image: its entry address and its program-header entries
/// in table order, with the fields read little-endian. Fails with
/// `InvalidKernelImage` when the file header is truncated, lacks the magic
/// bytes or names no known class, or when the declared program-header table
/// runs past the end of the file or has entries too short or misaligned for
/// its class. An image that does not start on an 8-byte boundary in memory
/// cannot be read and fails the same way.
pub fn parse_kernel(bytes: &[u8]) -> (r: Result<KernelImage, LoadError>)
    ensures
        !well_formed(bytes@) ==> r == Err::<KernelImage, LoadError>(LoadError::InvalidKernelImage),
        r is Err ==> r->Err_0 == LoadError::InvalidKernelImage,
        r is Ok ==> well_formed(bytes@) && r->Ok_0.entry == entry_field(bytes@)
            && r->Ok_0.segments@ == table_entries(bytes@),
{
    match word_aligned(bytes) {
        Some(a) => read_image(a),
        None => Err(LoadError::InvalidKernelImage),
    }
}

} // verus!
