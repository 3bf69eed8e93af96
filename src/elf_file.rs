//! The `xmas_elf` values the library holds, and the calls that make them.
//! The fields of the types here are private to this module, so each value
//! comes from the call that its contract describes.
use vstd::prelude::*;
use xmas_elf::program::{ProgramHeader, Type};
use xmas_elf::ElfFile;
use crate::elf::{
    entry_field, entry_fits, entry_of, entry_size_min, header_fits, ph_count_field,
    ph_entry_size_field, ph_offset_field, spec_segment_type,
};

verus! {

#[verifier::external_type_specification]
#[verifier::external_body]
pub struct ExElfFile<'a>(ElfFile<'a>);

#[verifier::external_type_specification]
#[verifier::external_body]
pub struct ExProgramHeader<'a>(ProgramHeader<'a>);

#[verifier::external_type_specification]
pub struct ExType(Type);

/// An image slice that starts on an 8-byte boundary. Its field is private
/// to this module, where only `word_aligned` builds it.
pub(crate) struct WordAligned<'a> {
    bytes: &'a [u8],
}

impl<'a> WordAligned<'a> {
    /// The bytes of the slice.
    pub(crate) closed spec fn bytes_view(&self) -> Seq<u8> {
        self.bytes@
    }

    /// The slice itself.
    pub(crate) fn bytes(&self) -> (r: &'a [u8])
        ensures
            r@ == self.bytes_view(),
    {
        self.bytes
    }
}

/// Relies on `pointer::is_aligned`: whether the slice starts on an 8-byte
/// boundary, as `ElfFile::new` asserts before it reads the second part of a
/// header. The answer depends on where the slice lies in memory.
#[verifier::external_body]
pub(crate) fn word_aligned<'a>(b: &'a [u8]) -> (r: Option<WordAligned<'a>>)
    ensures
        r is Some ==> r->Some_0.bytes_view() == b@,
{
    b.as_ptr().cast::<u64>().is_aligned().then_some(WordAligned { bytes: b })
}

/// An opened image, its input, and the header fields the walk reads. Its
/// fields are private to this module, where only `open_elf` builds it, so
/// `file` is always the image opened from `input`.
pub(crate) struct ElfLayout<'a> {
    file: ElfFile<'a>,
    input: &'a [u8],
    entry: u64,
    ph_offset: u64,
    ph_entry_size: u16,
    ph_count: u16,
}

impl<'a> ElfLayout<'a> {
    /// The bytes the image was opened from.
    pub(crate) closed spec fn input_bytes(&self) -> Seq<u8> {
        self.input@
    }

    /// The header fields kept are those of the input.
    pub(crate) closed spec fn wf(&self) -> bool {
        &&& header_fits(self.input@)
        &&& self.entry == entry_field(self.input@)
        &&& self.ph_offset == ph_offset_field(self.input@)
        &&& self.ph_entry_size == ph_entry_size_field(self.input@)
        &&& self.ph_count == ph_count_field(self.input@)
    }

    /// The header's entry address.
    pub(crate) fn entry(&self) -> (r: u64)
        requires
            self.wf(),
        ensures
            r == entry_field(self.input_bytes()),
    {
        self.entry
    }

    /// The header's program-header table offset.
    pub(crate) fn ph_offset(&self) -> (r: u64)
        requires
            self.wf(),
        ensures
            r == ph_offset_field(self.input_bytes()),
    {
        self.ph_offset
    }

    /// The header's program-header entry size.
    pub(crate) fn ph_entry_size(&self) -> (r: u16)
        requires
            self.wf(),
        ensures
            r == ph_entry_size_field(self.input_bytes()),
    {
        self.ph_entry_size
    }

    /// The header's number of program-header entries.
    pub(crate) fn ph_count(&self) -> (r: u16)
        requires
            self.wf(),
        ensures
            r == ph_count_field(self.input_bytes()),
    {
        self.ph_count
    }
}

/// Relies on `ElfFile::new`, which fails exactly when the input is shorter
/// than the identification block, lacks the magic bytes, names no known
/// class, or is shorter than the header of that class; and on the header
/// getters `entry_point`, `ph_offset`, `ph_entry_size` and `ph_count`, which
/// read the header fields in the machine's byte order (little-endian on the
/// machines this loader runs on). The input is 8-byte aligned, so the
/// alignment assertion in `ElfFile::new` holds.
#[verifier::external_body]
pub(crate) fn open_elf<'a>(a: WordAligned<'a>) -> (r: Result<ElfLayout<'a>, &'static str>)
    ensures
        r is Ok <==> header_fits(a.bytes_view()),
        r is Ok ==> r->Ok_0.input_bytes() == a.bytes_view() && r->Ok_0.wf(),
{
    match ElfFile::new(a.bytes) {
        Ok(file) => {
            let pt2 = file.header.pt2;
            Ok(ElfLayout {
                entry: pt2.entry_point(),
                ph_offset: pt2.ph_offset(),
                ph_entry_size: pt2.ph_entry_size(),
                ph_count: pt2.ph_count(),
                input: file.input,
                file,
            })
        },
        Err(e) => Err(e),
    }
}

/// The fields of one program-header entry as `xmas_elf` reads them.
pub(crate) struct EntryFields {
    pub(crate) kind: Result<Type, &'static str>,
    pub(crate) offset: u64,
    pub(crate) phys_addr: u64,
    pub(crate) file_size: u64,
    pub(crate) mem_size: u64,
}

/// Entry `index` of the table lies inside the input, is aligned and long
/// enough for the entry type of the image's class.
pub(crate) open spec fn slot_ok(e: ElfLayout, index: u16) -> bool {
    &&& e.wf()
    &&& header_fits(e.input_bytes())
    &&& index < ph_count_field(e.input_bytes())
    &&& ph_offset_field(e.input_bytes()) > 0
    &&& ph_entry_size_field(e.input_bytes()) >= entry_size_min(e.input_bytes())
    &&& entry_fits(e.input_bytes(), index as int)
}

/// Relies on `ElfFile::program_header`, which succeeds for an index below the
/// header's count when the table offset and entry size are nonzero, slicing
/// the entry out of the input (`slot_ok` keeps the slice in range, long
/// enough and aligned); and on `ProgramHeader::get_type` and the getters
/// `offset`, `physical_addr`, `file_size` and `mem_size`, which read the
/// entry's fields in the machine's byte order (little-endian here).
/// `get_type` fails exactly on a type value that names no segment type.
#[verifier::external_body]
pub(crate) fn program_header_fields(e: &ElfLayout, index: u16) -> (r: Result<EntryFields, &'static str>)
    requires
        slot_ok(*e, index),
    ensures
        r is Ok,
        r is Ok ==> ({
            let f = r->Ok_0;
            let h = entry_of(e.input_bytes(), index as int);
            &&& f.offset == h.offset
            &&& f.phys_addr == h.phys_addr
            &&& f.file_size == h.file_size
            &&& f.mem_size == h.mem_size
            &&& match f.kind {
                Ok(t) => h.kind == Some(spec_segment_type(t)),
                Err(_) => h.kind is None,
            }
        }),
{
    match e.file.program_header(index) {
        Ok(ph) => Ok(EntryFields {
            kind: ph.get_type(),
            offset: ph.offset(),
            phys_addr: ph.physical_addr(),
            file_size: ph.file_size(),
            mem_size: ph.mem_size(),
        }),
        Err(err) => Err(err),
    }
}

} // verus!
