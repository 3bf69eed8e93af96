//! Segment materialization: how one program-header entry turns into a
//! physical page allocation and a byte copy.
use vstd::prelude::*;

verus! {

/// Size of one firmware page in bytes.
pub const PAGE_SIZE: u64 = 4096;

/// The type of a program-header entry. Only `Load` entries are placed in memory.
#[derive(Clone, Copy, Debug, PartialEq, Eq, Structural)]
pub enum SegmentType {
    Null,
    Load,
    Dynamic,
    Interp,
    Note,
    ShLib,
    Phdr,
    Tls,
    GnuRelro,
    OsSpecific(u32),
    ProcessorSpecific(u32),
}

/// Every way a boot attempt can fail.
#[derive(Clone, Copy, Debug, PartialEq, Eq, Structural)]
pub enum LoadError {
    PathEncodingError,
    KernelNotFound,
    InvalidKernelImage,
    MalformedProgramHeader,
    PageAllocationFailed,
    SegmentDataUnavailable,
}

/// One program-header entry, as plain values. `kind` is `None` when the
/// entry's type field holds no known segment type.
#[derive(Clone, Copy, Debug, PartialEq, Eq, Structural)]
pub struct SegmentHeader {
    pub kind: Option<SegmentType>,
    pub offset: u64,
    pub phys_addr: u64,
    pub file_size: u64,
    pub mem_size: u64,
}

/// What materializing one segment takes: allocate `pages` pages at exactly
/// `phys_addr`, copy `source_len` image bytes starting at `source_start` to
/// `phys_addr`, then clear the `zero_len` bytes that follow them.
#[derive(Clone, Copy, Debug, PartialEq, Eq, Structural)]
pub struct Placement {
    pub phys_addr: u64,
    pub pages: u64,
    pub source_start: usize,
    pub source_len: usize,
    pub zero_len: u64,
}

/// Whole pages needed to hold `mem_size` bytes: `ceil(mem_size / 4096)`.
pub open spec fn pages_needed(mem_size: nat) -> nat {
    (mem_size + 4095) / 4096
}

/// The entry's file-resident bytes lie inside an image of `image_len` bytes
/// and fit in its in-memory size.
pub open spec fn source_in_bounds(h: SegmentHeader, image_len: nat) -> bool {
    h.file_size <= h.mem_size && (h.file_size == 0 || h.offset + h.file_size <= image_len)
}

/// The file-resident bytes of an entry.
pub open spec fn segment_bytes(image: Seq<u8>, h: SegmentHeader) -> Seq<u8> {
    if h.file_size == 0 {
        Seq::empty()
    } else {
        image.subrange(h.offset as int, h.offset + h.file_size)
    }
}

/// The placement of a `Load` entry whose source is in bounds.
pub open spec fn placement_of(h: SegmentHeader) -> Placement {
    Placement {
        phys_addr: h.phys_addr,
        pages: pages_needed(h.mem_size as nat) as u64,
        source_start: if h.file_size == 0 { 0 } else { h.offset as usize },
        source_len: h.file_size as usize,
        zero_len: (h.mem_size - h.file_size) as u64,
    }
}

/// Materializing a `Load` entry: an error when its bytes are out of bounds,
/// nothing when it occupies no memory, else its placement.
pub open spec fn materialize(h: SegmentHeader, image_len: nat) -> Result<Option<Placement>, LoadError> {
    if !source_in_bounds(h, image_len) {
        Err(LoadError::SegmentDataUnavailable)
    } else if h.mem_size == 0 {
        Ok(None)
    } else {
        Ok(Some(placement_of(h)))
    }
}

/// Number of whole pages that hold `mem_size` bytes.
pub fn page_count(mem_size: u64) -> (r: u64)
    ensures
        r == pages_needed(mem_size as nat),
{
    let whole: u64 = mem_size / PAGE_SIZE;
    let rest: u64 = mem_size % PAGE_SIZE;
    assert(mem_size == whole * 4096 + rest) by (nonlinear_arith)
        requires whole == mem_size / 4096, rest == mem_size % 4096;
    assert(whole < 0x10000000000000);
    if rest == 0 {
        assert((mem_size + 4095) / 4096 == whole as int) by (nonlinear_arith)
            requires mem_size == whole * 4096;
        whole
    } else {
        assert((mem_size + 4095) / 4096 == whole + 1) by (nonlinear_arith)
            requires mem_size == whole * 4096 + rest, 0 < rest < 4096;
        whole + 1
    }
}

/// Plans the materialization of one `Load` entry of an image: the pages to
/// allocate at the entry's physical address and the bytes to copy there.
/// Bounds are checked before anything is allocated, so a corrupt offset or
/// size fails with `SegmentDataUnavailable` and touches no memory. An entry
/// with no in-memory size needs no allocation and is not an error.
pub fn process_load(image: &[u8], header: &SegmentHeader) -> (r: Result<Option<Placement>, LoadError>)
    requires
        header.kind == Some(SegmentType::Load),
    ensures
        r == materialize(*header, image@.len()),
{
    let len: usize = image.len();
    if header.file_size > header.mem_size {
        return Err(LoadError::SegmentDataUnavailable);
    }
    if header.file_size > 0 {
        if header.offset > len as u64 || header.file_size > len as u64 - header.offset {
            return Err(LoadError::SegmentDataUnavailable);
        }
    }
    if header.mem_size == 0 {
        return Ok(None);
    }
    let start: usize = if header.file_size == 0 { 0 } else { header.offset as usize };
    Ok(Some(Placement {
        phys_addr: header.phys_addr,
        pages: page_count(header.mem_size),
        source_start: start,
        source_len: header.file_size as usize,
        zero_len: header.mem_size - header.file_size,
    }))
}

impl Placement {
    /// The image bytes that this placement copies.
    pub fn source<'a>(&self, image: &'a [u8]) -> (r: &'a [u8])
        requires
            self.source_start + self.source_len <= image@.len(),
        ensures
            r@ == image@.subrange(self.source_start as int, self.source_start + self.source_len),
    {
        let image_len: usize = image.len();
        let end: usize = self.source_start + self.source_len;
        assert(end <= image_len);
        vstd::slice::slice_subrange(image, self.source_start, end)
    }
}

} // verus!
