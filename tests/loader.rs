use mloader::boot::{locate_kernel, plan_boot};
use mloader::elf::{parse_kernel, segment_type};
use mloader::path::{check_path_units, encode_path, kernel_file_name};
use mloader::segment::{page_count, process_load, LoadError, Placement, SegmentHeader, SegmentType};
use mloader::walker::{load_kernel, KernelImage};

/// A copy of some bytes that starts on an 8-byte boundary, as the buffers
/// the firmware hands out do.
struct Aligned {
    buf: Vec<u8>,
    start: usize,
    len: usize,
}

fn aligned(b: &[u8]) -> Aligned {
    let mut buf = vec![0u8; b.len() + 8];
    let start = buf.as_ptr().align_offset(8);
    buf[start..start + b.len()].copy_from_slice(b);
    Aligned { buf, start, len: b.len() }
}

impl std::ops::Deref for Aligned {
    type Target = [u8];
    fn deref(&self) -> &[u8] {
        &self.buf[self.start..self.start + self.len]
    }
}

impl std::ops::DerefMut for Aligned {
    fn deref_mut(&mut self) -> &mut [u8] {
        &mut self.buf[self.start..self.start + self.len]
    }
}

const PT_LOAD: u32 = 1;
const PT_NOTE: u32 = 4;

struct Ph {
    kind: u32,
    offset: u64,
    phys: u64,
    file_size: u64,
    mem_size: u64,
}

/// A little-endian 64-bit executable image with the given entries, whose
/// total length is `len`; byte `i` past the table holds `i % 251`.
fn elf64(entry: u64, phs: &[Ph], len: usize) -> Aligned {
    let mut b: Vec<u8> = (0..len).map(|i| (i % 251) as u8).collect();
    let table_end = 64 + 56 * phs.len();
    for x in b.iter_mut().take(table_end) {
        *x = 0;
    }
    b[0..4].copy_from_slice(&[0x7f, b'E', b'L', b'F']);
    b[4] = 2;
    b[5] = 1;
    b[6] = 1;
    b[16..18].copy_from_slice(&2u16.to_le_bytes());
    b[18..20].copy_from_slice(&0x3eu16.to_le_bytes());
    b[20..24].copy_from_slice(&1u32.to_le_bytes());
    b[24..32].copy_from_slice(&entry.to_le_bytes());
    b[32..40].copy_from_slice(&64u64.to_le_bytes());
    b[52..54].copy_from_slice(&64u16.to_le_bytes());
    b[54..56].copy_from_slice(&56u16.to_le_bytes());
    b[56..58].copy_from_slice(&(phs.len() as u16).to_le_bytes());
    for (i, ph) in phs.iter().enumerate() {
        let at = 64 + 56 * i;
        b[at..at + 4].copy_from_slice(&ph.kind.to_le_bytes());
        b[at + 8..at + 16].copy_from_slice(&ph.offset.to_le_bytes());
        b[at + 16..at + 24].copy_from_slice(&ph.phys.to_le_bytes());
        b[at + 24..at + 32].copy_from_slice(&ph.phys.to_le_bytes());
        b[at + 32..at + 40].copy_from_slice(&ph.file_size.to_le_bytes());
        b[at + 40..at + 48].copy_from_slice(&ph.mem_size.to_le_bytes());
        b[at + 48..at + 56].copy_from_slice(&0x1000u64.to_le_bytes());
    }
    aligned(&b)
}

fn load(offset: u64, phys: u64, file_size: u64, mem_size: u64) -> SegmentHeader {
    SegmentHeader { kind: Some(SegmentType::Load), offset, phys_addr: phys, file_size, mem_size }
}

fn two_segment_image() -> Aligned {
    elf64(
        0x100000,
        &[
            Ph { kind: PT_LOAD, offset: 0x1000, phys: 0x100000, file_size: 4096, mem_size: 4096 },
            Ph { kind: PT_LOAD, offset: 0x2000, phys: 0x200000, file_size: 10, mem_size: 4096 },
        ],
        0x200a,
    )
}

#[test]
fn page_count_rounds_up() {
    assert_eq!(page_count(0), 0);
    assert_eq!(page_count(1), 1);
    assert_eq!(page_count(4095), 1);
    assert_eq!(page_count(4096), 1);
    assert_eq!(page_count(4097), 2);
    assert_eq!(page_count(3 * 4096 + 5), 4);
    assert_eq!(page_count(u64::MAX), 1u64 << 52);
}

#[test]
fn process_load_plans_allocation_at_physical_address() {
    let image = vec![0u8; 0x3000];
    let r = process_load(&image, &load(0x1000, 0x400000, 0x1800, 0x2345)).unwrap().unwrap();
    assert_eq!(
        r,
        Placement { phys_addr: 0x400000, pages: 3, source_start: 0x1000, source_len: 0x1800, zero_len: 0xb45 }
    );
}

#[test]
fn process_load_rejects_source_outside_image() {
    let image = vec![0u8; 0x1000];
    assert_eq!(
        process_load(&image, &load(0x800, 0x100000, 0x801, 0x1000)),
        Err(LoadError::SegmentDataUnavailable)
    );
    assert_eq!(
        process_load(&image, &load(u64::MAX, 0x100000, 2, 0x1000)),
        Err(LoadError::SegmentDataUnavailable)
    );
    assert!(process_load(&image, &load(0x800, 0x100000, 0x800, 0x1000)).is_ok());
}

#[test]
fn process_load_rejects_file_larger_than_memory() {
    let image = vec![0u8; 0x1000];
    assert_eq!(
        process_load(&image, &load(0, 0x100000, 0x20, 0x10)),
        Err(LoadError::SegmentDataUnavailable)
    );
}

#[test]
fn zero_size_segment_is_not_an_error() {
    let image = vec![0u8; 16];
    assert_eq!(process_load(&image, &load(0x9999, 0x100000, 0, 0)), Ok(None));
    let kernel = KernelImage { entry: 7, segments: vec![load(0x9999, 0x100000, 0, 0)] };
    let plan = load_kernel(&image, &kernel).unwrap();
    assert!(plan.placements.is_empty());
    assert_eq!(plan.entry, 7);
}

#[test]
fn bss_only_segment_allocates_without_copy() {
    let image = vec![0u8; 16];
    let p = process_load(&image, &load(0x9999, 0x300000, 0, 0x2001)).unwrap().unwrap();
    assert_eq!(p.pages, 3);
    assert_eq!(p.source_len, 0);
    assert_eq!(p.zero_len, 0x2001);
    assert!(p.source(&image).is_empty());
}

#[test]
fn non_load_entries_are_skipped() {
    let image = vec![0u8; 0x100];
    let note = SegmentHeader {
        kind: Some(SegmentType::Note),
        offset: 0xffff_ffff,
        phys_addr: 0x500000,
        file_size: 0x10_0000,
        mem_size: 0x10_0000,
    };
    let kernel = KernelImage {
        entry: 0x100000,
        segments: vec![note, load(0x10, 0x100000, 0x20, 0x20), note],
    };
    let plan = load_kernel(&image, &kernel).unwrap();
    assert_eq!(plan.placements.len(), 1);
    assert_eq!(plan.placements[0].phys_addr, 0x100000);
}

#[test]
fn unknown_entry_type_is_malformed() {
    let image = vec![0u8; 0x100];
    let bad = SegmentHeader { kind: None, offset: 0, phys_addr: 0, file_size: 0, mem_size: 0 };
    let kernel = KernelImage { entry: 0, segments: vec![load(0, 0x100000, 0x10, 0x10), bad] };
    assert_eq!(load_kernel(&image, &kernel).err(), Some(LoadError::MalformedProgramHeader));
}

#[test]
fn walk_stops_at_first_error() {
    let image = vec![0u8; 0x100];
    let bad = SegmentHeader { kind: None, offset: 0, phys_addr: 0, file_size: 0, mem_size: 0 };
    let kernel = KernelImage { entry: 0, segments: vec![load(0x1000, 0x100000, 0x10, 0x10), bad] };
    assert_eq!(load_kernel(&image, &kernel).err(), Some(LoadError::SegmentDataUnavailable));
}

#[test]
fn parse_kernel_reads_table() {
    let image = elf64(
        0x100123,
        &[
            Ph { kind: PT_NOTE, offset: 0x200, phys: 0, file_size: 8, mem_size: 8 },
            Ph { kind: PT_LOAD, offset: 0x1000, phys: 0x100000, file_size: 0x30, mem_size: 0x1400 },
        ],
        0x1030,
    );
    let k = parse_kernel(&image).unwrap();
    assert_eq!(k.entry, 0x100123);
    assert_eq!(k.segments.len(), 2);
    assert_eq!(k.segments[0].kind, Some(SegmentType::Note));
    assert_eq!(k.segments[1], load(0x1000, 0x100000, 0x30, 0x1400));
}

#[test]
fn parse_kernel_marks_unknown_type() {
    let image = elf64(0, &[Ph { kind: 0x1234, offset: 0, phys: 0, file_size: 0, mem_size: 0 }], 0x100);
    let k = parse_kernel(&image).unwrap();
    assert_eq!(k.segments[0].kind, None);
    let plan = load_kernel(&image, &k);
    assert_eq!(plan.err(), Some(LoadError::MalformedProgramHeader));
}

#[test]
fn parse_kernel_rejects_table_outside_image() {
    let mut image = elf64(0, &[Ph { kind: PT_LOAD, offset: 0, phys: 0, file_size: 0, mem_size: 0 }], 0x78);
    image[56..58].copy_from_slice(&3u16.to_le_bytes());
    assert_eq!(parse_kernel(&image).err(), Some(LoadError::InvalidKernelImage));
}

#[test]
fn parse_kernel_rejects_misaligned_table() {
    let mut image = elf64(0, &[Ph { kind: PT_LOAD, offset: 0, phys: 0, file_size: 0, mem_size: 0 }], 0x100);
    image[32..40].copy_from_slice(&65u64.to_le_bytes());
    assert_eq!(parse_kernel(&image).err(), Some(LoadError::InvalidKernelImage));
}

#[test]
fn segment_type_names() {
    assert_eq!(segment_type(xmas_elf::program::Type::Load), SegmentType::Load);
    assert_eq!(segment_type(xmas_elf::program::Type::Tls), SegmentType::Tls);
    assert_eq!(segment_type(xmas_elf::program::Type::GnuRelro), SegmentType::GnuRelro);
    assert_eq!(
        segment_type(xmas_elf::program::Type::ProcessorSpecific(0x7000_0002)),
        SegmentType::ProcessorSpecific(0x7000_0002)
    );
    assert_eq!(
        segment_type(xmas_elf::program::Type::OsSpecific(0x6000_0001)),
        SegmentType::OsSpecific(0x6000_0001)
    );
}

#[test]
fn missing_kernel_is_not_found() {
    assert_eq!(locate_kernel(None).err(), Some(LoadError::KernelNotFound));
    assert_eq!(plan_boot(None).err(), Some(LoadError::KernelNotFound));
}

#[test]
fn truncated_kernel_is_invalid() {
    let image = two_segment_image();
    assert_eq!(plan_boot(Some(&image[..40])).err(), Some(LoadError::InvalidKernelImage));
    assert_eq!(plan_boot(Some(&image[..3])).err(), Some(LoadError::InvalidKernelImage));
    assert_eq!(plan_boot(Some(&[])).err(), Some(LoadError::InvalidKernelImage));
}

#[test]
fn kernel_truncated_inside_table_is_invalid() {
    let image = two_segment_image();
    assert_eq!(plan_boot(Some(&image[..100])).err(), Some(LoadError::InvalidKernelImage));
    assert_eq!(locate_kernel(Some(&image[..64 + 56])).err(), Some(LoadError::InvalidKernelImage));
    assert!(locate_kernel(Some(&image[..64 + 112])).is_ok());
}

#[test]
fn misaligned_image_is_refused_without_panic() {
    let mut v = vec![0u8];
    v.extend_from_slice(&two_segment_image());
    let buf = aligned(&v);
    assert_eq!(parse_kernel(&buf[1..]).err(), Some(LoadError::InvalidKernelImage));
}

#[test]
fn parse_kernel_reads_32_bit_table() {
    let mut b = vec![0u8; 0x200];
    b[0..4].copy_from_slice(&[0x7f, b'E', b'L', b'F']);
    b[4] = 1;
    b[5] = 1;
    b[24..28].copy_from_slice(&0x1234u32.to_le_bytes());
    b[28..32].copy_from_slice(&52u32.to_le_bytes());
    b[42..44].copy_from_slice(&32u16.to_le_bytes());
    b[44..46].copy_from_slice(&1u16.to_le_bytes());
    b[52..56].copy_from_slice(&PT_LOAD.to_le_bytes());
    b[56..60].copy_from_slice(&0x100u32.to_le_bytes());
    b[64..68].copy_from_slice(&0x8000u32.to_le_bytes());
    b[68..72].copy_from_slice(&0x20u32.to_le_bytes());
    b[72..76].copy_from_slice(&0x40u32.to_le_bytes());
    let k = parse_kernel(&aligned(&b)).unwrap();
    assert_eq!(k.entry, 0x1234);
    assert_eq!(k.segments, vec![load(0x100, 0x8000, 0x20, 0x40)]);
}

#[test]
fn corrupt_magic_is_invalid() {
    let mut image = two_segment_image();
    image[1] = b'X';
    assert_eq!(locate_kernel(Some(&image[..])).err(), Some(LoadError::InvalidKernelImage));
    let mut image = two_segment_image();
    image[4] = 3;
    assert_eq!(plan_boot(Some(&image[..])).err(), Some(LoadError::InvalidKernelImage));
}

#[test]
fn two_segment_boot_plan() {
    let image = two_segment_image();
    let plan = plan_boot(Some(&image[..])).unwrap();
    assert_eq!(plan.entry, 0x100000);
    assert_eq!(
        plan.placements,
        vec![
            Placement { phys_addr: 0x100000, pages: 1, source_start: 0x1000, source_len: 4096, zero_len: 0 },
            Placement { phys_addr: 0x200000, pages: 1, source_start: 0x2000, source_len: 10, zero_len: 4086 },
        ]
    );
    assert_eq!(plan.placements[0].source(&image), &image[0x1000..0x2000]);
    assert_eq!(plan.placements[1].source(&image), &image[0x2000..0x200a]);
}

#[test]
fn materialized_bytes_equal_file_bytes() {
    let image = two_segment_image();
    let plan = plan_boot(Some(&image[..])).unwrap();
    let mut memory = std::collections::BTreeMap::new();
    for p in &plan.placements {
        for (i, byte) in p.source(&image).iter().enumerate() {
            memory.insert(p.phys_addr + i as u64, *byte);
        }
        for i in 0..p.zero_len {
            memory.insert(p.phys_addr + p.source_len as u64 + i, 0u8);
        }
    }
    for i in 0..4096u64 {
        assert_eq!(memory[&(0x100000 + i)], image[0x1000 + i as usize]);
    }
    for i in 0..10u64 {
        assert_eq!(memory[&(0x200000 + i)], image[0x2000 + i as usize]);
    }
    assert_eq!(memory[&0x20000a], 0);
    assert_eq!(memory.len(), 2 * 4096);
}

#[test]
fn kernel_file_name_embeds_version() {
    assert_eq!(kernel_file_name("0.1.0"), "mkernel-0.1.0.elf");
    assert_eq!(kernel_file_name(""), "mkernel-.elf");
}

#[test]
fn encode_path_appends_nul() {
    assert_eq!(encode_path("mk-1.elf"), Ok(vec![0x6d, 0x6b, 0x2d, 0x31, 0x2e, 0x65, 0x6c, 0x66, 0]));
    assert_eq!(encode_path("é"), Ok(vec![0xe9, 0]));
    assert_eq!(encode_path(""), Ok(vec![0]));
}

#[test]
fn encode_path_rejects_non_ucs2() {
    assert_eq!(encode_path("k\u{1F600}.elf"), Err(LoadError::PathEncodingError));
    assert_eq!(encode_path("a\0b"), Err(LoadError::PathEncodingError));
}

#[test]
fn check_path_units_cases() {
    assert_eq!(check_path_units(vec![0x41, 0]), Ok(vec![0x41, 0]));
    assert_eq!(check_path_units(vec![0x41]), Err(LoadError::PathEncodingError));
    assert_eq!(check_path_units(vec![]), Err(LoadError::PathEncodingError));
    assert_eq!(check_path_units(vec![0xd800, 0]), Err(LoadError::PathEncodingError));
    assert_eq!(check_path_units(vec![0, 0]), Err(LoadError::PathEncodingError));
}
