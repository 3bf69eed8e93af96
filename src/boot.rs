//! The boot sequence up to the jump: the kernel file as read from the boot
//! volume, its parse, and the plan of its segments.
use vstd::prelude::*;
use crate::elf::{entry_field, parse_kernel, table_entries, well_formed};
use crate::segment::{LoadError, Placement};
use crate::walker::{load_kernel, plan_of, KernelImage, LoadPlan};

verus! {

/// Turns the outcome of reading the kernel file into a parsed image: no file
/// (absent, unreadable, or under another name) is `KernelNotFound`; a file
/// with a truncated or corrupt header or program-header table is
/// `InvalidKernelImage`; otherwise the image's entry address and table.
pub fn locate_kernel(file: Option<&[u8]>) -> (r: Result<KernelImage, LoadError>)
    ensures
        file is None ==> r == Err::<KernelImage, LoadError>(LoadError::KernelNotFound),
        file is Some && !well_formed(file->Some_0@) ==> r == Err::<KernelImage, LoadError>(
            LoadError::InvalidKernelImage,
        ),
        file is Some && r is Err ==> r->Err_0 == LoadError::InvalidKernelImage,
        r is Ok ==> file is Some && well_formed(file->Some_0@) && r->Ok_0.entry == entry_field(
            file->Some_0@,
        ) && r->Ok_0.segments@ == table_entries(file->Some_0@),
{
    match file {
        None => Err(LoadError::KernelNotFound),
        Some(bytes) => parse_kernel(bytes),
    }
}

/// Everything decided before memory is touched: the kernel is located and
/// parsed and its whole table is walked. Any failure comes back before the
/// first allocation, so a failed plan allocates nothing. A plan holds the
/// placements that the walk of the image's table gives, in table order, and
/// the image's declared entry address.
pub fn plan_boot(file: Option<&[u8]>) -> (r: Result<LoadPlan, LoadError>)
    ensures
        file is None ==> r == Err::<LoadPlan, LoadError>(LoadError::KernelNotFound),
        file is Some && !well_formed(file->Some_0@) ==> r == Err::<LoadPlan, LoadError>(
            LoadError::InvalidKernelImage,
        ),
        file is Some && r is Err ==> r->Err_0 == LoadError::InvalidKernelImage || plan_of(
            table_entries(file->Some_0@),
            file->Some_0@.len(),
        ) == Err::<Seq<Placement>, LoadError>(r->Err_0),
        r is Ok ==> file is Some && well_formed(file->Some_0@) && plan_of(
            table_entries(file->Some_0@),
            file->Some_0@.len(),
        ) == Ok::<Seq<Placement>, LoadError>(r->Ok_0.placements@) && r->Ok_0.entry == entry_field(
            file->Some_0@,
        ),
{
    let kernel = locate_kernel(file)?;
    match file {
        None => Err(LoadError::KernelNotFound),
        Some(bytes) => load_kernel(bytes, &kernel),
    }
}

} // verus!
