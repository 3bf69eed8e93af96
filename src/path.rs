//! The kernel's file name and its encoding for the firmware's file system.
use vstd::prelude::*;
use uefi::CStr16;
use crate::segment::LoadError;

verus! {

/// The UTF-16 code units of one character: the character's code when it is
/// below 0x10000, else a surrogate pair.
pub open spec fn utf16_of_char(c: char) -> Seq<u16> {
    let v = c as u32;
    if v < 0x10000 {
        seq![v as u16]
    } else {
        let w = v - 0x10000;
        seq![(0xd800 + w / 0x400) as u16, (0xdc00 + w % 0x400) as u16]
    }
}

/// The UTF-16 code units of a string, character after character.
pub open spec fn utf16_of(s: Seq<char>) -> Seq<u16>
    decreases s.len(),
{
    if s.len() == 0 {
        Seq::empty()
    } else {
        utf16_of(s.drop_last()) + utf16_of_char(s.last())
    }
}

/// A character outside UCS-2 or the NUL character: it cannot stand in a
/// firmware path.
pub open spec fn bad_path_char(c: char) -> bool {
    c as u32 >= 0x10000 || c as u32 == 0
}

/// Relies on `str::encode_utf16`: the string's UTF-16 code units.
#[verifier::external_body]
fn utf16_units(s: &str) -> (r: Vec<u16>)
    ensures
        r@ == utf16_of(s@),
{
    s.encode_utf16().collect()
}

/// A unit that is half of a UTF-16 surrogate pair, which UCS-2 lacks.
pub open spec fn is_surrogate(u: u16) -> bool {
    0xd800 <= u <= 0xdfff
}

/// Units the firmware accepts as a path: UCS-2, ending in the one NUL unit.
pub open spec fn is_ucs2_path(units: Seq<u16>) -> bool {
    &&& units.len() > 0
    &&& units.last() == 0
    &&& forall|i: int| 0 <= i < units.len() - 1 ==> units[i] != 0
    &&& forall|i: int| 0 <= i < units.len() ==> !is_surrogate(#[trigger] units[i])
}

/// Relies on `CStr16::from_u16_with_nul`, which accepts exactly the slices
/// whose first NUL unit is the last unit and whose units before it are valid
/// UCS-2 characters (no surrogate halves).
#[verifier::external_body]
fn is_cstr16(units: &[u16]) -> (r: bool)
    ensures
        r == is_ucs2_path(units@),
{
    CStr16::from_u16_with_nul(units).is_ok()
}

/// The kernel file's name for a boot loader of the given build version:
/// `mkernel-<version>.elf`.
pub fn kernel_file_name(version: &str) -> (r: String)
    ensures
        r@ == "mkernel-"@ + version@ + ".elf"@,
{
    String::from_str("mkernel-").concat(version).concat(".elf")
}

/// Accepts units that the firmware takes as a path, and fails with
/// `PathEncodingError` otherwise.
pub fn check_path_units(units: Vec<u16>) -> (r: Result<Vec<u16>, LoadError>)
    ensures
        is_ucs2_path(units@) ==> r == Ok::<Vec<u16>, LoadError>(units),
        !is_ucs2_path(units@) ==> r == Err::<Vec<u16>, LoadError>(LoadError::PathEncodingError),
{
    if is_cstr16(units.as_slice()) {
        Ok(units)
    } else {
        Err(LoadError::PathEncodingError)
    }
}

/// A name encodes to a firmware path exactly when none of its characters is
/// outside UCS-2 or NUL; then each character gives the one unit of its code.
pub proof fn lemma_path_encodes(s: Seq<char>)
    ensures
        is_ucs2_path(utf16_of(s).push(0)) <==> forall|i: int| 0 <= i < s.len() ==> !bad_path_char(
            #[trigger] s[i],
        ),
        (forall|i: int| 0 <= i < s.len() ==> !bad_path_char(#[trigger] s[i])) ==> utf16_of(s)
            == s.map_values(|c: char| (c as u32) as u16),
    decreases s.len(),
{
    let t = utf16_of(s).push(0);
    if s.len() == 0 {
        assert(t =~= seq![0u16]);
    } else {
        let p = s.drop_last();
        let c = s.last();
        lemma_path_encodes(p);
        let tp = utf16_of(p).push(0);
        let u = utf16_of(p);
        assert(t =~= u + utf16_of_char(c) + seq![0u16]);
        assert(tp =~= u + seq![0u16]);
        if forall|i: int| 0 <= i < s.len() ==> !bad_path_char(#[trigger] s[i]) {
            assert forall|i: int| 0 <= i < p.len() implies !bad_path_char(#[trigger] p[i]) by {
                assert(p[i] == s[i]);
            }
            assert(!bad_path_char(s[s.len() - 1]));
            assert(utf16_of_char(c) =~= seq![(c as u32) as u16]);
            vstd::utf8::char_is_scalar(c);
            assert((c as u32) < 0xd800 || (c as u32) >= 0xe000);
            assert(utf16_of(s) =~= s.map_values(|c: char| (c as u32) as u16));
            assert(is_ucs2_path(t)) by {
                assert forall|i: int| 0 <= i < t.len() - 1 implies t[i] != 0 by {
                    if i < u.len() {
                        assert(t[i] == tp[i]);
                    }
                }
                assert forall|i: int| 0 <= i < t.len() implies !is_surrogate(#[trigger] t[i]) by {
                    if i < u.len() {
                        assert(t[i] == tp[i]);
                    }
                }
            }
        } else {
            let k = choose|i: int| 0 <= i < s.len() && bad_path_char(#[trigger] s[i]);
            if k < p.len() {
                assert(p[k] == s[k]);
                if is_ucs2_path(t) {
                    assert forall|i: int| 0 <= i < tp.len() - 1 implies tp[i] != 0 by {
                        assert(tp[i] == t[i]);
                    }
                    assert forall|i: int| 0 <= i < tp.len() implies !is_surrogate(#[trigger] tp[i]) by {
                        if i < u.len() {
                            assert(tp[i] == t[i]);
                        }
                    }
                }
            } else {
                assert(bad_path_char(c));
                let v = c as u32;
                if v == 0 {
                    assert(t[u.len() as int] == 0);
                } else {
                    vstd::utf8::char_is_scalar(c);
                    assert((v - 0x10000) / 0x400 <= 0x3ff);
                    assert(t[u.len() as int] == (0xd800 + (v - 0x10000) / 0x400) as u16);
                    assert(is_surrogate(t[u.len() as int]));
                }
            }
        }
    }
}

/// Encodes a file name as the firmware's NUL-terminated UCS-2 path, or fails
/// with `PathEncodingError` when the name has a character outside UCS-2 or a
/// NUL character.
pub fn encode_path(name: &str) -> (r: Result<Vec<u16>, LoadError>)
    ensures
        (forall|i: int| 0 <= i < name@.len() ==> !bad_path_char(#[trigger] name@[i])) ==> r
            == Ok::<Vec<u16>, LoadError>(r->Ok_0) && r->Ok_0@ == name@.map_values(|c: char| (c as u32) as u16).push(0),
        (exists|i: int| 0 <= i < name@.len() && bad_path_char(#[trigger] name@[i])) ==> r
            == Err::<Vec<u16>, LoadError>(LoadError::PathEncodingError),
        is_ucs2_path(utf16_of(name@).push(0)) ==> r is Ok && r->Ok_0@ == utf16_of(name@).push(0),
        !is_ucs2_path(utf16_of(name@).push(0)) ==> r == Err::<Vec<u16>, LoadError>(
            LoadError::PathEncodingError,
        ),
{
    proof {
        lemma_path_encodes(name@);
    }
    let mut units = utf16_units(name);
    units.push(0);
    check_path_units(units)
}

} // verus!
