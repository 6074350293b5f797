//! Planning the load of a user program from an ELF64 image: which bytes of
//! the file go to which addresses, checked against the user code window.

use vstd::prelude::*;
use crate::threads::{USER_CODE_END, USER_CODE_START};

verus! {

/// Program-header type of a loadable segment.
pub const PT_LOAD: u32 = 1;

/// The program-header fields the loader reads.
#[derive(Clone, Copy, Debug, PartialEq, Eq, Structural)]
pub struct ProgramHeader {
    pub p_type: u32,
    pub p_offset: u64,
    pub p_vaddr: u64,
    pub p_filesz: u64,
    pub p_memsz: u64,
}

/// A header as plain values: type, file offset, address, file size, memory size.
pub open spec fn header_values(h: ProgramHeader) -> (u32, u64, u64, u64, u64) {
    (h.p_type, h.p_offset, h.p_vaddr, h.p_filesz, h.p_memsz)
}

/// The entry point and program headers of a parsed image.
pub struct ElfImage {
    pub entry: u64,
    pub headers: Vec<ProgramHeader>,
}

/// The entry point and program headers that the `elf` crate reads from an
/// image, or `None` where it finds no valid header or no program-header table.
pub uninterp spec fn elf_image_of(b: Seq<u8>) -> Option<(u64, Seq<(u32, u64, u64, u64, u64)>)>;

/// Relies on the `elf` crate: `ElfBytes::minimal_parse` reads the file header
/// and locates the program-header table, `ElfBytes::segments` hands that table
/// out (`None` when the file has none) and its iterator parses each header.
#[verifier::external_body]
fn parse_elf(bin: &[u8]) -> (r: Option<ElfImage>)
    ensures
        match r {
            Some(img) => elf_image_of(bin@) == Some((img.entry, img.headers@.map_values(|h| header_values(h)))),
            None => elf_image_of(bin@) is None,
        },
{
    let file = elf::ElfBytes::<elf::endian::AnyEndian>::minimal_parse(bin).ok()?;
    let table = file.segments()?;
    let headers = table.iter().map(
        |ph| ProgramHeader {
            p_type: ph.p_type,
            p_offset: ph.p_offset,
            p_vaddr: ph.p_vaddr,
            p_filesz: ph.p_filesz,
            p_memsz: ph.p_memsz,
        },
    ).collect();
    Some(ElfImage { entry: file.ehdr.e_entry, headers })
}

/// Why a user program cannot be started.
#[derive(Clone, Copy, Debug, PartialEq, Eq, Structural)]
pub enum LoadError {
    /// The image does not start with the ELF magic bytes.
    InvalidElf,
    /// The image is not a well-formed ELF file, or a segment's file bytes lie
    /// outside it or exceed its memory size.
    Malformed,
    /// A loadable segment lies outside the user code window.
    OutOfRange,
    /// No physical memory was left for the program.
    OutOfMemory,
}

impl LoadError {
    /// The message that describes the error.
    pub fn message(&self) -> (r: &'static str)
        ensures
            r@ == error_text(*self),
    {
        proof {
            reveal_strlit("Invalid ELF file");
            reveal_strlit("Could not parse ELF file");
            reveal_strlit("ELF segment outside allowed range");
            reveal_strlit("Could not allocate memory");
        }
        match self {
            LoadError::InvalidElf => "Invalid ELF file",
            LoadError::Malformed => "Could not parse ELF file",
            LoadError::OutOfRange => "ELF segment outside allowed range",
            LoadError::OutOfMemory => "Could not allocate memory",
        }
    }
}

pub open spec fn error_text(e: LoadError) -> Seq<char> {
    match e {
        LoadError::InvalidElf => "Invalid ELF file"@,
        LoadError::Malformed => "Could not parse ELF file"@,
        LoadError::OutOfRange => "ELF segment outside allowed range"@,
        LoadError::OutOfMemory => "Could not allocate memory"@,
    }
}

/// One loadable segment: `file_size` bytes from `file_offset` of the image
/// go to `vaddr`, and `mem_size` bytes from `vaddr` are mapped.
#[derive(Clone, Copy, Debug, PartialEq, Eq, Structural)]
pub struct LoadSegment {
    pub vaddr: u64,
    pub mem_size: u64,
    pub file_offset: u64,
    pub file_size: u64,
}

/// What a program needs to start: its entry point and its loadable segments.
pub struct LoadPlan {
    pub entry: u64,
    pub segments: Vec<LoadSegment>,
}

/// The image starts with `7F 'E' 'L' 'F'`.
pub open spec fn has_elf_magic(b: Seq<u8>) -> bool {
    b.len() >= 4 && b[0] == 0x7f && b[1] == 0x45 && b[2] == 0x4c && b[3] == 0x46
}

/// `[vaddr, vaddr + mem_size)` lies within `[USER_CODE_START, USER_CODE_END)`.
pub open spec fn in_code_window(vaddr: u64, mem_size: u64) -> bool {
    USER_CODE_START <= vaddr && vaddr + mem_size <= USER_CODE_END
}

/// The segment's file bytes lie in an image of `len` bytes and fit its memory size.
pub open spec fn file_part_fits(h: (u32, u64, u64, u64, u64), len: int) -> bool {
    h.1 + h.3 <= len && h.3 <= h.4
}

pub open spec fn segment_of(h: (u32, u64, u64, u64, u64)) -> LoadSegment {
    LoadSegment { vaddr: h.2, mem_size: h.4, file_offset: h.1, file_size: h.3 }
}

/// The loadable segments of headers `hs` of an image of `len` bytes, in order,
/// or the error of the first header that is refused.
pub open spec fn plan_segments(hs: Seq<(u32, u64, u64, u64, u64)>, len: int) -> Result<Seq<LoadSegment>, LoadError>
    decreases hs.len(),
{
    if hs.len() == 0 {
        Ok(Seq::empty())
    } else {
        match plan_segments(hs.drop_last(), len) {
            Err(e) => Err(e),
            Ok(s) => {
                let h = hs.last();
                if h.0 != PT_LOAD {
                    Ok(s)
                } else if !in_code_window(h.2, h.4) {
                    Err(LoadError::OutOfRange)
                } else if !file_part_fits(h, len) {
                    Err(LoadError::Malformed)
                } else {
                    Ok(s.push(segment_of(h)))
                }
            },
        }
    }
}

/// The plan for an image, or why it cannot be loaded.
pub open spec fn plan_of(b: Seq<u8>) -> Result<(u64, Seq<LoadSegment>), LoadError> {
    if !has_elf_magic(b) {
        Err(LoadError::InvalidElf)
    } else {
        match elf_image_of(b) {
            None => Err(LoadError::Malformed),
            Some((entry, hs)) => match plan_segments(hs, b.len() as int) {
                Ok(s) => Ok((entry, s)),
                Err(e) => Err(e),
            },
        }
    }
}

/// Checks the program headers of an image of `file_len` bytes and collects
/// its loadable segments.
pub fn check_segments(entry: u64, headers: &Vec<ProgramHeader>, file_len: u64) -> (r: Result<LoadPlan, LoadError>)
    ensures
        match r {
            Ok(p) => p.entry == entry && plan_segments(headers@.map_values(|h| header_values(h)), file_len as int)
                == Ok::<Seq<LoadSegment>, LoadError>(p.segments@),
            Err(e) => plan_segments(headers@.map_values(|h| header_values(h)), file_len as int) == Err::<
                Seq<LoadSegment>,
                LoadError,
            >(e),
        },
{
    let ghost hs = headers@.map_values(|h| header_values(h));
    let mut segments: Vec<LoadSegment> = Vec::new();
    let mut i: usize = 0;
    while i < headers.len()
        invariant
            i <= headers@.len(),
            hs == headers@.map_values(|h| header_values(h)),
            plan_segments(hs.subrange(0, i as int), file_len as int) == Ok::<Seq<LoadSegment>, LoadError>(segments@),
        decreases headers@.len() - i,
    {
        let h = headers[i];
        proof {
            let pre = hs.subrange(0, i as int + 1);
            assert(pre.drop_last() =~= hs.subrange(0, i as int));
            assert(pre.last() == header_values(h));
        }
        if h.p_type == PT_LOAD {
            if !(USER_CODE_START <= h.p_vaddr && h.p_vaddr <= USER_CODE_END && h.p_memsz <= USER_CODE_END
                - h.p_vaddr) {
                proof {
                    lemma_refusal_persists(hs, i as int + 1, file_len as int, LoadError::OutOfRange);
                }
                return Err(LoadError::OutOfRange);
            }
            if !(h.p_filesz <= file_len && h.p_offset <= file_len - h.p_filesz && h.p_filesz <= h.p_memsz) {
                proof {
                    lemma_refusal_persists(hs, i as int + 1, file_len as int, LoadError::Malformed);
                }
                return Err(LoadError::Malformed);
            }
            segments.push(
                LoadSegment {
                    vaddr: h.p_vaddr,
                    mem_size: h.p_memsz,
                    file_offset: h.p_offset,
                    file_size: h.p_filesz,
                },
            );
        }
        i = i + 1;
    }
    proof {
        assert(hs.subrange(0, headers@.len() as int) =~= hs);
    }
    Ok(LoadPlan { entry, segments })
}

/// Once a prefix of the headers is refused, every longer prefix is refused the same way.
proof fn lemma_refusal_persists(hs: Seq<(u32, u64, u64, u64, u64)>, n: int, len: int, e: LoadError)
    requires
        0 <= n <= hs.len(),
        plan_segments(hs.subrange(0, n), len) == Err::<Seq<LoadSegment>, LoadError>(e),
    ensures
        plan_segments(hs, len) == Err::<Seq<LoadSegment>, LoadError>(e),
    decreases hs.len() - n,
{
    if n < hs.len() {
        let pre = hs.subrange(0, n + 1);
        assert(pre.drop_last() =~= hs.subrange(0, n));
        lemma_refusal_persists(hs, n + 1, len, e);
    } else {
        assert(hs.subrange(0, n) =~= hs);
    }
}

/// Plans the load of a user program: checks the ELF magic, parses the image
/// and checks each loadable segment against the user code window.
pub fn load_plan(bin: &[u8]) -> (r: Result<LoadPlan, LoadError>)
    ensures
        match r {
            Ok(p) => plan_of(bin@) == Ok::<(u64, Seq<LoadSegment>), LoadError>((p.entry, p.segments@)),
            Err(e) => plan_of(bin@) == Err::<(u64, Seq<LoadSegment>), LoadError>(e),
        },
{
    if bin.len() < 4 || bin[0] != 0x7f || bin[1] != 0x45 || bin[2] != 0x4c || bin[3] != 0x46 {
        return Err(LoadError::InvalidElf);
    }
    match parse_elf(bin) {
        None => Err(LoadError::Malformed),
        Some(image) => check_segments(image.entry, &image.headers, bin.len() as u64),
    }
}

} // verus!
