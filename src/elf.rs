use vstd::prelude::*;
use crate::bytes::{byte_or_zero, le16_at, le32_at, read_le16, read_le32};

verus! {

/// Size of the ELF identification array.
pub const EI_NIDENT: usize = 16;

/// Size of a 32-bit ELF file header.
pub const EHDR_SIZE: usize = 52;

/// Size of a 32-bit ELF program header.
pub const PHDR_SIZE: usize = 32;

/// 32-bit objects.
pub const ELFCLASS32: u8 = 1;

/// Little-endian data encoding.
pub const ELFDATA2LSB: u8 = 1;

/// Executable file type.
pub const ET_EXEC: u16 = 2;

/// Intel 80386.
pub const EM_386: u16 = 3;

/// Current object file version.
pub const EV_CURRENT: u32 = 1;

/// Loadable segment type.
pub const PT_LOAD: u32 = 1;

/// Why an image could not be loaded.
#[derive(Clone, Copy, Debug, PartialEq, Eq, Structural)]
pub enum LoadError {
    /// The image ends before a header or a segment that it declares.
    TruncatedImage,
    /// The image does not start with the ELF magic number.
    InvalidMagic,
    /// The image is not a 32-bit object.
    InvalidClass,
    /// The image is not little-endian.
    InvalidDataEncoding,
    /// The object file version is not the current one.
    InvalidVersion,
    /// The image is not an executable.
    InvalidType,
    /// The image is not for the Intel 80386.
    InvalidMachine,
    /// A loadable segment does not fit in guest memory.
    SegmentOutOfRange,
    /// The image has no loadable segment.
    NoLoadableSegment,
    /// The initial RAM disk does not fit in guest memory.
    InitrdOutOfRange,
    /// The initial RAM disk would overlap the kernel image.
    InitrdOverlapsKernel,
}

/// The ELF magic number.
pub open spec fn has_magic(img: Seq<u8>) -> bool {
    &&& byte_or_zero(img, 0) == 0x7f
    &&& byte_or_zero(img, 1) == 0x45
    &&& byte_or_zero(img, 2) == 0x4c
    &&& byte_or_zero(img, 3) == 0x46
}

pub open spec fn e_type(img: Seq<u8>) -> nat {
    le16_at(img, 16)
}

pub open spec fn e_machine(img: Seq<u8>) -> nat {
    le16_at(img, 18)
}

pub open spec fn e_version(img: Seq<u8>) -> nat {
    le32_at(img, 20)
}

pub open spec fn e_entry(img: Seq<u8>) -> nat {
    le32_at(img, 24)
}

pub open spec fn e_phoff(img: Seq<u8>) -> nat {
    le32_at(img, 28)
}

pub open spec fn e_phnum(img: Seq<u8>) -> nat {
    le16_at(img, 44)
}

/// The checks on the file header, in the order in which they are made.
pub open spec fn header_check(img: Seq<u8>) -> Result<(), LoadError> {
    if img.len() < EHDR_SIZE {
        Err(LoadError::TruncatedImage)
    } else if !has_magic(img) {
        Err(LoadError::InvalidMagic)
    } else if img[4] != ELFCLASS32 {
        Err(LoadError::InvalidClass)
    } else if img[5] != ELFDATA2LSB {
        Err(LoadError::InvalidDataEncoding)
    } else if e_version(img) != EV_CURRENT {
        Err(LoadError::InvalidVersion)
    } else if e_type(img) != ET_EXEC {
        Err(LoadError::InvalidType)
    } else if e_machine(img) != EM_386 {
        Err(LoadError::InvalidMachine)
    } else if e_phoff(img) + PHDR_SIZE * e_phnum(img) > img.len() {
        Err(LoadError::TruncatedImage)
    } else {
        Ok(())
    }
}

/// A program header, as plain numbers.
pub struct Segment {
    pub p_type: nat,
    pub p_offset: nat,
    pub p_vaddr: nat,
    pub p_filesz: nat,
    pub p_memsz: nat,
}

/// The `i`-th program header of `img`.
pub open spec fn segment(img: Seq<u8>, i: nat) -> Segment {
    let base = e_phoff(img) + PHDR_SIZE * i;
    Segment {
        p_type: le32_at(img, base),
        p_offset: le32_at(img, base + 4),
        p_vaddr: le32_at(img, base + 8),
        p_filesz: le32_at(img, base + 16),
        p_memsz: le32_at(img, base + 20),
    }
}

/// The first `n` program headers checked against guest memory of
/// `mem_size` bytes: the lowest start and highest end of their loadable
/// segments (`None` when there is none), or the first failure.
pub open spec fn scan(img: Seq<u8>, n: nat, mem_size: nat) -> Result<Option<(nat, nat)>, LoadError>
    decreases n,
{
    if n == 0 {
        Ok(None)
    } else {
        match scan(img, (n - 1) as nat, mem_size) {
            Err(e) => Err(e),
            Ok(acc) => {
                let s = segment(img, (n - 1) as nat);
                if s.p_type != PT_LOAD {
                    Ok(acc)
                } else if s.p_vaddr + s.p_memsz > mem_size || s.p_vaddr + s.p_filesz > mem_size {
                    Err(LoadError::SegmentOutOfRange)
                } else if s.p_offset + s.p_filesz > img.len() {
                    Err(LoadError::TruncatedImage)
                } else {
                    let end = s.p_vaddr + s.p_memsz;
                    Ok(
                        Some(
                            match acc {
                                None => (s.p_vaddr, end),
                                Some((f, l)) => (
                                    if s.p_vaddr < f {
                                        s.p_vaddr
                                    } else {
                                        f
                                    },
                                    if end > l {
                                        end
                                    } else {
                                        l
                                    },
                                ),
                            },
                        ),
                    )
                }
            },
        }
    }
}

/// `mem` with `data` written at `addr`.
pub open spec fn splice(mem: Seq<u8>, addr: int, data: Seq<u8>) -> Seq<u8> {
    mem.subrange(0, addr) + data + mem.subrange(addr + data.len(), mem.len() as int)
}

/// Guest memory after the file bytes of the loadable segments among the
/// first `n` program headers are copied into `mem`, in header order.
pub open spec fn apply_segments(img: Seq<u8>, n: nat, mem: Seq<u8>) -> Seq<u8>
    decreases n,
{
    if n == 0 {
        mem
    } else {
        let m = apply_segments(img, (n - 1) as nat, mem);
        let s = segment(img, (n - 1) as nat);
        if s.p_type == PT_LOAD {
            splice(
                m,
                s.p_vaddr as int,
                img.subrange(s.p_offset as int, (s.p_offset + s.p_filesz) as int),
            )
        } else {
            m
        }
    }
}

/// The outcome of loading `img` into guest memory of `mem_size` bytes:
/// the entry point, the first address and the size of the image.
pub open spec fn load_outcome(img: Seq<u8>, mem_size: nat) -> Result<(nat, nat, nat), LoadError> {
    match header_check(img) {
        Err(e) => Err(e),
        Ok(_) => match scan(img, e_phnum(img), mem_size) {
            Err(e) => Err(e),
            Ok(None) => Err(LoadError::NoLoadableSegment),
            Ok(Some((f, l))) => Ok((e_entry(img), f, (l - f) as nat)),
        },
    }
}

/// A 32-bit ELF file header.
pub struct Elf32Fhdr {
    pub e_ident: Vec<u8>,
    pub e_type: u16,
    pub e_machine: u16,
    pub e_version: u32,
    pub e_entry: u32,
    pub e_phoff: u32,
    pub e_shoff: u32,
    pub e_flags: u32,
    pub e_ehsize: u16,
    pub e_phentsize: u16,
    pub e_phnum: u16,
    pub e_shentsize: u16,
    pub e_shnum: u16,
    pub e_shstrndx: u16,
}

impl Elf32Fhdr {
    /// Reads the file header at the start of `img`; `None` when `img` is
    /// shorter than a header.
    pub fn from_bytes(img: &[u8]) -> (r: Option<Elf32Fhdr>)
        ensures
            img@.len() < EHDR_SIZE <==> r is None,
            r matches Some(h) ==> {
                &&& h.e_ident@ == img@.subrange(0, EI_NIDENT as int)
                &&& h.e_type as nat == e_type(img@)
                &&& h.e_machine as nat == e_machine(img@)
                &&& h.e_version as nat == e_version(img@)
                &&& h.e_entry as nat == e_entry(img@)
                &&& h.e_phoff as nat == e_phoff(img@)
                &&& h.e_phnum as nat == e_phnum(img@)
                &&& h.e_shoff as nat == le32_at(img@, 32)
                &&& h.e_flags as nat == le32_at(img@, 36)
                &&& h.e_ehsize as nat == le16_at(img@, 40)
                &&& h.e_phentsize as nat == le16_at(img@, 42)
                &&& h.e_shentsize as nat == le16_at(img@, 46)
                &&& h.e_shnum as nat == le16_at(img@, 48)
                &&& h.e_shstrndx as nat == le16_at(img@, 50)
            },
    {
        if img.len() < EHDR_SIZE {
            return None;
        }
        Some(
            Elf32Fhdr {
                e_ident: crate::message::copy_range(img, 0, EI_NIDENT),
                e_type: read_le16(img, 16),
                e_machine: read_le16(img, 18),
                e_version: read_le32(img, 20),
                e_entry: read_le32(img, 24),
                e_phoff: read_le32(img, 28),
                e_shoff: read_le32(img, 32),
                e_flags: read_le32(img, 36),
                e_ehsize: read_le16(img, 40),
                e_phentsize: read_le16(img, 42),
                e_phnum: read_le16(img, 44),
                e_shentsize: read_le16(img, 46),
                e_shnum: read_le16(img, 48),
                e_shstrndx: read_le16(img, 50),
            },
        )
    }

    /// Whether the identification bytes start with the ELF magic number.
    pub fn is_valid(&self) -> (r: bool)
        ensures
            r == has_magic(self.e_ident@),
    {
        self.e_ident.len() >= 4 && self.e_ident[0] == 0x7f && self.e_ident[1] == 0x45
            && self.e_ident[2] == 0x4c && self.e_ident[3] == 0x46
    }
}

/// Copies the `len` bytes of `src` at `off` into `mem` at `addr`.
pub fn copy_into(mem: &mut Vec<u8>, addr: usize, src: &[u8], off: usize, len: usize)
    requires
        addr + len <= old(mem)@.len(),
        off + len <= src@.len(),
    ensures
        final(mem)@ == splice(old(mem)@, addr as int, src@.subrange(off as int, off + len)),
{
    let ghost m0 = mem@;
    let mlen = mem.len();
    let slen = src.len();
    let mut j: usize = 0;
    while j < len
        invariant
            j <= len,
            mlen == m0.len(),
            slen == src@.len(),
            addr + len <= m0.len(),
            off + len <= src@.len(),
            mem@ == splice(m0, addr as int, src@.subrange(off as int, off + j)),
        decreases len - j,
    {
        mem.set(addr + j, src[off + j]);
        j = j + 1;
        assert(mem@ =~= splice(m0, addr as int, src@.subrange(off as int, off + j)));
    }
}

/// Checks the file header of `img`.
pub fn check_header(img: &[u8]) -> (r: Result<(), LoadError>)
    ensures
        r == header_check(img@),
{
    if img.len() < EHDR_SIZE {
        return Err(LoadError::TruncatedImage);
    }
    if !(img[0] == 0x7f && img[1] == 0x45 && img[2] == 0x4c && img[3] == 0x46) {
        return Err(LoadError::InvalidMagic);
    }
    if img[4] != ELFCLASS32 {
        return Err(LoadError::InvalidClass);
    }
    if img[5] != ELFDATA2LSB {
        return Err(LoadError::InvalidDataEncoding);
    }
    if read_le32(img, 20) != EV_CURRENT {
        return Err(LoadError::InvalidVersion);
    }
    if read_le16(img, 16) != ET_EXEC {
        return Err(LoadError::InvalidType);
    }
    if read_le16(img, 18) != EM_386 {
        return Err(LoadError::InvalidMachine);
    }
    let phoff = read_le32(img, 28) as u64;
    let phnum = read_le16(img, 44) as u64;
    if phoff + 32 * phnum > img.len() as u64 {
        return Err(LoadError::TruncatedImage);
    }
    Ok(())
}

/// Once the scan of the program headers fails, it fails the same way
/// whatever headers follow.
pub proof fn lemma_scan_error_sticks(img: Seq<u8>, i: nat, n: nat, mem_size: nat)
    requires
        i <= n,
        scan(img, i, mem_size) is Err,
    ensures
        scan(img, n, mem_size) == scan(img, i, mem_size),
    decreases n,
{
    if n > i {
        lemma_scan_error_sticks(img, i, (n - 1) as nat, mem_size);
    }
}

/// Every loadable segment among the first `n` headers lies within the range
/// that the scan reports, and that range lies within guest memory.
pub proof fn lemma_scan_covers(img: Seq<u8>, n: nat, mem_size: nat)
    requires
        scan(img, n, mem_size) is Ok,
    ensures
        scan(img, n, mem_size) matches Ok(Some((f, l))) ==> f <= l <= mem_size,
        forall|k: nat|
            k < n && #[trigger] segment(img, k).p_type == PT_LOAD ==> (scan(img, n, mem_size) matches Ok(
                Some((f, l)),
            ) && f <= segment(img, k).p_vaddr && segment(img, k).p_vaddr + segment(img, k).p_memsz
                <= l),
    decreases n,
{
    if n > 0 {
        lemma_scan_covers(img, (n - 1) as nat, mem_size);
    }
}

/// Loads the 32-bit ELF executable `img` into guest memory `mem`: checks
/// the file header, then copies the file bytes of each loadable segment to
/// its virtual address, in header order. Returns the entry point, the lowest
/// address of a loadable segment, and the size of the span up to the highest
/// end of one.
pub fn load(img: &[u8], mem: &mut Vec<u8>) -> (r: Result<(usize, usize, usize), LoadError>)
    ensures
        final(mem)@.len() == old(mem)@.len(),
        match (r, load_outcome(img@, old(mem)@.len())) {
            (Ok((e, f, s)), Ok((e2, f2, s2))) => {
                &&& e == e2
                &&& f == f2
                &&& s == s2
                &&& final(mem)@ == apply_segments(img@, e_phnum(img@), old(mem)@)
            },
            (Err(e), Err(e2)) => e == e2,
            _ => false,
        },
{
    check_header(img)?;
    let entry = read_le32(img, 24);
    let phoff = read_le32(img, 28) as u64;
    let phnum = read_le16(img, 44) as u64;
    let n = img.len();
    let mem_size = mem.len();
    let ghost m0 = mem@;
    let ghost ms = mem@.len();
    let mut first: u64 = 0;
    let mut last: u64 = 0;
    let mut found = false;
    let mut i: u64 = 0;
    while i < phnum
        invariant
            i <= phnum,
            header_check(img@) is Ok,
            phoff == e_phoff(img@),
            phnum == e_phnum(img@),
            n == img@.len(),
            mem_size == ms,
            ms == m0.len(),
            m0 == old(mem)@,
            mem@.len() == ms,
            scan(img@, i as nat, ms) == (if found {
                Ok::<Option<(nat, nat)>, LoadError>(Some((first as nat, last as nat)))
            } else {
                Ok::<Option<(nat, nat)>, LoadError>(None)
            }),
            found ==> first <= last <= ms,
            mem@ == apply_segments(img@, i as nat, m0),
        decreases phnum - i,
    {
        let base = (phoff + 32 * i) as usize;
        let p_type = read_le32(img, base);
        if p_type == PT_LOAD {
            let off = read_le32(img, base + 4) as u64;
            let vaddr = read_le32(img, base + 8) as u64;
            let filesz = read_le32(img, base + 16) as u64;
            let memsz = read_le32(img, base + 20) as u64;
            if vaddr + memsz > mem_size as u64 || vaddr + filesz > mem_size as u64 {
                proof {
                    lemma_scan_error_sticks(img@, (i + 1) as nat, phnum as nat, ms);
                }
                return Err(LoadError::SegmentOutOfRange);
            }
            if off + filesz > n as u64 {
                proof {
                    lemma_scan_error_sticks(img@, (i + 1) as nat, phnum as nat, ms);
                }
                return Err(LoadError::TruncatedImage);
            }
            copy_into(mem, vaddr as usize, img, off as usize, filesz as usize);
            let end = vaddr + memsz;
            if !found {
                first = vaddr;
                last = end;
                found = true;
            } else {
                if vaddr < first {
                    first = vaddr;
                }
                if end > last {
                    last = end;
                }
            }
        }
        i = i + 1;
    }
    if !found {
        return Err(LoadError::NoLoadableSegment);
    }
    Ok((entry as usize, first as usize, (last - first) as usize))
}

/// Of every successful load: the image ends within guest memory, and an
/// entry point inside one of its loadable segments lies inside the image.
pub proof fn lemma_load_bounds(img: Seq<u8>, mem_size: nat)
    requires
        load_outcome(img, mem_size) is Ok,
    ensures
        (load_outcome(img, mem_size) matches Ok((entry, first, size)) && first + size <= mem_size
            && (forall|k: nat|
            k < e_phnum(img) && #[trigger] segment(img, k).p_type == PT_LOAD && segment(img, k).p_vaddr
                <= entry < segment(img, k).p_vaddr + segment(img, k).p_memsz ==> first <= entry
                < first + size)),
{
    lemma_scan_covers(img, e_phnum(img), mem_size);
}

} // verus!
