use microvm::elf::{self, Elf32Fhdr, LoadError};
use microvm::error::Error;
use microvm::vmem::VirtualMemory;

/// A segment: type, file offset is chosen by the builder, virtual address,
/// file bytes and memory size.
struct Seg {
    p_type: u32,
    vaddr: u32,
    data: Vec<u8>,
    memsz: u32,
}

fn put16(b: &mut [u8], off: usize, x: u16) {
    b[off..off + 2].copy_from_slice(&x.to_le_bytes());
}

fn put32(b: &mut [u8], off: usize, x: u32) {
    b[off..off + 4].copy_from_slice(&x.to_le_bytes());
}

fn image(entry: u32, segs: &[Seg]) -> Vec<u8> {
    let phoff = 52usize;
    let data_start = phoff + 32 * segs.len();
    let total: usize = data_start + segs.iter().map(|s| s.data.len()).sum::<usize>();
    let mut b = vec![0u8; total];
    b[0..4].copy_from_slice(&[0x7f, b'E', b'L', b'F']);
    b[4] = 1;
    b[5] = 1;
    b[6] = 1;
    put16(&mut b, 16, 2);
    put16(&mut b, 18, 3);
    put32(&mut b, 20, 1);
    put32(&mut b, 24, entry);
    put32(&mut b, 28, phoff as u32);
    put16(&mut b, 40, 52);
    put16(&mut b, 42, 32);
    put16(&mut b, 44, segs.len() as u16);
    let mut off = data_start;
    for (i, s) in segs.iter().enumerate() {
        let h = phoff + 32 * i;
        put32(&mut b, h, s.p_type);
        put32(&mut b, h + 4, off as u32);
        put32(&mut b, h + 8, s.vaddr);
        put32(&mut b, h + 12, s.vaddr);
        put32(&mut b, h + 16, s.data.len() as u32);
        put32(&mut b, h + 20, s.memsz);
        b[off..off + s.data.len()].copy_from_slice(&s.data);
        off += s.data.len();
    }
    b
}

fn kernel() -> Vec<u8> {
    image(
        0x1000,
        &[
            Seg { p_type: 1, vaddr: 0x1000, data: vec![0x90, 0xf4, 0xeb], memsz: 0x100 },
            Seg { p_type: 4, vaddr: 0, data: vec![1, 2], memsz: 2 },
            Seg { p_type: 1, vaddr: 0x2000, data: vec![5, 6], memsz: 0x10 },
        ],
    )
}

#[test]
fn load_kernel_copies_segments() {
    let mut vm = VirtualMemory::new(0x4000).unwrap();
    let entry = vm.load_kernel(&kernel()).unwrap();
    assert_eq!(entry, 0x1000);
    assert_eq!(vm.kernel(), Some((0x1000, 0x1010)));
    let code = vm.read_bytes(0x1000, 4).unwrap();
    assert_eq!(code, vec![0x90, 0xf4, 0xeb, 0]);
    assert_eq!(vm.read_bytes(0x2000, 3).unwrap(), vec![5, 6, 0]);
    assert_eq!(vm.read_bytes(0, 2).unwrap(), vec![0, 0]);
}

#[test]
fn entry_lies_within_image() {
    let mut mem = vec![0u8; 0x4000];
    let (entry, first, size) = elf::load(&kernel(), &mut mem).unwrap();
    assert!(first <= entry && entry < first + size);
    assert!(first + size <= mem.len());
}

#[test]
fn memory_exactly_image_extent_loads() {
    let img = kernel();
    let mut vm = VirtualMemory::new(0x2010).unwrap();
    assert_eq!(vm.load_kernel(&img), Ok(0x1000));
}

#[test]
fn memory_one_byte_short_fails() {
    let img = kernel();
    let mut vm = VirtualMemory::new(0x200f).unwrap();
    assert_eq!(vm.load_kernel(&img), Err(Error::Load(LoadError::SegmentOutOfRange)));
    assert_eq!(vm.kernel(), None);
}

#[test]
fn header_checks() {
    let good = kernel();
    let cases: [(usize, u8, LoadError); 6] = [
        (0, 0, LoadError::InvalidMagic),
        (4, 2, LoadError::InvalidClass),
        (5, 2, LoadError::InvalidDataEncoding),
        (20, 0, LoadError::InvalidVersion),
        (16, 3, LoadError::InvalidType),
        (18, 62, LoadError::InvalidMachine),
    ];
    for (at, value, err) in cases {
        let mut img = good.clone();
        img[at] = value;
        let mut mem = vec![0u8; 0x4000];
        assert_eq!(elf::load(&img, &mut mem), Err(err));
    }
}

#[test]
fn truncated_images_fail() {
    let mut mem = vec![0u8; 0x4000];
    assert_eq!(elf::load(&kernel()[..40], &mut mem), Err(LoadError::TruncatedImage));
    let img = kernel();
    assert_eq!(elf::load(&img[..img.len() - 1], &mut mem), Err(LoadError::TruncatedImage));
}

#[test]
fn no_loadable_segment_fails() {
    let img = image(0, &[Seg { p_type: 4, vaddr: 0, data: vec![1], memsz: 1 }]);
    let mut mem = vec![0u8; 16];
    assert_eq!(elf::load(&img, &mut mem), Err(LoadError::NoLoadableSegment));
}

#[test]
fn file_header_fields() {
    let img = kernel();
    let h = Elf32Fhdr::from_bytes(&img).unwrap();
    assert!(h.is_valid());
    assert_eq!(h.e_entry, 0x1000);
    assert_eq!(h.e_phnum, 3);
    assert_eq!(h.e_machine, 3);
    assert!(Elf32Fhdr::from_bytes(&img[..51]).is_none());
    let mut bad = img.clone();
    bad[1] = b'X';
    assert!(!Elf32Fhdr::from_bytes(&bad).unwrap().is_valid());
}
