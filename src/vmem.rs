use vstd::prelude::*;
use crate::config::INITRD_BASE;
use crate::elf::{self, LoadError, apply_segments, copy_into, e_phnum, load_outcome, splice};
use crate::error::Error;

verus! {

/// Mathematical value of guest memory.
pub struct MemoryView {
    /// The bytes of guest physical memory, from address zero.
    pub bytes: Seq<u8>,
    /// First address and size of the kernel image, once loaded.
    pub kernel: Option<(u64, usize)>,
    /// Base and size of the initial RAM disk, once loaded.
    pub initrd: Option<(u64, usize)>,
}

/// The guest physical memory of a virtual machine: one region that starts
/// at address zero.
pub struct VirtualMemory {
    bytes: Vec<u8>,
    kernel: Option<(u64, usize)>,
    initrd: Option<(u64, usize)>,
}

impl View for VirtualMemory {
    type V = MemoryView;

    closed spec fn view(&self) -> MemoryView {
        MemoryView { bytes: self.bytes@, kernel: self.kernel, initrd: self.initrd }
    }
}

/// Whether `[addr, addr + len)` lies within memory of `size` bytes.
pub open spec fn in_range(addr: int, len: int, size: int) -> bool {
    addr + len <= size
}

/// Whether the ranges `[a, a + m)` and `[b, b + n)` share an address.
pub open spec fn overlaps(a: int, m: int, b: int, n: int) -> bool {
    m > 0 && n > 0 && a < b + n && b < a + m
}

/// The outcome of placing an initial RAM disk of `len` bytes at
/// `INITRD_BASE` in memory `v`.
pub open spec fn initrd_outcome(v: MemoryView, len: int) -> Result<(), LoadError> {
    if INITRD_BASE + len > v.bytes.len() {
        Err(LoadError::InitrdOutOfRange)
    } else if v.kernel matches Some((kb, ks)) && overlaps(
        INITRD_BASE as int,
        len,
        kb as int,
        ks as int,
    ) {
        Err(LoadError::InitrdOverlapsKernel)
    } else {
        Ok(())
    }
}

impl VirtualMemory {
    /// Creates zero-filled guest memory of `memory_size` bytes.
    pub fn new(memory_size: usize) -> (r: Result<VirtualMemory, Error>)
        ensures
            memory_size == 0 <==> r is Err,
            r matches Err(e) ==> e == Error::InvalidMemorySize,
            r matches Ok(m) ==> m@.bytes == Seq::new(memory_size as nat, |i: int| 0u8)
                && m@.kernel is None && m@.initrd is None,
    {
        if memory_size == 0 {
            return Err(Error::InvalidMemorySize);
        }
        Ok(VirtualMemory { bytes: crate::message::zeroed(memory_size), kernel: None, initrd: None })
    }

    /// Size of guest memory in bytes.
    pub fn size(&self) -> (r: usize)
        ensures
            r == self@.bytes.len(),
    {
        self.bytes.len()
    }

    /// The bytes of guest memory.
    pub fn as_slice(&self) -> (r: &[u8])
        ensures
            r@ == self@.bytes,
    {
        self.bytes.as_slice()
    }

    /// First address and size of the kernel image, once loaded.
    pub fn kernel(&self) -> (r: Option<(u64, usize)>)
        ensures
            r == self@.kernel,
    {
        self.kernel
    }

    /// Base and size of the initial RAM disk, once loaded.
    pub fn initrd(&self) -> (r: Option<(u64, usize)>)
        ensures
            r == self@.initrd,
    {
        self.initrd
    }

    /// Loads the ELF executable `image` and records where it lies; returns
    /// its entry point.
    pub fn load_kernel(&mut self, image: &[u8]) -> (r: Result<u64, Error>)
        ensures
            final(self)@.bytes.len() == old(self)@.bytes.len(),
            final(self)@.initrd == old(self)@.initrd,
            match (r, load_outcome(image@, old(self)@.bytes.len())) {
                (Ok(entry), Ok((e, f, s))) => {
                    &&& entry == e
                    &&& final(self)@.kernel == Some((f as u64, s as usize))
                    &&& final(self)@.bytes == apply_segments(
                        image@,
                        e_phnum(image@),
                        old(self)@.bytes,
                    )
                },
                (Err(err), Err(e)) => err == Error::Load(e) && final(self)@.kernel == old(self)@.kernel,
                _ => false,
            },
    {
        match elf::load(image, &mut self.bytes) {
            Ok((entry, first, size)) => {
                self.kernel = Some((first as u64, size));
                Ok(entry as u64)
            },
            Err(e) => Err(Error::Load(e)),
        }
    }

    /// Copies the initial RAM disk `image` to `INITRD_BASE` and records it;
    /// returns its base and size.
    pub fn load_initrd(&mut self, image: &[u8]) -> (r: Result<(u64, usize), Error>)
        ensures
            final(self)@.kernel == old(self)@.kernel,
            match initrd_outcome(old(self)@, image@.len() as int) {
                Ok(_) => {
                    &&& r == Ok::<(u64, usize), Error>((INITRD_BASE as u64, image@.len() as usize))
                    &&& final(self)@.initrd == Some((INITRD_BASE as u64, image@.len() as usize))
                    &&& final(self)@.bytes == splice(old(self)@.bytes, INITRD_BASE as int, image@)
                },
                Err(e) => r == Err::<(u64, usize), Error>(Error::Load(e)) && final(self)@ == old(self)@,
            },
    {
        let len = image.len();
        let size = self.bytes.len();
        if INITRD_BASE > size || len > size - INITRD_BASE {
            return Err(Error::Load(LoadError::InitrdOutOfRange));
        }
        if let Some((kb, ks)) = self.kernel {
            let base = INITRD_BASE as u128;
            let kb = kb as u128;
            let ks = ks as u128;
            if len > 0 && ks > 0 && base < kb + ks && kb < base + len as u128 {
                return Err(Error::Load(LoadError::InitrdOverlapsKernel));
            }
        }
        copy_into(&mut self.bytes, INITRD_BASE, image, 0, len);
        assert(image@.subrange(0, len as int) =~= image@);
        self.initrd = Some((INITRD_BASE as u64, len));
        Ok((INITRD_BASE as u64, len))
    }

    /// Writes `data` to guest memory at `addr`.
    pub fn write_bytes(&mut self, addr: u64, data: &[u8]) -> (r: Result<(), Error>)
        ensures
            final(self)@.kernel == old(self)@.kernel,
            final(self)@.initrd == old(self)@.initrd,
            r is Ok <==> in_range(addr as int, data@.len() as int, old(self)@.bytes.len() as int),
            r matches Err(e) ==> e == Error::InvalidMemoryAccess && final(self)@ == old(self)@,
            r is Ok ==> final(self)@.bytes == splice(old(self)@.bytes, addr as int, data@),
    {
        let size = self.bytes.len() as u64;
        let len = data.len() as u64;
        if addr > size || len > size - addr {
            return Err(Error::InvalidMemoryAccess);
        }
        copy_into(&mut self.bytes, addr as usize, data, 0, data.len());
        assert(data@.subrange(0, data@.len() as int) =~= data@);
        Ok(())
    }

    /// Reads `len` bytes of guest memory at `addr`.
    pub fn read_bytes(&self, addr: u64, len: usize) -> (r: Result<Vec<u8>, Error>)
        ensures
            r is Ok <==> in_range(addr as int, len as int, self@.bytes.len() as int),
            r matches Err(e) ==> e == Error::InvalidMemoryAccess,
            r matches Ok(v) ==> v@ == self@.bytes.subrange(addr as int, addr + len),
    {
        let size = self.bytes.len() as u64;
        if addr > size || len as u64 > size - addr {
            return Err(Error::InvalidMemoryAccess);
        }
        Ok(crate::message::copy_range(self.bytes.as_slice(), addr as usize, len))
    }
}

} // verus!
