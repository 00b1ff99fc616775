//! A memory-mapped register window: bounds and alignment checks, and 64- and
//! 128-bit accesses built from 32-bit word accesses.
//!
//! Mapping memory and touching it are the caller's: each access takes the
//! function that reads or writes one 32-bit word at a byte offset into the
//! window, and calls it only for offsets that passed the checks.

use vstd::prelude::*;

verus! {

/// Where the window comes from: a device file, its length in bytes and the
/// offset into the file.
#[derive(Clone, Debug)]
pub struct MmioConfig {
    pub path: String,
    pub size: usize,
    pub offset: i64,
}

/// Why an access to the window failed.
#[derive(Clone, Debug, PartialEq, Eq)]
pub enum MmioError {
    Open { path: String, reason: String },
    Mmap,
    Munmap,
    OutOfBounds { address: usize, size: usize },
    UnalignedAccess { address: usize, alignment: usize },
    AlreadyClosed,
}

/// The outcome of the checks before one 32-bit access at `address`: alignment
/// first, then that the window is open, then bounds.
pub open spec fn word_check(mapped: bool, size: usize, address: int) -> Result<(), MmioError> {
    if address % 4 != 0 {
        Err(MmioError::UnalignedAccess { address: address as usize, alignment: 4 })
    } else if !mapped {
        Err(MmioError::AlreadyClosed)
    } else if address + 4 > size {
        Err(MmioError::OutOfBounds { address: address as usize, size })
    } else {
        Ok(())
    }
}

/// The outcome of the checks of `n` consecutive words from `address`: the first
/// failure, if any.
pub open spec fn words_check(mapped: bool, size: usize, address: int, n: nat) -> Result<(), MmioError>
    decreases n,
{
    if n == 0 {
        Ok(())
    } else {
        match words_check(mapped, size, address, (n - 1) as nat) {
            Err(e) => Err(e),
            Ok(()) => word_check(mapped, size, address + 4 * (n - 1)),
        }
    }
}

/// An open or closed register window.
pub struct Mmio {
    config: MmioConfig,
    mapped: bool,
}

impl Mmio {
    pub closed spec fn window_size(&self) -> usize {
        self.config.size
    }

    pub closed spec fn is_open(&self) -> bool {
        self.mapped
    }

    /// The window over a region that has just been mapped with `config`.
    pub fn mapped(config: MmioConfig) -> (r: Mmio)
        ensures
            r.is_open(),
            r.window_size() == config.size,
    {
        Mmio { config, mapped: true }
    }

    pub fn config(&self) -> (r: &MmioConfig)
        ensures
            r.size == self.window_size(),
    {
        &self.config
    }

    pub fn is_mapped(&self) -> (r: bool)
        ensures
            r == self.is_open(),
    {
        self.mapped
    }

    /// Marks the window closed; closing twice fails.
    pub fn close(&mut self) -> (r: Result<(), MmioError>)
        ensures
            final(self).window_size() == old(self).window_size(),
            !final(self).is_open(),
            r == (if old(self).is_open() {
                Ok::<(), MmioError>(())
            } else {
                Err(MmioError::AlreadyClosed)
            }),
    {
        if !self.mapped {
            return Err(MmioError::AlreadyClosed);
        }
        self.mapped = false;
        Ok(())
    }

    /// An access of `size` bytes at `address` must lie in an open window.
    fn check_bounds(&self, address: usize, size: usize) -> (r: Result<(), MmioError>)
        ensures
            r == (if !self.is_open() {
                Err(MmioError::AlreadyClosed)
            } else if address + size > self.window_size() {
                Err(MmioError::OutOfBounds { address, size: self.window_size() })
            } else {
                Ok(())
            }),
    {
        if !self.mapped {
            return Err(MmioError::AlreadyClosed);
        }
        match address.checked_add(size) {
            None => Err(MmioError::OutOfBounds { address, size: self.config.size }),
            Some(end) => if end > self.config.size {
                Err(MmioError::OutOfBounds { address, size: self.config.size })
            } else {
                Ok(())
            },
        }
    }

    /// An access at `address` must be a multiple of `alignment`.
    fn check_alignment(&self, address: usize, alignment: usize) -> (r: Result<(), MmioError>)
        requires
            alignment > 0,
        ensures
            r == (if address % alignment != 0 {
                Err(MmioError::UnalignedAccess { address, alignment })
            } else {
                Ok(())
            }),
    {
        if address % alignment != 0 {
            return Err(MmioError::UnalignedAccess { address, alignment });
        }
        Ok(())
    }

    /// Reads the word at `address` through `read_word` once the checks pass.
    pub fn read32<F: Fn(usize) -> u32>(&self, address: usize, read_word: &F) -> (r: Result<
        u32,
        MmioError,
    >)
        requires
            forall|a: usize| read_word.requires((a,)),
        ensures
            match r {
                Ok(v) => word_check(self.is_open(), self.window_size(), address as int) is Ok
                    && read_word.ensures((address,), v),
                Err(e) => word_check(self.is_open(), self.window_size(), address as int) == Err::<
                    (),
                    MmioError,
                >(e),
            },
    {
        match self.check_alignment(address, 4) {
            Err(e) => return Err(e),
            Ok(()) => {},
        }
        match self.check_bounds(address, 4) {
            Err(e) => return Err(e),
            Ok(()) => {},
        }
        Ok(read_word(address))
    }

    /// Writes `value` at `address` through `write_word` once the checks pass.
    pub fn write32<F: Fn(usize, u32)>(&self, address: usize, value: u32, write_word: &F) -> (r:
        Result<(), MmioError>)
        requires
            forall|a: usize, v: u32| write_word.requires((a, v)),
        ensures
            r == word_check(self.is_open(), self.window_size(), address as int),
            r is Ok ==> write_word.ensures((address, value), ()),
    {
        match self.check_alignment(address, 4) {
            Err(e) => return Err(e),
            Ok(()) => {},
        }
        match self.check_bounds(address, 4) {
            Err(e) => return Err(e),
            Ok(()) => {},
        }
        write_word(address, value);
        Ok(())
    }

    /// Reads a 64-bit value as two words, low word first.
    pub fn read64<F: Fn(usize) -> u32>(&self, address: usize, read_word: &F) -> (r: Result<
        u64,
        MmioError,
    >)
        requires
            forall|a: usize| read_word.requires((a,)),
        ensures
            match r {
                Ok(v) => words_check(self.is_open(), self.window_size(), address as int, 2) is Ok
                    && exists|lo: u32, hi: u32|
                    #![trigger read_word.ensures((address,), lo), read_word.ensures(((address + 4) as usize,), hi)]
                    read_word.ensures((address,), lo) && read_word.ensures(
                        ((address + 4) as usize,),
                        hi,
                    ) && v as int == lo as int + hi as int * 0x1_0000_0000,
                Err(e) => words_check(self.is_open(), self.window_size(), address as int, 2)
                    == Err::<(), MmioError>(e),
            },
    {
        let ghost open = self.is_open();
        let ghost size = self.window_size();
        proof {
            assert(words_check(open, size, address as int, 0) == Ok::<(), MmioError>(()));
            assert(words_check(open, size, address as int, 1) == word_check(open, size, address as int));
        }
        let low = match self.read32(address, read_word) {
            Ok(w) => w,
            Err(e) => return Err(e),
        };
        let high = match self.read32(address + 4, read_word) {
            Ok(w) => w,
            Err(e) => return Err(e),
        };
        let v = (low as u64) | ((high as u64) << 32u64);
        proof {
            assert(v == (low as u64) + (high as u64) * 0x1_0000_0000u64) by (bit_vector)
                requires
                    v == (low as u64) | ((high as u64) << 32u64);
        }
        Ok(v)
    }

    /// Writes a 64-bit value as two words, low word first.
    pub fn write64<F: Fn(usize, u32)>(&self, address: usize, value: u64, write_word: &F) -> (r:
        Result<(), MmioError>)
        requires
            forall|a: usize, v: u32| write_word.requires((a, v)),
        ensures
            r == words_check(self.is_open(), self.window_size(), address as int, 2),
            r is Ok ==> write_word.ensures((address, (value % 0x1_0000_0000) as u32), ())
                && write_word.ensures(((address + 4) as usize, (value / 0x1_0000_0000) as u32), ()),
    {
        let ghost open = self.is_open();
        let ghost size = self.window_size();
        proof {
            assert(words_check(open, size, address as int, 0) == Ok::<(), MmioError>(()));
            assert(words_check(open, size, address as int, 1) == word_check(open, size, address as int));
        }
        let low = #[verifier::truncate] ((value & 0xFFFF_FFFFu64) as u32);
        let high = #[verifier::truncate] (((value >> 32u64) & 0xFFFF_FFFFu64) as u32);
        proof {
            assert(low == (value % 0x1_0000_0000u64) as u32 && high == (value / 0x1_0000_0000u64)
                as u32) by (bit_vector)
                requires
                    low == #[verifier::truncate] ((value & 0xFFFF_FFFFu64) as u32),
                    high == #[verifier::truncate] (((value >> 32u64) & 0xFFFF_FFFFu64) as u32);
        }
        match self.write32(address, low, write_word) {
            Ok(()) => {},
            Err(e) => return Err(e),
        }
        self.write32(address + 4, high, write_word)
    }

    /// Reads a 128-bit value as four words, lowest word first.
    pub fn read128<F: Fn(usize) -> u32>(&self, address: usize, read_word: &F) -> (r: Result<
        u128,
        MmioError,
    >)
        requires
            forall|a: usize| read_word.requires((a,)),
        ensures
            match r {
                Ok(v) => words_check(self.is_open(), self.window_size(), address as int, 4) is Ok
                    && exists|w0: u32, w1: u32, w2: u32, w3: u32|
                    #![trigger read_word.ensures((address,), w0), read_word.ensures(((address + 4) as usize,), w1), read_word.ensures(((address + 8) as usize,), w2), read_word.ensures(((address + 12) as usize,), w3)]
                    read_word.ensures((address,), w0) && read_word.ensures(
                        ((address + 4) as usize,),
                        w1,
                    ) && read_word.ensures(((address + 8) as usize,), w2) && read_word.ensures(
                        ((address + 12) as usize,),
                        w3,
                    ) && v as int == w0 as int + w1 as int * 0x1_0000_0000 + w2 as int
                        * 0x1_0000_0000_0000_0000 + w3 as int * 0x1_0000_0000_0000_0000_0000_0000,
                Err(e) => words_check(self.is_open(), self.window_size(), address as int, 4)
                    == Err::<(), MmioError>(e),
            },
    {
        let ghost open = self.is_open();
        let ghost size = self.window_size();
        proof {
            assert(words_check(open, size, address as int, 0) == Ok::<(), MmioError>(()));
            assert(words_check(open, size, address as int, 1) == word_check(open, size, address as int));
        }
        let w0 = match self.read32(address, read_word) {
            Ok(w) => w,
            Err(e) => return Err(e),
        };
        let w1 = match self.read32(address + 4, read_word) {
            Ok(w) => w,
            Err(e) => return Err(e),
        };
        proof {
            assert(words_check(open, size, address as int, 2) is Ok);
        }
        let w2 = match self.read32(address + 8, read_word) {
            Ok(w) => w,
            Err(e) => return Err(e),
        };
        proof {
            assert(words_check(open, size, address as int, 3) is Ok);
        }
        let w3 = match self.read32(address + 12, read_word) {
            Ok(w) => w,
            Err(e) => return Err(e),
        };
        let v = (w0 as u128) | ((w1 as u128) << 32u128) | ((w2 as u128) << 64u128) | ((w3 as u128)
            << 96u128);
        proof {
            assert(v == (w0 as u128) + (w1 as u128) * 0x1_0000_0000u128 + (w2 as u128)
                * 0x1_0000_0000_0000_0000u128 + (w3 as u128) * 0x1_0000_0000_0000_0000_0000_0000u128)
                by (bit_vector)
                requires
                    v == (w0 as u128) | ((w1 as u128) << 32u128) | ((w2 as u128) << 64u128) | ((
                    w3 as u128) << 96u128);
        }
        Ok(v)
    }

    /// Writes a 128-bit value as four words, lowest word first.
    pub fn write128<F: Fn(usize, u32)>(&self, address: usize, value: u128, write_word: &F) -> (r:
        Result<(), MmioError>)
        requires
            forall|a: usize, v: u32| write_word.requires((a, v)),
        ensures
            r == words_check(self.is_open(), self.window_size(), address as int, 4),
            r is Ok ==> write_word.ensures((address, (value % 0x1_0000_0000) as u32), ())
                && write_word.ensures(
                ((address + 4) as usize, ((value / 0x1_0000_0000) % 0x1_0000_0000) as u32),
                (),
            ) && write_word.ensures(
                ((address + 8) as usize, ((value / 0x1_0000_0000_0000_0000) % 0x1_0000_0000) as u32),
                (),
            ) && write_word.ensures(
                ((address + 12) as usize, (value / 0x1_0000_0000_0000_0000_0000_0000) as u32),
                (),
            ),
    {
        let ghost open = self.is_open();
        let ghost size = self.window_size();
        proof {
            assert(words_check(open, size, address as int, 0) == Ok::<(), MmioError>(()));
            assert(words_check(open, size, address as int, 1) == word_check(open, size, address as int));
        }
        let word0 = #[verifier::truncate] ((value & 0xFFFF_FFFFu128) as u32);
        let word1 = #[verifier::truncate] (((value >> 32u128) & 0xFFFF_FFFFu128) as u32);
        let word2 = #[verifier::truncate] (((value >> 64u128) & 0xFFFF_FFFFu128) as u32);
        let word3 = #[verifier::truncate] (((value >> 96u128) & 0xFFFF_FFFFu128) as u32);
        proof {
            assert(word0 == (value % 0x1_0000_0000u128) as u32 && word1 == ((value / 0x1_0000_0000u128)
                % 0x1_0000_0000u128) as u32 && word2 == ((value / 0x1_0000_0000_0000_0000u128)
                % 0x1_0000_0000u128) as u32 && word3 == (value / 0x1_0000_0000_0000_0000_0000_0000u128)
                as u32) by (bit_vector)
                requires
                    word0 == #[verifier::truncate] ((value & 0xFFFF_FFFFu128) as u32),
                    word1 == #[verifier::truncate] (((value >> 32u128) & 0xFFFF_FFFFu128) as u32),
                    word2 == #[verifier::truncate] (((value >> 64u128) & 0xFFFF_FFFFu128) as u32),
                    word3 == #[verifier::truncate] (((value >> 96u128) & 0xFFFF_FFFFu128) as u32);
        }
        match self.write32(address, word0, write_word) {
            Ok(()) => {},
            Err(e) => return Err(e),
        }
        match self.write32(address + 4, word1, write_word) {
            Ok(()) => {},
            Err(e) => return Err(e),
        }
        proof {
            assert(words_check(open, size, address as int, 2) is Ok);
        }
        match self.write32(address + 8, word2, write_word) {
            Ok(()) => {},
            Err(e) => return Err(e),
        }
        proof {
            assert(words_check(open, size, address as int, 3) is Ok);
        }
        self.write32(address + 12, word3, write_word)
    }
}

} // verus!
