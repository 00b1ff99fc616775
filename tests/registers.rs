use std::cell::RefCell;
use vnp4rs::mmio::{Mmio, MmioConfig, MmioError};

fn window(size: usize) -> Mmio {
    Mmio::mapped(MmioConfig { path: "/dev/uio0".to_string(), size, offset: 0 })
}

fn memory(words: &[u32]) -> impl Fn(usize) -> u32 + '_ {
    move |a: usize| words[a / 4]
}

#[test]
fn read32_checks_then_reads() {
    let m = window(16);
    let words = [0x11, 0x22, 0x33, 0x44];
    let read = memory(&words);
    assert_eq!(m.read32(4, &read), Ok(0x22));
    assert_eq!(m.read32(2, &read), Err(MmioError::UnalignedAccess { address: 2, alignment: 4 }));
    assert_eq!(m.read32(16, &read), Err(MmioError::OutOfBounds { address: 16, size: 16 }));
    assert_eq!(m.read32(usize::MAX - 3, &read), Err(MmioError::OutOfBounds { address: usize::MAX - 3, size: 16 }));
}

#[test]
fn read64_joins_low_word_first() {
    let m = window(16);
    let words = [0x89ab_cdef, 0x0123_4567, 0, 0];
    assert_eq!(m.read64(0, &memory(&words)), Ok(0x0123_4567_89ab_cdef));
    assert_eq!(m.read64(12, &memory(&words)), Err(MmioError::OutOfBounds { address: 16, size: 16 }));
}

#[test]
fn read128_joins_four_words() {
    let m = window(16);
    let words = [1, 2, 3, 4];
    let expected = 1u128 | (2u128 << 32) | (3u128 << 64) | (4u128 << 96);
    assert_eq!(m.read128(0, &memory(&words)), Ok(expected));
    assert_eq!(m.read128(4, &memory(&words)), Err(MmioError::OutOfBounds { address: 16, size: 16 }));
}

#[test]
fn write64_and_write128_split_words() {
    let m = window(16);
    let store = RefCell::new(vec![0u32; 4]);
    let write = |a: usize, v: u32| store.borrow_mut()[a / 4] = v;
    assert_eq!(m.write64(8, 0x0123_4567_89ab_cdef, &write), Ok(()));
    assert_eq!(*store.borrow(), vec![0, 0, 0x89ab_cdef, 0x0123_4567]);
    assert_eq!(m.write128(0, 1u128 | (2u128 << 32) | (3u128 << 64) | (4u128 << 96), &write), Ok(()));
    assert_eq!(*store.borrow(), vec![1, 2, 3, 4]);
    assert_eq!(m.write64(12, 5, &write), Err(MmioError::OutOfBounds { address: 16, size: 16 }));
    assert_eq!(store.borrow()[3], 5);
    assert_eq!(m.write32(1, 5, &write), Err(MmioError::UnalignedAccess { address: 1, alignment: 4 }));
}

#[test]
fn closed_window_refuses_access() {
    let mut m = window(16);
    assert!(m.is_mapped());
    assert_eq!(m.close(), Ok(()));
    assert_eq!(m.close(), Err(MmioError::AlreadyClosed));
    let words = [0u32; 4];
    assert_eq!(m.read32(0, &memory(&words)), Err(MmioError::AlreadyClosed));
    assert_eq!(m.read32(1, &memory(&words)), Err(MmioError::UnalignedAccess { address: 1, alignment: 4 }));
    assert_eq!(m.config().size, 16);
}
