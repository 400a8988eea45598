use onyx_image::endian::Endian;
use onyx_image::error::ImageError;
use onyx_image::image::{align_up, assemble, image_fits, PAGE_SIZE};
use onyx_image::meta::{KernelLayout, KernelMeta, ENCODED_LEN};

fn record() -> KernelMeta {
    KernelMeta {
        kip1_base: 0xfeed_f00d_0000_0001,
        loader_base: 0xdead_beef,
        version: 0x7777_7777,
        layout: KernelLayout {
            text_start: 0x100,
            text_end: 0x200,
            rodata_start: 0x200,
            rodata_end: 0x300,
            data_start: 0x300,
            data_end: 0x400,
            bss_start: 0x400,
            bss_end: 0x500,
            kernel_end: 0x10_0000,
            dynamic_start: 0x480,
        },
    }
}

/// A kernel of `len` bytes, none of them zero, with the record at `offset`.
fn kernel(len: usize, offset: usize, endian: Endian) -> Vec<u8> {
    let mut kernel: Vec<u8> = (0..len).map(|i| (i % 251) as u8 + 1).collect();
    kernel[offset..offset + ENCODED_LEN].copy_from_slice(&record().encode(endian));
    kernel
}

fn loader(len: usize) -> Vec<u8> {
    (0..len).map(|i| (i % 13) as u8 + 0x80).collect()
}

fn round_up(n: usize) -> usize {
    let mut up = 0;
    while up < n {
        up += 4096;
    }
    up
}

#[test]
fn align_up_rounds_to_the_next_multiple() {
    assert_eq!(PAGE_SIZE, 4096);
    assert_eq!(align_up(0, PAGE_SIZE), 0);
    assert_eq!(align_up(1, PAGE_SIZE), 4096);
    assert_eq!(align_up(4095, PAGE_SIZE), 4096);
    assert_eq!(align_up(4096, PAGE_SIZE), 4096);
    assert_eq!(align_up(4097, PAGE_SIZE), 8192);
    assert_eq!(align_up(5000, PAGE_SIZE), 8192);
    assert_eq!(align_up(9392, PAGE_SIZE), 12288);
    assert_eq!(align_up(13, 8), 16);
    assert_eq!(align_up(16, 8), 16);
    assert_eq!(align_up(17, 1), 17);
    assert_eq!(align_up(3, 2), 4);
    assert_eq!(align_up(usize::MAX - 8191, PAGE_SIZE), usize::MAX - 8191);
    assert_eq!(align_up(usize::MAX - 8190, PAGE_SIZE), usize::MAX - 4095);
}

#[test]
fn kernel_of_5000_bytes_and_loader_of_1200_bytes() {
    let kernel = kernel(5000, 8, Endian::Little);
    let loader = loader(1200);
    let image = assemble(&kernel, 8, record(), &loader, 0x0102_0300, Endian::Little).unwrap();
    assert_eq!(image.len(), 16384);
    assert_eq!(&image[8192..9392], &loader[..]);
    assert!(image[12288..16384].iter().all(|b| *b == 0));
    // the gaps are zeros as well
    assert!(image[5000..8192].iter().all(|b| *b == 0));
    assert!(image[9392..12288].iter().all(|b| *b == 0));
    // and the record names the loader's place
    let placed = KernelMeta::decode(&image[8..], Endian::Little).unwrap();
    assert_eq!(placed.loader_base, 8192);
}

#[test]
fn image_is_page_aligned_for_many_lengths() {
    for kernel_len in [72usize, 73, 4095, 4096, 4097, 8191, 8192, 8193, 20000] {
        for loader_len in [1usize, 2, 4095, 4096, 4097, 8192, 10000] {
            let kernel = kernel(kernel_len, 8, Endian::Big);
            let loader = loader(loader_len);
            let image = assemble(&kernel, 8, record(), &loader, 1, Endian::Big).unwrap();
            let start = round_up(kernel_len);
            assert_eq!(image.len() % 4096, 0);
            assert_eq!(image.len(), round_up(start + loader_len) + 4096);
            assert_eq!(&image[start..start + loader_len], &loader[..]);
            assert!(image[image.len() - 4096..].iter().all(|b| *b == 0));
            assert!(image[kernel_len..start].iter().all(|b| *b == 0));
            assert!(image[start + loader_len..].iter().all(|b| *b == 0));
        }
    }
}

#[test]
fn record_is_rewritten_in_place() {
    for endian in [Endian::Little, Endian::Big] {
        for offset in [1usize, 8, 16] {
            let kernel = kernel(5000, offset, endian);
            let loader = loader(1200);
            let image = assemble(&kernel, offset, record(), &loader, 0x0a0b_0c00, endian).unwrap();
            // the bytes around the record are the kernel's
            assert_eq!(&image[..offset], &kernel[..offset]);
            assert_eq!(&image[offset + 64..5000], &kernel[offset + 64..]);
            // the record has its two fields filled in and is otherwise unchanged
            let expected = KernelMeta { loader_base: 8192, version: 0x0a0b_0c00, ..record() };
            assert_eq!(&image[offset..offset + 64], &expected.encode(endian)[..]);
            assert_eq!(KernelMeta::decode(&image[offset..], endian), Ok(expected));
            assert_eq!(expected.kip1_base, 0xfeed_f00d_0000_0001);
        }
    }
}

#[test]
fn kernel_resumes_64_bytes_behind_the_record() {
    // pins the encoded length that the assembler skips: marker included
    let mut kernel = kernel(200, 8, Endian::Little);
    kernel[8 + 60] = 0xaa; // last four bytes of the old record
    kernel[8 + 63] = 0xbb;
    kernel[8 + 64] = 0xcc; // first byte behind it
    kernel[8 + 67] = 0xdd;
    let mut changed = record();
    changed.layout.dynamic_start = 0x0403_0201;
    let image = assemble(&kernel, 8, changed, &loader(10), 0, Endian::Little).unwrap();
    assert_eq!(&image[8 + 60..8 + 64], &[0x01, 0x02, 0x03, 0x04]);
    assert_eq!(image[8 + 64], 0xcc);
    assert_eq!(image[8 + 67], 0xdd);
    assert_eq!(&image[8 + 64..200], &kernel[8 + 64..]);
}

#[test]
fn record_at_the_very_end_of_the_kernel() {
    let kernel = kernel(72, 8, Endian::Little);
    let image = assemble(&kernel, 8, record(), &loader(1), 5, Endian::Little).unwrap();
    assert_eq!(image.len(), 4096 + 4096 + 4096);
    assert_eq!(image[4096], 0x80);
    let placed = KernelMeta::decode(&image[8..], Endian::Little).unwrap();
    assert_eq!(placed.loader_base, 4096);
    assert_eq!(placed.version, 5);
}

#[test]
fn kernel_that_ends_on_a_page_boundary_is_followed_by_the_loader() {
    let kernel = kernel(8192, 16, Endian::Big);
    let loader = loader(4096);
    let image = assemble(&kernel, 16, record(), &loader, 9, Endian::Big).unwrap();
    assert_eq!(image.len(), 8192 + 4096 + 4096);
    assert_eq!(&image[8192..12288], &loader[..]);
    assert_eq!(KernelMeta::decode(&image[16..], Endian::Big).unwrap().loader_base, 8192);
}

#[test]
fn assembling_without_kernel_or_loader_is_an_incomplete_build() {
    let kernel = kernel(5000, 8, Endian::Little);
    assert_eq!(
        assemble(&kernel, 8, record(), &[], 0, Endian::Little),
        Err(ImageError::IncompleteBuild)
    );
    assert_eq!(
        assemble(&[], 0, record(), &loader(10), 0, Endian::Little),
        Err(ImageError::IncompleteBuild)
    );
    assert_eq!(assemble(&[], 0, record(), &[], 0, Endian::Big), Err(ImageError::IncompleteBuild));
}

#[test]
fn assembling_twice_gives_the_same_bytes() {
    let kernel = kernel(5000, 8, Endian::Little);
    let loader = loader(1200);
    let first = assemble(&kernel, 8, record(), &loader, 7, Endian::Little).unwrap();
    let second = assemble(&kernel, 8, record(), &loader, 7, Endian::Little).unwrap();
    assert_eq!(first, second);
    let other = assemble(&kernel, 8, record(), &loader, 8, Endian::Little).unwrap();
    assert_ne!(first, other);
}

#[test]
fn image_fits_unless_its_length_overflows() {
    assert!(image_fits(5000, 1200));
    assert!(image_fits(0, 0));
    assert!(image_fits(usize::MAX - 3 * 4096, 1));
    assert!(!image_fits(usize::MAX, 1));
    assert!(!image_fits(1, usize::MAX));
    assert!(!image_fits(usize::MAX - 4096, 1));
    assert!(!image_fits(usize::MAX / 2 + 1, usize::MAX / 2 + 1));
    // the last image that fits ends one page below the top
    assert!(image_fits(usize::MAX - 12287, 4096));
    assert!(!image_fits(usize::MAX - 12287, 4097));
}
