use onyx_image::builder::{read_kernel, KernelImage};
use onyx_image::endian::Endian;
use onyx_image::error::{ImageError, LayoutCheck};
use onyx_image::image::assemble;
use onyx_image::meta::{KernelLayout, KernelMeta, ENCODED_LEN};

fn record() -> KernelMeta {
    KernelMeta {
        kip1_base: 0x1234_5678_9abc_def0,
        loader_base: 0,
        version: 0,
        layout: KernelLayout {
            text_start: 0x100,
            text_end: 0x200,
            rodata_start: 0x200,
            rodata_end: 0x300,
            data_start: 0x300,
            data_end: 0x400,
            bss_start: 0x400,
            bss_end: 0x500,
            kernel_end: 0x2000,
            dynamic_start: 0x480,
        },
    }
}

fn kernel_with(meta: KernelMeta, len: usize, offset: usize, endian: Endian) -> Vec<u8> {
    let mut kernel: Vec<u8> = (0..len).map(|i| (i % 251) as u8 + 1).collect();
    kernel[offset..offset + ENCODED_LEN].copy_from_slice(&meta.encode(endian));
    kernel
}

fn kernel(len: usize, offset: usize, endian: Endian) -> Vec<u8> {
    kernel_with(record(), len, offset, endian)
}

fn loader() -> Vec<u8> {
    (0..1200usize).map(|i| (i % 13) as u8 + 0x80).collect()
}

fn failure(r: Result<KernelImage, ImageError>) -> ImageError {
    match r {
        Ok(_) => panic!("the kernel was accepted"),
        Err(e) => e,
    }
}

#[test]
fn read_kernel_finds_decodes_and_validates() {
    for endian in [Endian::Little, Endian::Big] {
        assert_eq!(read_kernel(&kernel(5000, 8, endian), endian), Ok((8, record())));
        assert_eq!(read_kernel(&kernel(5000, 16, endian), endian), Ok((16, record())));
    }
}

#[test]
fn builder_gives_the_assembled_image() {
    let image = KernelImage::new()
        .with_endian(Endian::Little)
        .with_compression(false)
        .with_version(1, 2, 3)
        .pack_kernel(kernel(5000, 8, Endian::Little))
        .unwrap()
        .pack_loader(loader())
        .unwrap()
        .finish()
        .unwrap();
    let expected = assemble(
        &kernel(5000, 8, Endian::Little),
        8,
        record(),
        &loader(),
        0x0102_0300,
        Endian::Little,
    )
    .unwrap();
    assert_eq!(image, expected);
    assert_eq!(image.len(), 16384);
    let placed = KernelMeta::decode(&image[8..], Endian::Little).unwrap();
    assert_eq!(placed, KernelMeta { loader_base: 8192, version: 0x0102_0300, ..record() });
}

#[test]
fn new_builder_is_little_endian_uncompressed_and_of_version_zero() {
    let image = KernelImage::new()
        .pack_kernel(kernel(100, 4, Endian::Little))
        .unwrap()
        .pack_loader(vec![0xee; 3])
        .unwrap()
        .finish()
        .unwrap();
    assert_eq!(image.len(), 3 * 4096);
    let placed = KernelMeta::decode(&image[4..], Endian::Little).unwrap();
    assert_eq!(placed, KernelMeta { loader_base: 4096, version: 0, ..record() });
    assert_eq!(&image[4096..4099], &[0xee; 3]);
}

#[test]
fn version_is_packed_into_the_upper_three_bytes() {
    for (major, minor, patch, word) in [
        (0u8, 0u8, 0u8, 0u32),
        (1, 2, 3, 0x0102_0300),
        (0, 1, 0, 0x0001_0000),
        (255, 255, 255, 0xffff_ff00),
        (0x80, 0, 0x01, 0x8000_0100),
    ] {
        let image = KernelImage::new()
            .with_version(major, minor, patch)
            .pack_kernel(kernel(100, 4, Endian::Little))
            .unwrap()
            .pack_loader(loader())
            .unwrap()
            .finish()
            .unwrap();
        assert_eq!(KernelMeta::decode(&image[4..], Endian::Little).unwrap().version, word);
    }
}

#[test]
fn big_endian_kernel_is_read_and_written_big_endian() {
    let image = KernelImage::new()
        .with_endian(Endian::Big)
        .with_version(9, 8, 7)
        .pack_kernel(kernel(5000, 12, Endian::Big))
        .unwrap()
        .pack_loader(loader())
        .unwrap()
        .finish()
        .unwrap();
    let placed = KernelMeta::decode(&image[12..], Endian::Big).unwrap();
    assert_eq!(placed, KernelMeta { loader_base: 8192, version: 0x0908_0700, ..record() });
    // loader_base, most significant byte first
    assert_eq!(&image[12 + 12..12 + 20], &[0, 0, 0, 0, 0, 0, 0x20, 0]);
}

#[test]
fn order_of_packing_does_not_matter() {
    let one = KernelImage::new()
        .pack_loader(loader())
        .unwrap()
        .pack_kernel(kernel(5000, 8, Endian::Little))
        .unwrap()
        .with_version(1, 0, 0)
        .finish()
        .unwrap();
    let other = KernelImage::new()
        .with_version(1, 0, 0)
        .pack_kernel(kernel(5000, 8, Endian::Little))
        .unwrap()
        .pack_loader(loader())
        .unwrap()
        .finish()
        .unwrap();
    assert_eq!(one, other);
}

#[test]
fn finishing_twice_from_the_same_parts_gives_the_same_bytes() {
    for compress in [false, true] {
        let build = || {
            KernelImage::new()
                .with_compression(compress)
                .with_version(4, 5, 6)
                .pack_kernel(kernel(5000, 8, Endian::Little))
                .unwrap()
                .pack_loader(loader())
                .unwrap()
                .finish()
                .unwrap()
        };
        assert_eq!(build(), build());
    }
}

#[test]
fn finish_without_kernel_is_an_incomplete_build() {
    assert_eq!(KernelImage::new().finish(), Err(ImageError::IncompleteBuild));
    assert_eq!(
        KernelImage::new().pack_loader(loader()).unwrap().finish(),
        Err(ImageError::IncompleteBuild)
    );
}

#[test]
fn finish_without_loader_is_an_incomplete_build() {
    let with_kernel = || KernelImage::new().pack_kernel(kernel(5000, 8, Endian::Little)).unwrap();
    assert_eq!(with_kernel().finish(), Err(ImageError::IncompleteBuild));
    assert_eq!(
        with_kernel().pack_loader(Vec::new()).unwrap().finish(),
        Err(ImageError::IncompleteBuild)
    );
    assert_eq!(
        with_kernel().with_compression(true).finish(),
        Err(ImageError::IncompleteBuild)
    );
}

#[test]
fn packing_a_kernel_without_marker_fails_as_malformed() {
    let e = failure(KernelImage::new().pack_kernel(vec![0x13; 5000]));
    assert_eq!(e, ImageError::MalformedInput);
    assert_eq!(failure(KernelImage::new().pack_kernel(Vec::new())), ImageError::MalformedInput);
    assert_eq!(read_kernel(&[0x13; 100], Endian::Big), Err(ImageError::MalformedInput));
}

#[test]
fn kernel_with_marker_outside_the_window_is_suspicious() {
    let e = failure(KernelImage::new().pack_kernel(kernel(5000, 0, Endian::Little)));
    assert_eq!(e, ImageError::SuspiciousOffset { offset: 0 });
    let e = failure(KernelImage::new().pack_kernel(kernel(5000, 17, Endian::Little)));
    assert_eq!(e, ImageError::SuspiciousOffset { offset: 17 });
}

#[test]
fn kernel_that_ends_inside_the_record_is_an_io_failure() {
    let mut short = kernel(5000, 8, Endian::Little);
    short.truncate(8 + 63);
    assert_eq!(failure(KernelImage::new().pack_kernel(short)), ImageError::IoFailure);
    assert_eq!(read_kernel(b"....ONYX", Endian::Little), Err(ImageError::IoFailure));
    let mut whole = kernel(5000, 8, Endian::Little);
    whole.truncate(8 + 64);
    assert!(KernelImage::new().pack_kernel(whole).is_ok());
}

#[test]
fn kernel_with_inconsistent_layout_is_an_invariant_violation() {
    let check_of = |meta: KernelMeta, len: usize| {
        failure(KernelImage::new().pack_kernel(kernel_with(meta, len, 8, Endian::Little)))
    };
    let violation = |check: LayoutCheck| ImageError::InvariantViolation { check };

    assert_eq!(check_of(record(), 0x2001), violation(LayoutCheck::KernelEnd));
    let mut meta = record();
    meta.layout.text_start = 0x201;
    assert_eq!(check_of(meta, 5000), violation(LayoutCheck::Text));
    let mut meta = record();
    meta.layout.rodata_end = 0x1ff;
    assert_eq!(check_of(meta, 5000), violation(LayoutCheck::Rodata));
    let mut meta = record();
    meta.layout.data_start = 0x401;
    assert_eq!(check_of(meta, 5000), violation(LayoutCheck::Data));
    let mut meta = record();
    meta.layout.bss_end = 0;
    assert_eq!(check_of(meta, 5000), violation(LayoutCheck::Bss));
    // a kernel exactly as long as kernel_end passes
    assert!(KernelImage::new().pack_kernel(kernel(0x2000, 8, Endian::Little)).is_ok());
}

#[test]
fn kernel_is_decoded_in_the_order_configured_when_it_is_packed() {
    // read as big-endian, kernel_end 0x2000 becomes 0x0020_0000 and the
    // sections stay ordered; the kernel is then written back little-endian
    let image = KernelImage::new()
        .with_endian(Endian::Big)
        .pack_kernel(kernel(5000, 8, Endian::Little))
        .unwrap()
        .with_endian(Endian::Little)
        .pack_loader(loader())
        .unwrap()
        .finish()
        .unwrap();
    let placed = KernelMeta::decode(&image[8..], Endian::Little).unwrap();
    assert_eq!(placed.layout.kernel_end, 0x0020_0000);
    assert_eq!(placed.loader_base, 8192);
}

#[test]
fn messages_name_the_failure() {
    assert_eq!(ImageError::MalformedInput.message(), "Malformed kernel binary!");
    assert_eq!(
        ImageError::SuspiciousOffset { offset: 17 }.message(),
        "suspicious metadata offset found; please confirm"
    );
    assert_eq!(
        ImageError::IncompleteBuild.message(),
        "cannot build kernel image without Kernel or Loader"
    );
    let checks = [
        LayoutCheck::KernelEnd,
        LayoutCheck::Text,
        LayoutCheck::Rodata,
        LayoutCheck::Data,
        LayoutCheck::Bss,
    ];
    let names = ["kernel_end", "text_start", "rodata_start", "data_start", "bss_start"];
    for (check, name) in checks.iter().zip(names) {
        assert!(ImageError::InvariantViolation { check: *check }.message().contains(name));
    }
    assert!(!ImageError::IoFailure.message().is_empty());
}
