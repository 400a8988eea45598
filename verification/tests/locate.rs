use onyx_image::error::ImageError;
use onyx_image::locate::{locate, MAX_META_OFFSET};

fn kernel_with_marker_at(offset: usize, len: usize) -> Vec<u8> {
    let mut kernel = vec![0x13u8; len];
    kernel[offset..offset + 4].copy_from_slice(b"ONYX");
    kernel
}

#[test]
fn marker_inside_the_window_is_accepted() {
    assert_eq!(MAX_META_OFFSET, 16);
    for offset in 1..=16usize {
        assert_eq!(locate(&kernel_with_marker_at(offset, 128)), Ok(offset));
    }
}

#[test]
fn marker_at_the_start_is_suspicious() {
    assert_eq!(
        locate(&kernel_with_marker_at(0, 128)),
        Err(ImageError::SuspiciousOffset { offset: 0 })
    );
    assert_eq!(locate(b"ONYX"), Err(ImageError::SuspiciousOffset { offset: 0 }));
}

#[test]
fn marker_behind_the_window_is_suspicious() {
    assert_eq!(
        locate(&kernel_with_marker_at(17, 128)),
        Err(ImageError::SuspiciousOffset { offset: 17 })
    );
    assert_eq!(
        locate(&kernel_with_marker_at(5000, 6000)),
        Err(ImageError::SuspiciousOffset { offset: 5000 })
    );
}

#[test]
fn kernel_without_marker_is_malformed() {
    assert_eq!(locate(&[0x13u8; 128]), Err(ImageError::MalformedInput));
    assert_eq!(locate(&[]), Err(ImageError::MalformedInput));
    assert_eq!(locate(b"..ONY"), Err(ImageError::MalformedInput));
    assert_eq!(locate(b"..ONYx.."), Err(ImageError::MalformedInput));
    assert_eq!(locate(b"..XYNO.."), Err(ImageError::MalformedInput));
}

#[test]
fn the_first_marker_decides() {
    let mut kernel = kernel_with_marker_at(8, 128);
    kernel[40..44].copy_from_slice(b"ONYX");
    assert_eq!(locate(&kernel), Ok(8));
    let mut kernel = kernel_with_marker_at(0, 128);
    kernel[8..12].copy_from_slice(b"ONYX");
    assert_eq!(locate(&kernel), Err(ImageError::SuspiciousOffset { offset: 0 }));
    let mut kernel = kernel_with_marker_at(16, 128);
    kernel[20..24].copy_from_slice(b"ONYX");
    assert_eq!(locate(&kernel), Ok(16));
}

#[test]
fn marker_at_the_very_end_is_found() {
    assert_eq!(locate(b".ONYX"), Ok(1));
    assert_eq!(locate(b"OONYX"), Ok(1));
    assert_eq!(locate(b"ONYONYX"), Ok(3));
}

#[test]
fn marker_is_found_in_a_long_kernel() {
    // long enough for the searcher to leave its short-input path
    assert_eq!(locate(&kernel_with_marker_at(12, 100_000)), Ok(12));
    assert_eq!(
        locate(&kernel_with_marker_at(99_000, 100_000)),
        Err(ImageError::SuspiciousOffset { offset: 99_000 })
    );
    assert_eq!(locate(&vec![b'O'; 100_000]), Err(ImageError::MalformedInput));
}
