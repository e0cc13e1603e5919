use gdu_core::image::{
    display_size_warning, is_xz_compressed, mountable, open_image, open_image_bytes,
    xz_image_type, DiskImage, NotCompressed, SizeCheck, SizeProblem, SLACK_LIMIT,
};

/// 3000 bytes, compressed with XZ.
const XZ_OF_3000_BYTES: [u8; 316] = [
    253, 55, 122, 88, 90, 0, 0, 4, 230, 214, 180, 70, 2, 0, 33, 1, 22, 0, 0, 0, 116, 47, 229, 163,
    224, 11, 183, 0, 249, 93, 0, 0, 0, 82, 80, 10, 132, 249, 155, 178, 128, 33, 169, 105, 214, 39,
    224, 62, 6, 90, 95, 4, 141, 83, 212, 4, 186, 57, 87, 5, 9, 193, 85, 36, 222, 157, 184, 113, 89,
    49, 96, 161, 159, 249, 111, 73, 115, 242, 200, 234, 140, 186, 26, 139, 41, 105, 33, 128, 254,
    51, 131, 102, 175, 70, 109, 236, 158, 137, 138, 11, 131, 240, 60, 14, 137, 142, 63, 237, 95,
    231, 158, 144, 217, 28, 255, 50, 244, 178, 224, 57, 81, 178, 210, 20, 21, 180, 197, 113, 186,
    219, 6, 227, 121, 154, 159, 187, 56, 193, 176, 0, 172, 147, 11, 170, 6, 25, 3, 18, 8, 21, 91,
    155, 200, 72, 240, 50, 46, 254, 45, 160, 135, 200, 240, 164, 224, 210, 81, 235, 141, 103, 86,
    146, 178, 77, 132, 197, 241, 134, 49, 223, 106, 98, 91, 194, 121, 45, 217, 247, 60, 115, 186,
    116, 116, 7, 216, 60, 169, 86, 34, 36, 161, 102, 248, 90, 132, 95, 48, 103, 210, 246, 75, 73,
    46, 127, 32, 235, 219, 248, 16, 14, 148, 120, 119, 199, 63, 107, 239, 180, 205, 149, 226, 111,
    246, 68, 110, 6, 207, 11, 130, 26, 203, 219, 122, 240, 87, 141, 152, 255, 144, 192, 62, 230,
    193, 18, 65, 117, 238, 3, 158, 168, 232, 122, 4, 149, 209, 190, 192, 126, 103, 114, 122, 224,
    186, 189, 89, 205, 210, 165, 157, 0, 0, 0, 0, 0, 227, 21, 107, 125, 103, 101, 92, 180, 0, 1,
    149, 2, 184, 23, 0, 0, 205, 211, 145, 53, 177, 196, 103, 251, 2, 0, 0, 0, 0, 4, 89, 90,
];

/// No bytes, compressed with XZ.
const XZ_OF_NOTHING: [u8; 32] = [
    253, 55, 122, 88, 90, 0, 0, 4, 230, 214, 180, 70, 0, 0, 0, 0, 28, 223, 68, 33, 31, 182, 243,
    125, 1, 0, 0, 0, 0, 4, 89, 90,
];

#[test]
fn mountable_denies_only_the_compressed_image_type() {
    assert!(!mountable(Some("application/x-raw-disk-image-xz-compressed")));
    assert!(!mountable(Some(xz_image_type())));
    assert!(mountable(Some("application/x-raw-disk-image")));
    assert!(mountable(Some("application/x-cd-image")));
    assert!(mountable(Some("application/octet-stream")));
    assert!(mountable(Some("text/plain")));
    assert!(mountable(Some("")));
    assert!(mountable(Some("application/x-xz-compressed")));
    assert!(mountable(Some("application/x-raw-disk-image-xz-compressed ")));
    assert!(mountable(Some("Application/x-raw-disk-image-xz-compressed")));
}

#[test]
fn mountable_needs_a_file() {
    assert!(!mountable(None));
}

#[test]
fn xz_is_told_by_the_end_of_the_type() {
    assert!(is_xz_compressed("application/x-raw-disk-image-xz-compressed"));
    assert!(is_xz_compressed("-xz-compressed"));
    assert!(!is_xz_compressed("application/x-raw-disk-image"));
    assert!(!is_xz_compressed("xz-compressed"));
    assert!(!is_xz_compressed("application/x-raw-disk-image-xz-compressed2"));
    assert!(!is_xz_compressed(""));
}

#[test]
fn open_image_takes_the_size_by_the_type() {
    assert_eq!(
        open_image("application/x-raw-disk-image", 4096, None),
        Ok(DiskImage { compressed: false, logical_size: 4096 })
    );
    assert_eq!(
        open_image("application/x-raw-disk-image", 4096, Some(77)),
        Ok(DiskImage { compressed: false, logical_size: 4096 })
    );
    assert_eq!(
        open_image("application/x-raw-disk-image-xz-compressed", 4096, Some(1 << 30)),
        Ok(DiskImage { compressed: true, logical_size: 1 << 30 })
    );
    assert_eq!(
        open_image("application/x-raw-disk-image-xz-compressed", 4096, None),
        Err(NotCompressed)
    );
}

#[test]
fn open_image_bytes_probes_the_stream() {
    assert_eq!(
        open_image_bytes("application/x-raw-disk-image-xz-compressed", &XZ_OF_3000_BYTES),
        Ok(DiskImage { compressed: true, logical_size: 3000 })
    );
    assert_eq!(
        open_image_bytes("application/x-raw-disk-image-xz-compressed", &XZ_OF_NOTHING),
        Ok(DiskImage { compressed: true, logical_size: 0 })
    );
    assert_eq!(
        open_image_bytes("application/x-raw-disk-image", &XZ_OF_3000_BYTES),
        Ok(DiskImage { compressed: false, logical_size: 316 })
    );
    assert_eq!(
        open_image_bytes("application/x-raw-disk-image-xz-compressed", &[1, 2, 3, 4, 5]),
        Err(NotCompressed)
    );
    assert_eq!(
        open_image_bytes("application/x-raw-disk-image-xz-compressed", &[0; 64]),
        Err(NotCompressed)
    );
    assert_eq!(
        open_image_bytes("application/x-raw-disk-image-xz-compressed", &[]),
        Err(NotCompressed)
    );
}

#[test]
fn size_check_passes_an_image_that_fits() {
    let check = display_size_warning("application/x-raw-disk-image", 5 << 20, None, 5 << 20);
    assert_eq!(
        check,
        SizeCheck { compressed: false, size: 5 << 20, failure: None, error: None, warning: None }
    );
    assert!(check.can_start());
}

#[test]
fn size_check_warns_of_more_than_a_megabyte_of_slack() {
    let at_limit = display_size_warning("image", 1_000, None, 1_000 + SLACK_LIMIT);
    assert_eq!(at_limit.warning, None);
    assert_eq!(at_limit.error, None);
    let over = display_size_warning("image", 1_000, None, 1_001 + SLACK_LIMIT);
    assert_eq!(over.warning, Some(1_000_001));
    assert_eq!(over.error, None);
    assert!(over.can_start());
}

#[test]
fn size_check_refuses_an_image_that_is_too_big() {
    let check = display_size_warning("image", 2_000, None, 1_500);
    assert_eq!(check.error, Some(SizeProblem::TooBig(500)));
    assert_eq!(check.warning, None);
    assert!(!check.can_start());
    let huge = display_size_warning("image", u64::MAX, None, 1);
    assert_eq!(huge.error, Some(SizeProblem::TooBig(u64::MAX - 1)));
    let small = display_size_warning("image", 1, None, u64::MAX);
    assert_eq!(small.warning, Some(u64::MAX - 1));
}

#[test]
fn size_check_refuses_an_empty_image() {
    let check = display_size_warning("image", 0, None, 1 << 30);
    assert_eq!(check.error, Some(SizeProblem::Empty));
    assert_eq!(check.failure, None);
    let unpacked_to_nothing = display_size_warning(
        "application/x-raw-disk-image-xz-compressed",
        32,
        Some(0),
        1 << 30,
    );
    assert_eq!(unpacked_to_nothing.error, Some(SizeProblem::Empty));
    assert_eq!(unpacked_to_nothing.failure, None);
    assert_eq!(check.warning, None);
    assert!(!check.can_start());
}

#[test]
fn size_check_counts_a_failed_probe_as_size_zero() {
    let check =
        display_size_warning("application/x-raw-disk-image-xz-compressed", 4096, None, 1 << 30);
    assert_eq!(
        check,
        SizeCheck {
            compressed: true,
            size: 0,
            failure: Some(NotCompressed),
            error: Some(SizeProblem::Empty),
            warning: None
        }
    );
    assert!(!check.can_start());
    assert_eq!(NotCompressed.message(), "File does not appear to be compressed");
    let probed = display_size_warning(
        "application/x-raw-disk-image-xz-compressed",
        4096,
        Some(1 << 30),
        1 << 30,
    );
    assert_eq!(
        probed,
        SizeCheck { compressed: true, size: 1 << 30, failure: None, error: None, warning: None }
    );
}
