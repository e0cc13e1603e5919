use gdu_core::blocks::{
    has_configuration, has_userspace_mount_option, is_flash, should_display, BlockFacts,
    ConfigurationItem, FailedQuery,
};
use gdu_core::enums::{
    default_unit, DurationFlagSet, GduFormatDurationFlags, ResizeFlagSet, ResizeFlags, UnitSize,
};
use gdu_core::mounter::{
    button_label, needs_remount, user_visible_error_msg, window_setup, Action, Description,
    Mounted, WindowSetup,
};

#[test]
fn unit_sizes() {
    assert_eq!(UnitSize::Byte.size_in_bytes(), 1);
    assert_eq!(UnitSize::KByte.size_in_bytes(), 1_000);
    assert_eq!(UnitSize::MByte.size_in_bytes(), 1_000_000);
    assert_eq!(UnitSize::GByte.size_in_bytes(), 1_000_000_000);
    assert_eq!(UnitSize::TByte.size_in_bytes(), 1_000_000_000_000);
    assert_eq!(UnitSize::PByte.size_in_bytes(), 1_000_000_000_000_000);
    assert_eq!(UnitSize::KiByte.size_in_bytes(), 1 << 10);
    assert_eq!(UnitSize::MiByte.size_in_bytes(), 1 << 20);
    assert_eq!(UnitSize::GiByte.size_in_bytes(), 1 << 30);
    assert_eq!(UnitSize::TiByte.size_in_bytes(), 1 << 40);
    assert_eq!(UnitSize::PiByte.size_in_bytes(), 1 << 50);
    assert_eq!(UnitSize::Byte.place(), 0);
    assert_eq!(UnitSize::PiByte.place(), 10);
}

#[test]
fn default_unit_is_the_largest_with_more_than_ten() {
    assert_eq!(default_unit(0), 0);
    assert_eq!(default_unit(10_000), 0);
    assert_eq!(default_unit(10_001), 1);
    assert_eq!(default_unit(10_000_000), 1);
    assert_eq!(default_unit(10_000_001), 2);
    assert_eq!(default_unit(10_000_000_000), 2);
    assert_eq!(default_unit(10_000_000_001), 3);
    assert_eq!(default_unit(10_000_000_000_000), 3);
    assert_eq!(default_unit(10_000_000_000_001), 4);
    assert_eq!(default_unit(u64::MAX), 4);
}

#[test]
fn duration_flags_form_sets() {
    let none = DurationFlagSet::empty();
    assert!(!none.contains(GduFormatDurationFlags::NoSeconds));
    assert!(!none.contains(GduFormatDurationFlags::SubSecondPrecision));
    let quiet = none.with(GduFormatDurationFlags::NoSeconds);
    assert!(quiet.contains(GduFormatDurationFlags::NoSeconds));
    assert!(!quiet.contains(GduFormatDurationFlags::SubSecondPrecision));
    let both = quiet.with(GduFormatDurationFlags::SubSecondPrecision);
    assert!(both.contains(GduFormatDurationFlags::NoSeconds));
    assert!(both.contains(GduFormatDurationFlags::SubSecondPrecision));
    assert_eq!(both.bits, 3);
    assert_eq!(DurationFlagSet::from_bits(3), Some(both));
    assert_eq!(DurationFlagSet::from_bits(4), None);
    assert_eq!(GduFormatDurationFlags::SubSecondPrecision.bits(), 1);
    assert_eq!(GduFormatDurationFlags::NoSeconds.bits(), 2);
}

#[test]
fn resize_flags_form_sets() {
    assert_eq!(ResizeFlags::OfflineShrink.bits(), 1 << 1);
    assert_eq!(ResizeFlags::OfflineGrow.bits(), 1 << 2);
    assert_eq!(ResizeFlags::OnlineShrink.bits(), 1 << 3);
    assert_eq!(ResizeFlags::OnlineGrow.bits(), 1 << 4);
    let set = ResizeFlagSet::empty().with(ResizeFlags::OnlineGrow).with(ResizeFlags::OfflineGrow);
    assert!(set.contains(ResizeFlags::OnlineGrow));
    assert!(set.contains(ResizeFlags::OfflineGrow));
    assert!(!set.contains(ResizeFlags::OnlineShrink));
    assert!(!set.contains(ResizeFlags::OfflineShrink));
    assert_eq!(set.bits, 20);
    assert_eq!(ResizeFlagSet::from_bits(20), Some(set));
    assert_eq!(ResizeFlagSet::from_bits(30).map(|s| s.bits), Some(30));
    assert_eq!(ResizeFlagSet::from_bits(1), None);
    assert_eq!(ResizeFlagSet::from_bits(32), None);
    assert_eq!(ResizeFlagSet::from_bits(0), Some(ResizeFlagSet::empty()));
}

fn strings(values: &[&str]) -> Vec<String> {
    values.iter().map(|v| v.to_string()).collect()
}

#[test]
fn mount_options_and_media() {
    let options = strings(&["x-gvfs-show", "x-gdu.hide"]);
    assert!(has_userspace_mount_option(&options, "x-gdu.hide"));
    assert!(!has_userspace_mount_option(&options, "x-gdu"));
    assert!(!has_userspace_mount_option(&Vec::new(), "x-gdu.hide"));
    assert!(is_flash(&strings(&["optical_cd", "flash_sd"])));
    assert!(is_flash(&strings(&["flash"])));
    assert!(!is_flash(&strings(&["optical_cd", "thumb_flash"])));
    assert!(!is_flash(&Vec::new()));
}

fn item(kind: &str, path: Option<&str>) -> ConfigurationItem {
    ConfigurationItem { kind: kind.to_string(), passphrase_path: path.map(|p| p.to_string()) }
}

#[test]
fn configuration_is_found_by_kind() {
    let config = vec![item("fstab", None), item("crypttab", Some("/etc/keys/disk")), item("crypttab", None)];
    assert_eq!(has_configuration(&config, "fstab"), (true, false));
    assert_eq!(has_configuration(&config, "crypttab"), (true, true));
    assert_eq!(has_configuration(&config, "other"), (false, false));
    assert_eq!(has_configuration(&vec![item("crypttab", Some(""))], "crypttab"), (true, false));
    assert_eq!(
        has_configuration(&vec![item("crypttab", Some("/dev/urandom"))], "crypttab"),
        (true, false)
    );
    assert_eq!(has_configuration(&vec![item("crypttab", None)], "crypttab"), (true, false));
    assert_eq!(
        has_configuration(&vec![item("fstab", Some("/etc/keys/disk"))], "fstab"),
        (true, false)
    );
}

fn disk() -> BlockFacts {
    BlockFacts {
        hidden: false,
        device: Some("/dev/sdb".to_string()),
        size: Some(8_000_000_000),
        is_loop: false,
        is_partition: false,
        drive: Some("/".to_string()),
        crypto_backing_device: Some("/".to_string()),
    }
}

#[test]
fn should_display_offers_top_level_devices() {
    assert_eq!(should_display(&disk()), Ok(true));
    assert_eq!(should_display(&BlockFacts { hidden: true, device: None, ..disk() }), Ok(false));
    assert_eq!(
        should_display(&BlockFacts { device: Some("/dev/ram0".to_string()), ..disk() }),
        Ok(false)
    );
    assert_eq!(
        should_display(&BlockFacts { device: Some("/dev/zram1".to_string()), ..disk() }),
        Ok(false)
    );
    assert_eq!(
        should_display(&BlockFacts { size: Some(0), is_loop: true, ..disk() }),
        Ok(false)
    );
    assert_eq!(should_display(&BlockFacts { size: Some(0), ..disk() }), Ok(true));
    assert_eq!(should_display(&BlockFacts { is_loop: true, ..disk() }), Ok(true));
    assert_eq!(should_display(&BlockFacts { is_partition: true, ..disk() }), Ok(false));
    assert_eq!(
        should_display(&BlockFacts {
            drive: Some("/org/freedesktop/UDisks2/drives/a".to_string()),
            ..disk()
        }),
        Ok(false)
    );
    assert_eq!(
        should_display(&BlockFacts {
            crypto_backing_device: Some("/org/freedesktop/UDisks2/block_devices/sdb1".to_string()),
            ..disk()
        }),
        Ok(false)
    );
}

#[test]
fn should_display_reports_the_first_question_that_failed() {
    assert_eq!(should_display(&BlockFacts { device: None, size: None, ..disk() }), Err(FailedQuery::Device));
    assert_eq!(should_display(&BlockFacts { size: None, drive: None, ..disk() }), Err(FailedQuery::Size));
    assert_eq!(should_display(&BlockFacts { drive: None, ..disk() }), Err(FailedQuery::Drive));
    assert_eq!(
        should_display(&BlockFacts { crypto_backing_device: None, ..disk() }),
        Err(FailedQuery::CryptoBackingDevice)
    );
    assert_eq!(
        should_display(&BlockFacts { is_partition: true, drive: None, ..disk() }),
        Ok(false)
    );
}

#[test]
fn actions_have_labels_and_messages() {
    assert_eq!(Action::default(), Action::OpenInFiles);
    assert_eq!(button_label(Action::OpenInFiles), "Open in Files");
    assert_eq!(button_label(Action::OpenInFilesWritable), "Edit Image");
    assert_eq!(button_label(Action::Unmount), "Unmount");
    assert_eq!(button_label(Action::Write), "Write to Drive…");
    assert_eq!(button_label(Action::Inspect), "Inspect");
    assert_eq!(user_visible_error_msg(Action::OpenInFiles), "Failed to mount file");
    assert_eq!(user_visible_error_msg(Action::OpenInFilesWritable), "Failed to mount file");
    assert_eq!(user_visible_error_msg(Action::Unmount), "Failed to unmount file");
    assert_eq!(user_visible_error_msg(Action::Write), "Failed to write image");
    assert_eq!(user_visible_error_msg(Action::Inspect), "Failed to inspect image");
    assert_eq!(Action::OpenInFilesWritable.nick(), "open-in-files-writable");
}

#[test]
fn window_starts_out_by_what_the_image_is() {
    let plain = WindowSetup {
        description: Description::Unchanged,
        continue_action: Action::OpenInFiles,
        unmount_row_visible: false,
        opens_mounted_image: false,
        open_files_row_sensitive: true,
        open_files_edit_row_sensitive: true,
    };
    assert_eq!(window_setup(true, Mounted::No), plain);
    assert_eq!(
        window_setup(false, Mounted::Writable),
        WindowSetup {
            description: Description::NotMountable,
            continue_action: Action::Write,
            ..plain
        }
    );
    assert_eq!(
        window_setup(true, Mounted::ReadOnly),
        WindowSetup {
            description: Description::AlreadyMountedReadOnly,
            unmount_row_visible: true,
            opens_mounted_image: true,
            open_files_edit_row_sensitive: false,
            ..plain
        }
    );
    assert_eq!(
        window_setup(true, Mounted::Writable),
        WindowSetup {
            description: Description::AlreadyMounted,
            continue_action: Action::Unmount,
            unmount_row_visible: true,
            opens_mounted_image: true,
            open_files_row_sensitive: false,
            ..plain
        }
    );
    assert_eq!(
        window_setup(true, Mounted::Unknown),
        WindowSetup { unmount_row_visible: true, opens_mounted_image: true, ..plain }
    );
    assert_eq!(
        Description::NotMountable.text(),
        Some("Compressed image files are not mountable")
    );
    assert_eq!(Description::AlreadyMounted.text(), Some("Already mounted"));
    assert_eq!(Description::AlreadyMountedReadOnly.text(), Some("Already mounted read-only"));
    assert_eq!(Description::Unchanged.text(), None);
}

#[test]
fn remount_is_needed_for_a_locked_image() {
    assert!(needs_remount(Some("/")));
    assert!(!needs_remount(Some("/org/freedesktop/UDisks2/block_devices/dm_2d0")));
    assert!(!needs_remount(None));
}
