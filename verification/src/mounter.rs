//! What the image mounter offers for a file: the actions, their labels, and
//! how the window starts out.

use vstd::prelude::*;

verus! {

/// What to do with the image.
#[derive(Debug, Clone, Copy, PartialEq, Eq, Structural)]
pub enum Action {
    /// Open the image in the file manager.
    OpenInFiles,
    /// Open the image in the file manager, with write access.
    OpenInFilesWritable,
    /// Unmount the mounted image.
    Unmount,
    /// Write the image to a drive.
    Write,
    /// Look at the image in the disk utility.
    Inspect,
}

impl Default for Action {
    fn default() -> (action: Action)
        ensures
            action == Action::OpenInFiles,
    {
        Action::OpenInFiles
    }
}

impl Action {
    /// The nick by which the action is chosen.
    pub fn nick(self) -> (nick: &'static str)
        ensures
            nick@ == match self {
                Action::OpenInFiles => "open-in-files"@,
                Action::OpenInFilesWritable => "open-in-files-writable"@,
                Action::Unmount => "unmount"@,
                Action::Write => "write"@,
                Action::Inspect => "inspect"@,
            },
    {
        match self {
            Action::OpenInFiles => "open-in-files",
            Action::OpenInFilesWritable => "open-in-files-writable",
            Action::Unmount => "unmount",
            Action::Write => "write",
            Action::Inspect => "inspect",
        }
    }
}

/// The label, untranslated, of the button that starts `action`.
pub fn button_label(action: Action) -> (label: &'static str)
    ensures
        label@ == match action {
            Action::OpenInFiles => "Open in Files"@,
            Action::OpenInFilesWritable => "Edit Image"@,
            Action::Unmount => "Unmount"@,
            Action::Write => "Write to Drive…"@,
            Action::Inspect => "Inspect"@,
        },
{
    match action {
        Action::OpenInFiles => "Open in Files",
        Action::OpenInFilesWritable => "Edit Image",
        Action::Unmount => "Unmount",
        Action::Write => "Write to Drive…",
        Action::Inspect => "Inspect",
    }
}

/// The message, untranslated, for a failure of `action`.
pub fn user_visible_error_msg(action: Action) -> (message: &'static str)
    ensures
        message@ == match action {
            Action::OpenInFiles | Action::OpenInFilesWritable => "Failed to mount file"@,
            Action::Unmount => "Failed to unmount file"@,
            Action::Write => "Failed to write image"@,
            Action::Inspect => "Failed to inspect image"@,
        },
{
    match action {
        Action::OpenInFiles | Action::OpenInFilesWritable => "Failed to mount file",
        Action::Unmount => "Failed to unmount file",
        Action::Write => "Failed to write image",
        Action::Inspect => "Failed to inspect image",
    }
}

/// How the image was found at the start.
#[derive(Debug, Clone, Copy, PartialEq, Eq, Structural)]
pub enum Mounted {
    /// The image is not set up as a loop device.
    No,
    /// It is, but whether read-only could not be found out.
    Unknown,
    /// It is, read-only.
    ReadOnly,
    /// It is, writable.
    Writable,
}

/// What the status page says.
#[derive(Debug, Clone, Copy, PartialEq, Eq, Structural)]
pub enum Description {
    /// The page keeps what it said.
    Unchanged,
    NotMountable,
    AlreadyMountedReadOnly,
    AlreadyMounted,
}

impl Description {
    /// The text, untranslated; `None` where the page keeps what it said.
    pub fn text(self) -> (text: Option<&'static str>)
        ensures
            match self {
                Description::Unchanged => text is None,
                Description::NotMountable => text matches Some(t) && t@
                    == "Compressed image files are not mountable"@,
                Description::AlreadyMountedReadOnly => text matches Some(t) && t@
                    == "Already mounted read-only"@,
                Description::AlreadyMounted => text matches Some(t) && t@ == "Already mounted"@,
            },
    {
        match self {
            Description::Unchanged => None,
            Description::NotMountable => Some("Compressed image files are not mountable"),
            Description::AlreadyMountedReadOnly => Some("Already mounted read-only"),
            Description::AlreadyMounted => Some("Already mounted"),
        }
    }
}

/// How the window is set up.
#[derive(Debug, Clone, Copy, PartialEq, Eq, Structural)]
pub struct WindowSetup {
    /// What the status page says.
    pub description: Description,
    /// The action that the button starts.
    pub continue_action: Action,
    /// The row that unmounts is shown.
    pub unmount_row_visible: bool,
    /// The row that opens the image says that it opens the mounted image.
    pub opens_mounted_image: bool,
    /// The row that opens the image can be chosen.
    pub open_files_row_sensitive: bool,
    /// The row that opens the image for editing can be chosen.
    pub open_files_edit_row_sensitive: bool,
}

/// The setup of a window that knows nothing yet.
pub open spec fn plain_setup() -> WindowSetup {
    WindowSetup {
        description: Description::Unchanged,
        continue_action: Action::OpenInFiles,
        unmount_row_visible: false,
        opens_mounted_image: false,
        open_files_row_sensitive: true,
        open_files_edit_row_sensitive: true,
    }
}

/// How the window starts out for an image.
pub open spec fn spec_window_setup(mountable: bool, mounted: Mounted) -> WindowSetup {
    if !mountable {
        WindowSetup {
            description: Description::NotMountable,
            continue_action: Action::Write,
            ..plain_setup()
        }
    } else {
        match mounted {
            Mounted::No => plain_setup(),
            Mounted::Unknown => WindowSetup {
                unmount_row_visible: true,
                opens_mounted_image: true,
                ..plain_setup()
            },
            Mounted::ReadOnly => WindowSetup {
                description: Description::AlreadyMountedReadOnly,
                unmount_row_visible: true,
                opens_mounted_image: true,
                open_files_edit_row_sensitive: false,
                ..plain_setup()
            },
            Mounted::Writable => WindowSetup {
                description: Description::AlreadyMounted,
                continue_action: Action::Unmount,
                unmount_row_visible: true,
                opens_mounted_image: true,
                open_files_row_sensitive: false,
                ..plain_setup()
            },
        }
    }
}

/// How the window starts out. An image that cannot be mounted can only be
/// written to a drive. One that is mounted can be unmounted; mounted
/// read-only it cannot be edited, and mounted writable it is not opened
/// read-only beside.
pub fn window_setup(mountable: bool, mounted: Mounted) -> (setup: WindowSetup)
    ensures
        setup == spec_window_setup(mountable, mounted),
        !mountable ==> setup.continue_action == Action::Write && !setup.unmount_row_visible,
{
    let plain = WindowSetup {
        description: Description::Unchanged,
        continue_action: Action::OpenInFiles,
        unmount_row_visible: false,
        opens_mounted_image: false,
        open_files_row_sensitive: true,
        open_files_edit_row_sensitive: true,
    };
    if !mountable {
        return WindowSetup {
            description: Description::NotMountable,
            continue_action: Action::Write,
            ..plain
        };
    }
    match mounted {
        Mounted::No => plain,
        Mounted::Unknown => WindowSetup {
            unmount_row_visible: true,
            opens_mounted_image: true,
            ..plain
        },
        Mounted::ReadOnly => WindowSetup {
            description: Description::AlreadyMountedReadOnly,
            unmount_row_visible: true,
            opens_mounted_image: true,
            open_files_edit_row_sensitive: false,
            ..plain
        },
        Mounted::Writable => WindowSetup {
            description: Description::AlreadyMounted,
            continue_action: Action::Unmount,
            unmount_row_visible: true,
            opens_mounted_image: true,
            open_files_row_sensitive: false,
            ..plain
        },
    }
}

/// Whether an image that is set up as a loop device has to be set up anew
/// before it is opened: it is encrypted and no unlocked device stands behind
/// it, so that setting it up again brings the question for the passphrase
/// back. `cleartext_device` is the path of the unlocked device, `/` for
/// none, and `None` where the image is not encrypted.
pub fn needs_remount(cleartext_device: Option<&str>) -> (again: bool)
    ensures
        again == (cleartext_device matches Some(path) && path@ == "/"@),
{
    match cleartext_device {
        Some(path) => crate::text::same_text(path, "/"),
        None => false,
    }
}

} // verus!
