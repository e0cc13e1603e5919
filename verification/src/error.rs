//! Errors: what the image mounter can fail with, which failures of the
//! storage manager are worth showing, and how a failure is worded.

use vstd::prelude::*;
use vstd::std_specs::convert::FromSpecImpl;

verus! {

/// Declares `udisks2::Error`, the error of the storage manager's client. A
/// value of it is carried along; nothing is known of what it holds.
#[verifier::external_type_specification]
#[verifier::external_body]
pub struct ExManagerError(udisks2::Error);

/// Declares `zbus::Error`, the error of the message bus, as `udisks2` hands
/// it on. A value of it is carried along; nothing is known of what it holds.
#[verifier::external_type_specification]
#[verifier::external_body]
pub struct ExBusError(udisks2::zbus::Error);

/// Declares `std::io::Error`. A value of it is carried along; nothing is
/// known of what it holds.
#[verifier::external_type_specification]
#[verifier::external_body]
pub struct ExIoError(std::io::Error);

/// A failure of the image mounter.
#[derive(Debug)]
pub enum ImageMounterError {
    /// Talking to the message bus failed.
    Zbus(udisks2::zbus::Error),
    /// Reading or writing failed.
    Io(std::io::Error),
    /// A value could not be converted.
    Conversion,
    /// The input file could not be used.
    File,
}

impl From<udisks2::zbus::Error> for ImageMounterError {
    fn from(value: udisks2::zbus::Error) -> (error: ImageMounterError) {
        ImageMounterError::Zbus(value)
    }
}

impl FromSpecImpl<udisks2::zbus::Error> for ImageMounterError {
    open spec fn obeys_from_spec() -> bool {
        true
    }

    open spec fn from_spec(value: udisks2::zbus::Error) -> ImageMounterError {
        ImageMounterError::Zbus(value)
    }
}

impl From<std::io::Error> for ImageMounterError {
    fn from(value: std::io::Error) -> (error: ImageMounterError) {
        ImageMounterError::Io(value)
    }
}

impl FromSpecImpl<std::io::Error> for ImageMounterError {
    open spec fn obeys_from_spec() -> bool {
        true
    }

    open spec fn from_spec(value: std::io::Error) -> ImageMounterError {
        ImageMounterError::Io(value)
    }
}

impl ImageMounterError {
    /// The failure in words. A bus or I/O error is worded by itself; the
    /// others have a fixed text.
    pub fn message(&self) -> (text: String)
        ensures
            self is Conversion ==> text@ == "Failed to convert value"@,
            self is File ==> text@ == "Failed to interact with input file"@,
            self matches ImageMounterError::Zbus(error)
                ==> vstd::string::to_string_from_display_ensures::<udisks2::zbus::Error>(
                &error,
                text,
            ),
            self matches ImageMounterError::Io(error)
                ==> vstd::string::to_string_from_display_ensures::<std::io::Error>(&error, text),
    {
        match self {
            ImageMounterError::Zbus(error) => error.to_string(),
            ImageMounterError::Io(error) => error.to_string(),
            ImageMounterError::Conversion => "Failed to convert value".to_owned(),
            ImageMounterError::File => "Failed to interact with input file".to_owned(),
        }
    }
}

/// What kind of failure the storage manager reported, as far as showing it
/// goes.
#[derive(Debug, Clone, Copy, PartialEq, Eq, Structural)]
pub enum ManagerErrorKind {
    /// The user cancelled the operation.
    Cancelled,
    /// The user was asked to authenticate and dismissed the question.
    NotAuthorizedDismissed,
    /// Anything else.
    Other,
}

/// The kind of a manager error: `Cancelled` and `NotAuthorizedDismissed` for
/// the variants of `udisks2::Error` that bear these names, `Other` for every
/// other variant. It depends on the error alone.
pub uninterp spec fn error_kind(error: udisks2::Error) -> ManagerErrorKind;

/// The kind of a manager error.
///
/// Tells the variants of `udisks2::Error` apart: `Cancelled` and
/// `NotAuthorizedDismissed` keep their names, every other variant is
/// `Other`. The claim is that the result is the kind of the error, which
/// is the same for the same error each time.
#[verifier::external_body]
fn manager_error_kind(error: &udisks2::Error) -> (kind: ManagerErrorKind)
    ensures
        kind == error_kind(*error),
{
    match error {
        udisks2::Error::Cancelled => ManagerErrorKind::Cancelled,
        udisks2::Error::NotAuthorizedDismissed => ManagerErrorKind::NotAuthorizedDismissed,
        _ => ManagerErrorKind::Other,
    }
}

/// A message for the user: what was being done, and what went wrong.
#[derive(Debug)]
pub struct ErrorMessage {
    pub title: String,
    pub body: String,
}

/// Whether a failure of this kind is shown to the user. One that the user
/// brought about, by cancelling or by dismissing the authentication, never
/// is.
pub fn is_shown(kind: ManagerErrorKind) -> (shown: bool)
    ensures
        shown == (kind is Other),
{
    match kind {
        ManagerErrorKind::Other => true,
        _ => false,
    }
}

/// The message to show for a failure of `kind` worded as `body`, while
/// doing what `title` says; `None` for a failure that is not shown.
pub fn error_message(title: &str, kind: ManagerErrorKind, body: String) -> (message: Option<
    ErrorMessage,
>)
    ensures
        message is Some <==> kind is Other,
        message matches Some(shown) ==> shown.title@ == title@ && shown.body == body,
{
    if is_shown(kind) {
        Some(ErrorMessage { title: title.to_owned(), body })
    } else {
        None
    }
}

/// The message to show for a failure of the storage manager, `None` for one
/// that the user brought about and that is passed over in silence.
///
/// A failure is shown exactly if its kind is `Other`. A message that is
/// shown has `title` for its title and, for its body, the failure as it
/// words itself.
pub fn show_error(title: &str, error: &udisks2::Error) -> (message: Option<ErrorMessage>)
    ensures
        message is Some <==> error_kind(*error) is Other,
        message matches Some(shown) ==> shown.title@ == title@
            && vstd::string::to_string_from_display_ensures::<udisks2::Error>(error, shown.body),
{
    error_message(title, manager_error_kind(error), error.to_string())
}

} // verus!
