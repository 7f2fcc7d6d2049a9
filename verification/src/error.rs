use vstd::prelude::*;
use vstd::string::StringExecFns;

verus! {

/// Why a procedure was abandoned.
#[derive(Debug, Clone, PartialEq, Eq)]
pub enum Error {
    /// A remote endpoint could not be reached, or its answer broke off.
    Network { detail: String },
    /// A remote endpoint answered with a status outside 200..=299.
    HttpStatus { code: u16 },
    /// The registry's answer was not JSON with a `latest_version` string.
    Parse { detail: String },
    /// The version record is absent or cannot be read as text.
    NotFound { detail: String },
    /// The version record exists and holds nothing.
    EmptyState,
    /// No release is published for the machine's architecture.
    UnsupportedArchitecture,
    /// A directory or file could not be created, written, moved or removed.
    Filesystem { detail: String },
    /// The link to the executable could not be created.
    Symlink { detail: String },
}

/// An [`Error`] with its texts as sequences of characters.
pub enum ErrorView {
    Network { detail: Seq<char> },
    HttpStatus { code: u16 },
    Parse { detail: Seq<char> },
    NotFound { detail: Seq<char> },
    EmptyState,
    UnsupportedArchitecture,
    Filesystem { detail: Seq<char> },
    Symlink { detail: Seq<char> },
}

impl View for Error {
    type V = ErrorView;

    open spec fn view(&self) -> ErrorView {
        match self {
            Error::Network { detail } => ErrorView::Network { detail: detail@ },
            Error::HttpStatus { code } => ErrorView::HttpStatus { code: *code },
            Error::Parse { detail } => ErrorView::Parse { detail: detail@ },
            Error::NotFound { detail } => ErrorView::NotFound { detail: detail@ },
            Error::EmptyState => ErrorView::EmptyState,
            Error::UnsupportedArchitecture => ErrorView::UnsupportedArchitecture,
            Error::Filesystem { detail } => ErrorView::Filesystem { detail: detail@ },
            Error::Symlink { detail } => ErrorView::Symlink { detail: detail@ },
        }
    }
}

/// The line for a version record that holds nothing.
pub const EMPTY_STATE_TEXT: &'static str =
    "Failed to detect Visual Studio Code version for the current installation!";

/// The line for an architecture without a release.
pub const UNSUPPORTED_TEXT: &'static str =
    "Unfortunately, Visual Studio Code does not support your device's architecture.";

/// The line for a status outside success, up to the status.
pub const HTTP_STATUS_TEXT: &'static str = "The server answered with the HTTP status ";

/// What ends a line that closes with a name or a number.
pub const FULL_STOP: &'static str = ".";

/// The decimal digit `d`.
pub open spec fn digit(d: nat) -> Seq<char> {
    if d == 0 {
        "0"@
    } else if d == 1 {
        "1"@
    } else if d == 2 {
        "2"@
    } else if d == 3 {
        "3"@
    } else if d == 4 {
        "4"@
    } else if d == 5 {
        "5"@
    } else if d == 6 {
        "6"@
    } else if d == 7 {
        "7"@
    } else if d == 8 {
        "8"@
    } else {
        "9"@
    }
}

/// The number `n` in decimal digits, without leading zeros.
pub open spec fn decimal(n: nat) -> Seq<char>
    decreases n,
{
    if n < 10 {
        digit(n)
    } else {
        decimal(n / 10) + digit(n % 10)
    }
}

/// The decimal digit `d`.
fn digit_text(d: u16) -> (text: &'static str)
    requires
        d < 10,
    ensures
        text@ == digit(d as nat),
{
    if d == 0 {
        "0"
    } else if d == 1 {
        "1"
    } else if d == 2 {
        "2"
    } else if d == 3 {
        "3"
    } else if d == 4 {
        "4"
    } else if d == 5 {
        "5"
    } else if d == 6 {
        "6"
    } else if d == 7 {
        "7"
    } else if d == 8 {
        "8"
    } else {
        "9"
    }
}

/// The number `n` in decimal digits, without leading zeros.
pub fn decimal_text(n: u16) -> (text: String)
    ensures
        text@ == decimal(n as nat),
    decreases n,
{
    if n < 10 {
        String::from_str(digit_text(n))
    } else {
        let mut text = decimal_text(n / 10);
        text.append(digit_text(n % 10));
        text
    }
}

impl ErrorView {
    /// The line shown to the user for this error.
    pub open spec fn message(self) -> Seq<char> {
        match self {
            ErrorView::Network { detail } => detail,
            ErrorView::HttpStatus { code } => HTTP_STATUS_TEXT@ + decimal(code as nat) + FULL_STOP@,
            ErrorView::Parse { detail } => detail,
            ErrorView::NotFound { detail } => detail,
            ErrorView::EmptyState => EMPTY_STATE_TEXT@,
            ErrorView::UnsupportedArchitecture => UNSUPPORTED_TEXT@,
            ErrorView::Filesystem { detail } => detail,
            ErrorView::Symlink { detail } => detail,
        }
    }
}

impl Error {
    /// The line shown to the user for this error.
    pub fn message(&self) -> (text: String)
        ensures
            text@ == self@.message(),
    {
        match self {
            Error::Network { detail } => detail.clone(),
            Error::HttpStatus { code } => {
                let mut text = String::from_str(HTTP_STATUS_TEXT);
                let number = decimal_text(*code);
                text.append(number.as_str());
                text.append(FULL_STOP);
                text
            },
            Error::Parse { detail } => detail.clone(),
            Error::NotFound { detail } => detail.clone(),
            Error::EmptyState => String::from_str(EMPTY_STATE_TEXT),
            Error::UnsupportedArchitecture => String::from_str(UNSUPPORTED_TEXT),
            Error::Filesystem { detail } => detail.clone(),
            Error::Symlink { detail } => detail.clone(),
        }
    }
}

} // verus!
