//! Error taxonomy shared by every component of the crate.

use vstd::prelude::*;
use vstd::string::StringExecFns;

verus! {

/// The classes of failure the crate reports.
#[derive(Debug, Clone, Copy, PartialEq, Eq, Structural)]
pub enum ErrorType {
    CliError,
    WinApiError,
    Utf16Error,
    Utf8Error,
    XmlError,
    UnhandledVariant,
    OsError,
    UnhandledLogic,
    WindowsError,
    SerdeJsonError,
    IoError,
    MftError,
    InvalidUsnJournalData,
}

/// An error with a human-readable message and its class.
#[derive(Debug, Clone)]
pub struct WinThingError {
    pub message: String,
    pub kind: ErrorType,
}

/// The decimal digit `d` as a character; callers keep `d` below ten.
pub open spec fn digit_char(d: int) -> char {
    if d == 0 {
        '0'
    } else if d == 1 {
        '1'
    } else if d == 2 {
        '2'
    } else if d == 3 {
        '3'
    } else if d == 4 {
        '4'
    } else if d == 5 {
        '5'
    } else if d == 6 {
        '6'
    } else if d == 7 {
        '7'
    } else if d == 8 {
        '8'
    } else {
        '9'
    }
}

/// The decimal rendering of `n`, most significant digit first.
pub open spec fn spec_decimal(n: int) -> Seq<char>
    decreases n,
{
    if n < 10 {
        seq![digit_char(n)]
    } else {
        spec_decimal(n / 10) + seq![digit_char(n % 10)]
    }
}

fn digit_str(d: u64) -> (s: &'static str)
    requires
        d < 10,
    ensures
        s@ == seq![digit_char(d as int)],
{
    proof {
        reveal_strlit("0");
        reveal_strlit("1");
        reveal_strlit("2");
        reveal_strlit("3");
        reveal_strlit("4");
        reveal_strlit("5");
        reveal_strlit("6");
        reveal_strlit("7");
        reveal_strlit("8");
        reveal_strlit("9");
    }
    let s: &'static str = if d == 0 {
        "0"
    } else if d == 1 {
        "1"
    } else if d == 2 {
        "2"
    } else if d == 3 {
        "3"
    } else if d == 4 {
        "4"
    } else if d == 5 {
        "5"
    } else if d == 6 {
        "6"
    } else if d == 7 {
        "7"
    } else if d == 8 {
        "8"
    } else {
        "9"
    };
    assert(s@ =~= seq![digit_char(d as int)]);
    s
}

/// Renders `n` in decimal.
pub fn decimal_string(n: u64) -> (s: String)
    ensures
        s@ == spec_decimal(n as int),
    decreases n,
{
    if n < 10 {
        digit_str(n).to_owned()
    } else {
        let mut s = decimal_string(n / 10);
        s.append(digit_str(n % 10));
        s
    }
}

impl WinThingError {
    pub fn cli_error(message: String) -> (r: Self)
        ensures
            r.kind == ErrorType::CliError,
            r.message == message,
    {
        Self { message, kind: ErrorType::CliError }
    }

    pub fn unhandled_variant(message: String) -> (r: Self)
        ensures
            r.kind == ErrorType::UnhandledVariant,
            r.message == message,
    {
        Self { message, kind: ErrorType::UnhandledVariant }
    }

    pub fn utf16_error(message: String) -> (r: Self)
        ensures
            r.kind == ErrorType::Utf16Error,
            r.message == message,
    {
        Self { message, kind: ErrorType::Utf16Error }
    }

    pub fn winapi_error(message: String) -> (r: Self)
        ensures
            r.kind == ErrorType::WinApiError,
            r.message == message,
    {
        Self { message, kind: ErrorType::WinApiError }
    }

    pub fn xml_error(message: String) -> (r: Self)
        ensures
            r.kind == ErrorType::XmlError,
            r.message == message,
    {
        Self { message, kind: ErrorType::XmlError }
    }

    pub fn unhandled(message: String) -> (r: Self)
        ensures
            r.kind == ErrorType::UnhandledLogic,
            r.message == message,
    {
        Self { message, kind: ErrorType::UnhandledLogic }
    }

    /// The message a Windows error code is reported with.  Message text is
    /// composed here from the code alone; looking the code up in the
    /// operating system's message table is the caller's concern.
    pub open spec fn windows_error_message(err_code: u32) -> Seq<char> {
        "Windows error code: "@ + spec_decimal(err_code as int)
    }

    pub fn from_windows_error_code(err_code: u32) -> (r: Self)
        ensures
            r.kind == ErrorType::WindowsError,
            r.message@ == Self::windows_error_message(err_code),
    {
        let mut message = "Windows error code: ".to_owned();
        message.append(decimal_string(err_code as u64).as_str());
        Self { message, kind: ErrorType::WindowsError }
    }

    /// The message an unexpected journal-metadata byte length is reported with.
    pub open spec fn invalid_journal_message(size: int) -> Seq<char> {
        "Unknown size for UsnJournalData structure: "@ + spec_decimal(size)
    }

    pub fn invalid_usn_journal_data(size: usize) -> (r: Self)
        ensures
            r.kind == ErrorType::InvalidUsnJournalData,
            r.message@ == Self::invalid_journal_message(size as int),
    {
        let mut message = "Unknown size for UsnJournalData structure: ".to_owned();
        message.append(decimal_string(size as u64).as_str());
        Self { message, kind: ErrorType::InvalidUsnJournalData }
    }

    /// The message a raw OS error code is reported with.
    pub open spec fn os_error_message(error_code: int) -> Seq<char> {
        if error_code < 0 {
            "OS error code: -"@ + spec_decimal(-error_code)
        } else {
            "OS error code: "@ + spec_decimal(error_code)
        }
    }

    pub fn os_error(error_code: i32) -> (r: Self)
        ensures
            r.kind == ErrorType::OsError,
            r.message@ == Self::os_error_message(error_code as int),
    {
        let mut message = if error_code < 0 {
            "OS error code: -".to_owned()
        } else {
            "OS error code: ".to_owned()
        };
        let magnitude: u64 = if error_code < 0 {
            (-(error_code as i64)) as u64
        } else {
            error_code as u64
        };
        message.append(decimal_string(magnitude).as_str());
        Self { message, kind: ErrorType::OsError }
    }
}

} // verus!
