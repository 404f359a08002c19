//! Error types of the library.

use vstd::prelude::*;
use crate::text::{push_str, push_u64, string_of, dec_nat};

verus! {

/// The I/O error type of std, opaque to proofs.
#[verifier::external_type_specification]
#[verifier::external_body]
pub struct ExIoError(std::io::Error);

/// The error type of the `zip` crate, opaque to proofs.
#[verifier::external_type_specification]
#[verifier::external_body]
pub struct ExZipError(zip::result::ZipError);

/// The message of an I/O error (`to_string`, its `Display` text). Nothing
/// is stated of the text.
#[verifier::external_body]
pub(crate) fn io_error_text(e: &std::io::Error) -> String {
    e.to_string()
}

/// The message of a `zip` error (`to_string`, its `Display` text). Nothing
/// is stated of the text.
#[verifier::external_body]
pub(crate) fn zip_error_text(e: &zip::result::ZipError) -> String {
    e.to_string()
}

/// Failure while producing HWPX output.
#[derive(Debug)]
pub enum SerializeError {
    /// The XML writer reported an error (its message).
    XmlError(String),
    /// The ZIP container writer reported an error (its message).
    ZipError(String),
}

/// Error of the document engine, usable outside WebAssembly as well.
#[derive(Debug)]
pub enum HwpError {
    /// The file is not a valid document.
    InvalidFile(String),
    /// The requested page does not exist.
    PageOutOfRange(u32),
    /// Rendering failed.
    RenderError(String),
    /// A field operation failed.
    InvalidField(String),
}

/// The user-facing message of an error.
pub open spec fn hwp_error_message(e: HwpError) -> Seq<char> {
    match e {
        HwpError::InvalidFile(msg) => "유효하지 않은 파일: "@ + msg@,
        HwpError::PageOutOfRange(n) => "페이지 "@ + dec_nat(n as nat) + "을(를) 찾을 수 없습니다"@,
        HwpError::RenderError(msg) => "렌더링 오류: "@ + msg@,
        HwpError::InvalidField(msg) => "필드 오류: "@ + msg@,
    }
}

/// The `Debug` notation of a string: the text between double quotes, with
/// characters escaped as `char::escape_debug` does. It depends on the text
/// alone.
pub uninterp spec fn str_debug(s: Seq<char>) -> Seq<char>;

/// Printable ASCII other than the quotes and the backslash: characters
/// that the `Debug` notation of a string keeps as they are.
pub open spec fn debug_plain(s: Seq<char>) -> bool {
    forall|i: int| 0 <= i < s.len() ==> {
        let c = #[trigger] s[i];
        ' ' <= c <= '~' && c != '"' && c != '\\' && c != '\''
    }
}

/// `format!("{:?}", s)` for a string slice: its `Debug` notation. Text
/// made only of printable ASCII other than quotes and backslash comes back
/// between double quotes, unchanged; the escapes of other characters are
/// left to the name `str_debug`.
#[verifier::external_body]
fn debug_str(s: &str) -> (r: String)
    ensures
        r@ == str_debug(s@),
        debug_plain(s@) ==> r@ == seq!['"'] + s@ + seq!['"'],
{
    format!("{:?}", s)
}

/// The `Debug` notation of a serialization error, e.g. `ZipError("...")`.
pub open spec fn serialize_error_debug(e: SerializeError) -> Seq<char> {
    match e {
        SerializeError::XmlError(m) => "XmlError("@ + str_debug(m@) + ")"@,
        SerializeError::ZipError(m) => "ZipError("@ + str_debug(m@) + ")"@,
    }
}

impl HwpError {
    /// The user-facing message (what `Display` shows).
    pub fn message(&self) -> (r: String)
        ensures
            r@ == hwp_error_message(*self),
    {
        match self {
            HwpError::InvalidFile(msg) => {
                let mut s = string_of("유효하지 않은 파일: ");
                push_str(&mut s, msg.as_str());
                s
            },
            HwpError::PageOutOfRange(n) => {
                let mut s = string_of("페이지 ");
                push_u64(&mut s, *n as u64);
                push_str(&mut s, "을(를) 찾을 수 없습니다");
                s
            },
            HwpError::RenderError(msg) => {
                let mut s = string_of("렌더링 오류: ");
                push_str(&mut s, msg.as_str());
                s
            },
            HwpError::InvalidField(msg) => {
                let mut s = string_of("필드 오류: ");
                push_str(&mut s, msg.as_str());
                s
            },
        }
    }

    /// A serialization failure as a rendering error carrying the failure's
    /// `Debug` notation.
    pub fn from_serialize_error(e: SerializeError) -> (r: HwpError)
        ensures
            r matches HwpError::RenderError(m) && m@ == serialize_error_debug(e),
    {
        match e {
            SerializeError::XmlError(m) => {
                let mut s = string_of("XmlError(");
                let d = debug_str(m.as_str());
                push_str(&mut s, d.as_str());
                push_str(&mut s, ")");
                HwpError::RenderError(s)
            },
            SerializeError::ZipError(m) => {
                let mut s = string_of("ZipError(");
                let d = debug_str(m.as_str());
                push_str(&mut s, d.as_str());
                push_str(&mut s, ")");
                HwpError::RenderError(s)
            },
        }
    }
}

} // verus!
