//! Lexical errors recorded by the scanner. Errors never interrupt the scan:
//! they are appended to the scanner's error sequence in left-to-right scan
//! order, and the caller decides what a non-empty sequence means.

use crate::text::append_decimal;
use crate::text::spec_decimal;
use vstd::prelude::*;
use vstd::string::StringExecFns;

verus! {

/// One recorded lexical anomaly: a human-readable message and the
/// line/column of the scanner's cursor at the moment of detection.
#[derive(Debug, Clone, PartialEq, Eq)]
pub struct ScannerError {
    pub message: std::string::String,
    pub line: u32,
    pub column: u32,
}

/// Mathematical image of a `ScannerError`.
#[verifier::ext_equal]
pub ghost struct ScannerErrorV {
    pub message: Seq<char>,
    pub line: int,
    pub column: int,
}

impl View for ScannerError {
    type V = ScannerErrorV;

    open spec fn view(&self) -> ScannerErrorV {
        ScannerErrorV { message: self.message@, line: self.line as int, column: self.column as int }
    }
}

impl DeepView for ScannerError {
    type V = ScannerErrorV;

    open spec fn deep_view(&self) -> ScannerErrorV {
        self.view()
    }
}

/// The rendered form of an error, for human-facing diagnostics.
pub open spec fn spec_render(e: ScannerErrorV) -> Seq<char> {
    "[line "@ + spec_decimal(e.line) + "] Error: "@ + e.message
}

impl ScannerError {
    /// Renders the error as `[line <N>] Error: <message>`.
    pub fn render(&self) -> (r: std::string::String)
        ensures
            r@ == spec_render(self@),
    {
        let mut out = String::from_str("[line ");
        append_decimal(&mut out, self.line);
        out.append("] Error: ");
        out.append(self.message.as_str());
        out
    }
}

} // verus!
