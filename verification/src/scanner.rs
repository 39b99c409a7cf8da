//! Barcode validation and format detection for scanner input.

use vstd::prelude::*;

use crate::chars::char_alphanumeric;
use crate::chars::char_numeric;
use crate::chars::is_alphanumeric_char;
use crate::chars::is_numeric_char;

verus! {

/// Barcode scanner configuration.
#[derive(Debug, Clone)]
pub struct ScannerConfig {
    /// Enable scanner listening.
    pub enabled: bool,
    /// Input buffer timeout in milliseconds.
    pub buffer_timeout_ms: u32,
    /// Minimum barcode length, in characters.
    pub min_length: usize,
    /// Maximum barcode length, in characters.
    pub max_length: usize,
    /// Expected suffix sent by the scanner after a code.
    pub suffix: String,
}

impl Default for ScannerConfig {
    fn default() -> (r: Self)
        ensures
            r.enabled == true,
            r.buffer_timeout_ms == 50,
            r.min_length == 4,
            r.max_length == 50,
            r.suffix@ == "\r"@,
    {
        ScannerConfig {
            enabled: true,
            buffer_timeout_ms: 50,
            min_length: 4,
            max_length: 50,
            suffix: String::from_str("\r"),
        }
    }
}

/// One barcode read delivered by a scanner.
#[derive(Debug, Clone)]
pub struct ScanResult {
    pub barcode: String,
    pub timestamp: String,
    pub scan_type: String,
}

/// Scanner listener status.
#[derive(Debug, Clone)]
pub struct ScannerStatus {
    pub active: bool,
    pub last_scan: Option<ScanResult>,
    pub scan_count: u32,
}

/// A parsed barcode with its detected symbology.
#[derive(Debug, Clone)]
pub struct BarcodeInfo {
    pub raw: String,
    pub barcode_type: String,
    pub valid: bool,
}

/// Characters a scanned barcode may contain: alphanumeric, hyphen, underscore.
pub open spec fn barcode_char_ok(c: char) -> bool {
    char_alphanumeric(c) || c == '-' || c == '_'
}

/// Every character of `s` is numeric.
pub open spec fn all_numeric(s: Seq<char>) -> bool {
    forall|i: int| 0 <= i < s.len() ==> char_numeric(#[trigger] s[i])
}

/// Every character of `s` is allowed in a Code 39 barcode here:
/// alphanumeric, hyphen or space.
pub open spec fn all_code39(s: Seq<char>) -> bool {
    forall|i: int| 0 <= i < s.len() ==> char_alphanumeric(#[trigger] s[i]) || s[i] == '-' || s[i]
        == ' '
}

/// The symbology name assigned to a barcode of the given characters.
pub open spec fn barcode_type_of(s: Seq<char>) -> Seq<char> {
    if all_numeric(s) {
        if s.len() == 8 {
            "EAN-8"@
        } else if s.len() == 12 {
            "UPC-A"@
        } else if s.len() == 13 {
            "EAN-13"@
        } else if s.len() == 14 {
            "ITF-14"@
        } else if 1 <= s.len() <= 48 {
            "Code 128"@
        } else {
            "Unknown"@
        }
    } else {
        if all_code39(s) {
            "Code 39"@
        } else {
            "Custom"@
        }
    }
}

/// Whether `input` looks like a barcode under `config`: length within bounds
/// and only allowed characters.
pub open spec fn spec_valid_barcode(s: Seq<char>, config: &ScannerConfig) -> bool {
    &&& config.min_length <= s.len() <= config.max_length
    &&& forall|i: int| 0 <= i < s.len() ==> barcode_char_ok(#[trigger] s[i])
}

/// Barcode validator: length within the configured bounds, alphanumeric with
/// optional hyphens and underscores.
pub fn is_valid_barcode(input: &str, config: &ScannerConfig) -> (r: bool)
    ensures
        r == spec_valid_barcode(input@, config),
{
    let len = input.unicode_len();
    if len < config.min_length || len > config.max_length {
        return false;
    }
    let mut i: usize = 0;
    while i < len
        invariant
            len == input@.len(),
            i <= len,
            config.min_length <= len <= config.max_length,
            forall|j: int| 0 <= j < i ==> barcode_char_ok(#[trigger] input@[j]),
        decreases len - i,
    {
        let c = input.get_char(i);
        if !(is_alphanumeric_char(c) || c == '-' || c == '_') {
            return false;
        }
        i += 1;
    }
    true
}

/// Detect the barcode symbology from the characters alone.
pub fn detect_barcode_type(barcode: &str) -> (r: String)
    ensures
        r@ == barcode_type_of(barcode@),
{
    let len = barcode.unicode_len();
    let mut is_all_digits = true;
    let mut i: usize = 0;
    while i < len
        invariant
            len == barcode@.len(),
            i <= len,
            is_all_digits <==> forall|j: int| 0 <= j < i ==> char_numeric(#[trigger] barcode@[j]),
        decreases len - i,
    {
        if !is_numeric_char(barcode.get_char(i)) {
            is_all_digits = false;
        }
        i += 1;
    }
    if is_all_digits {
        if len == 8 {
            String::from_str("EAN-8")
        } else if len == 12 {
            String::from_str("UPC-A")
        } else if len == 13 {
            String::from_str("EAN-13")
        } else if len == 14 {
            String::from_str("ITF-14")
        } else if 1 <= len && len <= 48 {
            String::from_str("Code 128")
        } else {
            String::from_str("Unknown")
        }
    } else {
        let mut code39 = true;
        let mut k: usize = 0;
        while k < len
            invariant
                len == barcode@.len(),
                k <= len,
                code39 <==> forall|j: int|
                    0 <= j < k ==> char_alphanumeric(#[trigger] barcode@[j]) || barcode@[j] == '-'
                        || barcode@[j] == ' ',
            decreases len - k,
        {
            let c = barcode.get_char(k);
            if !(is_alphanumeric_char(c) || c == '-' || c == ' ') {
                code39 = false;
            }
            k += 1;
        }
        if code39 {
            String::from_str("Code 39")
        } else {
            String::from_str("Custom")
        }
    }
}

/// Parse a barcode: record the raw text and the detected symbology.
pub fn parse_barcode(barcode: &str) -> (r: BarcodeInfo)
    ensures
        r.raw@ == barcode@,
        r.barcode_type@ == barcode_type_of(barcode@),
        r.valid == true,
{
    let barcode_type = detect_barcode_type(barcode);
    BarcodeInfo { raw: barcode.to_owned(), barcode_type, valid: true }
}

} // verus!
