//! Parsing of CD cue sheets into a structured document.
//!
//! A cue sheet is a sequence of directive lines.  Each line is read as a
//! [`parser::Command`], and each command is applied to a [`Cuna`], which
//! enforces the rules of the format on the order and the number of
//! directives.

pub mod builder;
pub mod comment;
pub mod cuna;
pub mod decimal;
pub mod error;
pub mod header;
pub mod laws;
pub mod parser;
pub mod text;
pub mod time;
pub mod track;
pub mod utils;
pub mod views;

pub use crate::cuna::Cuna;
pub use crate::cuna::Cuna as CueSheet;

use vstd::prelude::*;
use vstd::string::*;
use crate::text::CharClass;
use crate::text::scan;
use crate::text::scan_from;

verus! {

/// The byte-order mark.
pub const BOM: char = '\u{feff}';

/// A text without the byte-order marks at its start.
pub open spec fn spec_trim_utf8_header(s: Seq<char>) -> Seq<char> {
    s.skip(scan(s, CharClass::Only(BOM), 0))
}

/// Returns `s` without the byte-order marks at its start.
pub fn trim_utf8_header(s: &str) -> (r: &str)
    ensures
        r@ == spec_trim_utf8_header(s@),
{
    let len = s.unicode_len();
    let i = scan_from(s, len, 0, CharClass::Only(BOM));
    s.substring_char(i, len)
}

} // verus!
