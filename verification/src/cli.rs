//! Command-line decisions: the theme option and the banner's mode line.

use vstd::prelude::*;
use crate::text::{decimal, decimal_spec};
use crate::unicode::{lowercase, to_lowercase};

verus! {

/// The theme a `--theme` value selects: the value in lower case, when that
/// is `light` or `dark`.
pub open spec fn theme_spec(theme: Seq<char>) -> Option<Seq<char>> {
    let t = lowercase(theme);
    if t == "light"@ || t == "dark"@ {
        Some(t)
    } else {
        None
    }
}

/// Checks a `--theme` value; none when it is neither light nor dark (in any case).
pub fn validate_theme(theme: &str) -> (r: Option<String>)
    ensures
        match r {
            Some(t) => theme_spec(theme@) == Some(t@),
            None => theme_spec(theme@) is None,
        },
{
    let t = to_lowercase(theme);
    if crate::text::str_eq(t.as_str(), "light") || crate::text::str_eq(t.as_str(), "dark") {
        Some(t)
    } else {
        None
    }
}

/// The banner's mode line: how many files were loaded, or the file picker.
pub open spec fn banner_mode_spec(file_count: nat) -> Seq<char> {
    if file_count > 0 {
        decimal_spec(file_count) + " file(s) loaded + auto-reload"@
    } else {
        "file picker (open in browser)"@
    }
}

/// The mode line of the start-up banner.
pub fn banner_mode(file_count: u64) -> (r: String)
    ensures
        r@ == banner_mode_spec(file_count as nat),
{
    if file_count > 0 {
        let mut r = decimal(file_count);
        r.append(" file(s) loaded + auto-reload");
        r
    } else {
        "file picker (open in browser)".to_owned()
    }
}

} // verus!
