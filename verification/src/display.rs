//! Rendering helper for optional telemetry values.

use vstd::prelude::*;

use crate::ext::render_value;

verus! {

broadcast use vstd::string::to_string_from_display_ensures_for_str;

/// Render an optional value for the display table: the value to the given
/// precision when present, a fixed placeholder when absent.
pub fn fmt_value<T: core::fmt::Display>(value: Option<T>, precision: usize) -> (r: String)
    ensures
        value is None ==> r@ == "N/A"@,
{
    match value {
        Some(v) => render_value(&v, precision),
        None => "N/A".to_string(),
    }
}

} // verus!
