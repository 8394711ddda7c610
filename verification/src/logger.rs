//! The location of the application's log files.
use vstd::prelude::*;
use crate::text::chars_to_string;
use crate::text::push_str_chars;

verus! {

/// The directory that log files are written to.
pub fn get_log_dir() -> (r: String)
    ensures
        r@ == "logs"@,
{
    let mut m: Vec<char> = Vec::new();
    push_str_chars(&mut m, "logs");
    chars_to_string(&m)
}

} // verus!
