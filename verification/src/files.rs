use vstd::prelude::*;
use crate::text::{has_prefix, str_starts_with};

verus! {

broadcast use vstd::string::group_string_axioms;

/// Whether a directory entry counts as a data file: it is a regular file (`is_file`) and its
/// name `file_name` does not start with a dot (hidden files are passed over).
pub fn is_valid_file(file_name: &str, is_file: bool) -> (b: bool)
    ensures
        b == (!has_prefix(file_name@, "."@) && is_file),
{
    if str_starts_with(file_name, ".") {
        return false;
    }
    is_file
}

} // verus!
