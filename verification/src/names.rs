//! Questions about a file name that need no table.
use vstd::prelude::*;
use vstd::string::StringSliceAdditionalSpecFns;

verus! {

/// Whether `name` is not empty and its last byte, read as a character, is
/// `separator`.
pub open spec fn ends_with(name: Seq<u8>, separator: char) -> bool {
    name.len() > 0 && name.last() as char == separator
}

/// The directory separator of the platform, `std::path::MAIN_SEPARATOR`.
/// Which character that is depends on the platform the library is built for,
/// so nothing is claimed of it.
#[verifier::external_body]
fn main_separator() -> (separator: char) {
    std::path::MAIN_SEPARATOR
}

/// Whether `name` ends with the byte that stands for `separator`.
pub fn ends_with_separator(name: &str, separator: char) -> (ends: bool)
    ensures
        ends == ends_with(name.spec_bytes(), separator),
{
    let bytes = name.as_bytes();
    let length: usize = bytes.len();
    if length == 0 {
        return false;
    }
    let last: u8 = bytes[length - 1];
    last as char == separator
}

/// Whether `name` ends with the directory separator of the platform. An empty
/// name does not.
pub fn directory_name_p(name: &str) -> (ends: bool)
    ensures
        exists|separator: char| ends == ends_with(name.spec_bytes(), separator),
        name.spec_bytes().len() == 0 ==> !ends,
{
    let separator = main_separator();
    let ends = ends_with_separator(name, separator);
    assert(ends == ends_with(name.spec_bytes(), separator));
    ends
}

} // verus!
