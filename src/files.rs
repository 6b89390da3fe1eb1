use vstd::prelude::*;

verus! {

/// Relies on `std::path::Path::exists`: whether the file system holds an
/// entry at `path` at the moment of the call. Nothing is promised of the
/// answer, which depends on the disk.
#[verifier::external_body]
fn path_exists(path: &str) -> (r: bool) {
    std::path::Path::new(path).exists()
}

/// Checks whether a file exists at `filepath`.
pub fn file_check(filepath: &String) -> (r: bool) {
    path_exists(filepath.as_str())
}

} // verus!
