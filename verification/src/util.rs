use vstd::prelude::*;

verus! {

/// Relies on std::path::Path::exists: asks the file system whether the path
/// names something that exists. Nothing can be promised of what is on disk.
#[verifier::external_body]
fn path_exists(path: &str) -> (r: bool) {
    std::path::Path::new(path).exists()
}

/// Whether a file of this name exists. The empty path names no file and is
/// answered false without asking the file system.
pub fn file_exists(file_path: &str) -> (r: bool)
    ensures
        file_path@.len() == 0 ==> r == false,
{
    if file_path.is_empty() {
        return false;
    }
    path_exists(file_path)
}

} // verus!
