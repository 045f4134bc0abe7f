use vstd::prelude::*;
use crate::errors::RenderError;
use crate::paths::parent_dir;

verus! {

/// Relies on fs_err::create_dir_all: creates the directory and every
/// missing parent, and succeeds where they already exist.
#[verifier::external_body]
fn create_dirs(path: &str) -> (r: Result<(), RenderError>)
    ensures
        r matches Err(e) ==> e is Io,
{
    match fs_err::create_dir_all(path) {
        Ok(()) => Ok(()),
        Err(e) => Err(RenderError::Io(format!("{}", e))),
    }
}

/// Relies on fs_err::copy: copies the file's bytes from `from` onto `to`,
/// overwriting whatever is at `to`.
#[verifier::external_body]
fn copy_file(from: &str, to: &str) -> (r: Result<(), RenderError>)
    ensures
        r matches Err(e) ==> e is Io,
{
    match fs_err::copy(from, to) {
        Ok(_) => Ok(()),
        Err(e) => Err(RenderError::Io(format!("{}", e))),
    }
}

/// Makes sure the target's directory exists, then copies the image file
/// onto the target, overwriting any earlier copy. Copying the same image
/// again rewrites the same bytes; a missing source or an unwritable target
/// is fatal to the run.
pub fn relocate_image(source: &str, target: &str) -> (r: Result<(), RenderError>)
    ensures
        r matches Err(e) ==> e is Io,
{
    match parent_dir(target) {
        Some(dir) => {
            match create_dirs(dir.as_str()) {
                Ok(()) => {},
                Err(e) => {
                    return Err(e);
                },
            }
        },
        None => {},
    }
    copy_file(source, target)
}

} // verus!
