//! What the desktop interface decides by itself.
use crate::errors::DesktopError;
use crate::path_completion::{resolve_user_path, resolved, UserEnvironment};
use crate::paths::path_bytes;
use crate::text::trimmed;
use std::path::PathBuf;
use vstd::prelude::*;
use vstd::string::*;

verus! {

/// Where a torrent is downloaded to: the place that the request names, and the default directory
/// where it names none or nothing but white space.
pub fn output_dir_for(
    requested: &Option<String>,
    default_dir: &PathBuf,
    env: &UserEnvironment,
) -> (res: Result<PathBuf, DesktopError>)
    ensures
        match *requested {
            Some(text) if trimmed(text@).len() > 0 => match resolved(text@, *env) {
                Ok(dir) => res is Ok && path_bytes(res->Ok_0) == dir,
                Err(error) => {
                    &&& res is Err
                    &&& res->Err_0 is OutputDirectory
                    &&& res->Err_0->requested@ == trimmed(text@)
                    &&& res->Err_0->cause == error
                },
            },
            _ => res == Ok::<PathBuf, DesktopError>(*default_dir),
        },
{
    if let Some(text) = requested {
        let path = text.as_str().trim();
        if !path.is_empty() {
            return match resolve_user_path(text.as_str(), env) {
                Ok(dir) => Ok(dir),
                Err(cause) => Err(
                    DesktopError::OutputDirectory { requested: path.to_owned(), cause },
                ),
            };
        }
    }
    Ok(default_dir.clone())
}

} // verus!
