//! Where the state is kept on disk.

use vstd::prelude::*;
use crate::text::{join_path, joined};

verus! {

/// The directory used where the user has no configuration directory.
pub open spec fn fallback_dir() -> Seq<char> {
    "/tmp"@
}

/// The place of the state file below the base directory.
pub open spec fn state_file_name() -> Seq<char> {
    "wallpaper-manager/state.json"@
}

/// The path of the state file: below the user's configuration directory, and below
/// `/tmp` where there is none.
pub open spec fn state_path_under(config_dir: Option<Seq<char>>) -> Seq<char> {
    joined(
        match config_dir {
            Some(dir) => dir,
            None => fallback_dir(),
        },
        state_file_name(),
    )
}

/// The path of the state file below `config_dir`, and below `/tmp` where there is none.
pub fn state_path(config_dir: Option<&str>) -> (path: String)
    ensures
        path@ == state_path_under(
            match config_dir {
                Some(dir) => Some(dir@),
                None => None,
            },
        ),
{
    match config_dir {
        Some(dir) => join_path(dir, "wallpaper-manager/state.json"),
        None => join_path("/tmp", "wallpaper-manager/state.json"),
    }
}

/// The user's configuration directory as `dirs::config_dir` finds it in the environment
/// of this process; none where it finds none, or finds one whose name is no Unicode
/// text. Nothing is claimed of the directory.
#[verifier::external_body]
pub(crate) fn config_dir() -> (dir: Option<String>) {
    dirs::config_dir().and_then(|path| path.into_os_string().into_string().ok())
}

/// The path of the state file for the user who runs this process.
pub fn get_state_path() -> (path: String)
    ensures
        exists|config_dir: Option<Seq<char>>| path@ == state_path_under(config_dir),
{
    let path = match config_dir() {
        Some(dir) => {
            let path = state_path(Some(dir.as_str()));
            assert(path@ == state_path_under(Some(dir@)));
            path
        },
        None => {
            let path = state_path(None);
            assert(path@ == state_path_under(None));
            path
        },
    };
    path
}

} // verus!
