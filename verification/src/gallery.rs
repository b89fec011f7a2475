//! The folder of images that the user picks from.

use vstd::prelude::*;
use vstd::string::StringExecFns;
use crate::store::config_dir;
use crate::text::{chars_of, join_path, joined};

verus! {

/// The code of `c`, with the code of the small letter for a capital letter of the
/// Latin alphabet.
pub open spec fn lower_code(c: char) -> int {
    if 0x41 <= c as u32 <= 0x5A {
        c as u32 + 0x20
    } else {
        c as u32 as int
    }
}

/// Whether `a` and `b` are the same text but for the case of Latin letters.
pub open spec fn same_ignoring_case(a: Seq<char>, b: Seq<char>) -> bool {
    a.len() == b.len() && forall|i: int| 0 <= i < a.len() ==> lower_code(a[i]) == lower_code(b[i])
}

/// Whether a file with the extension `extension` counts as an image: the extension is
/// `jpg`, `jpeg`, `png`, `bmp` or `webp`, in small or capital letters.
pub open spec fn is_image_kind(extension: Seq<char>) -> bool {
    ||| same_ignoring_case(extension, "jpg"@)
    ||| same_ignoring_case(extension, "jpeg"@)
    ||| same_ignoring_case(extension, "png"@)
    ||| same_ignoring_case(extension, "bmp"@)
    ||| same_ignoring_case(extension, "webp"@)
}

fn lower_code_of(c: char) -> (code: u32)
    ensures
        code == lower_code(c),
{
    let code: u32 = c as u32;
    if 0x41 <= code && code <= 0x5A {
        code + 0x20
    } else {
        code
    }
}

fn matches_kind(extension: &Vec<char>, kind: &str) -> (same: bool)
    ensures
        same == same_ignoring_case(extension@, kind@),
{
    let wanted = chars_of(kind);
    if extension.len() != wanted.len() {
        return false;
    }
    let mut i: usize = 0;
    while i < extension.len()
        invariant
            i <= extension@.len(),
            wanted@ == kind@,
            extension@.len() == wanted@.len(),
            forall|j: int| 0 <= j < i ==> lower_code(extension@[j]) == lower_code(wanted@[j]),
        decreases extension@.len() - i,
    {
        if lower_code_of(extension[i]) != lower_code_of(wanted[i]) {
            assert(lower_code(extension@[i as int]) != lower_code(kind@[i as int]));
            return false;
        }
        i += 1;
    }
    true
}

/// Whether a file with the extension `extension` (without the dot) is listed as an image.
pub fn is_image_extension(extension: &str) -> (image: bool)
    ensures
        image == is_image_kind(extension@),
{
    let extension = chars_of(extension);
    matches_kind(&extension, "jpg") || matches_kind(&extension, "jpeg") || matches_kind(
        &extension,
        "png",
    ) || matches_kind(&extension, "bmp") || matches_kind(&extension, "webp")
}

/// The folder of images below the user's configuration directory, and below `/tmp`
/// where there is none.
pub open spec fn backgrounds_under(config_dir: Option<Seq<char>>) -> Seq<char> {
    joined(
        match config_dir {
            Some(dir) => dir,
            None => "/tmp"@,
        },
        "backgrounds"@,
    )
}

/// The folder that images are listed from: the folder of `backgrounds_under`, and
/// `/tmp/wallpapers` where that one is a symbolic link.
pub open spec fn images_under(config_dir: Option<Seq<char>>, symlinked: bool) -> Seq<char> {
    if symlinked {
        "/tmp/wallpapers"@
    } else {
        backgrounds_under(config_dir)
    }
}

/// The folder of images below `config_dir`, and below `/tmp` where there is none.
pub fn backgrounds_dir(config_dir: Option<&str>) -> (path: String)
    ensures
        path@ == backgrounds_under(
            match config_dir {
                Some(dir) => Some(dir@),
                None => None,
            },
        ),
{
    match config_dir {
        Some(dir) => join_path(dir, "backgrounds"),
        None => join_path("/tmp", "backgrounds"),
    }
}

/// The folder that images are listed from. `symlinked` says whether the folder that
/// `backgrounds_dir` gives for `config_dir` is a symbolic link.
pub fn images_dir(config_dir: Option<&str>, symlinked: bool) -> (path: String)
    ensures
        path@ == images_under(
            match config_dir {
                Some(dir) => Some(dir@),
                None => None,
            },
            symlinked,
        ),
{
    if symlinked {
        String::from_str("/tmp/wallpapers")
    } else {
        backgrounds_dir(config_dir)
    }
}

/// The folder of images for the user who runs this process, before it is known whether
/// it is a symbolic link.
pub fn get_backgrounds_dir() -> (path: String)
    ensures
        exists|config_dir: Option<Seq<char>>| path@ == backgrounds_under(config_dir),
{
    let path = match config_dir() {
        Some(dir) => {
            let path = backgrounds_dir(Some(dir.as_str()));
            assert(path@ == backgrounds_under(Some(dir@)));
            path
        },
        None => {
            let path = backgrounds_dir(None);
            assert(path@ == backgrounds_under(None));
            path
        },
    };
    path
}

/// The folder that images are listed from for the user who runs this process.
/// `symlinked` says whether the folder of `get_backgrounds_dir` is a symbolic link.
pub fn get_images_dir(symlinked: bool) -> (path: String)
    ensures
        exists|config_dir: Option<Seq<char>>| path@ == images_under(config_dir, symlinked),
{
    let path = match config_dir() {
        Some(dir) => {
            let path = images_dir(Some(dir.as_str()), symlinked);
            assert(path@ == images_under(Some(dir@), symlinked));
            path
        },
        None => {
            let path = images_dir(None, symlinked);
            assert(path@ == images_under(None, symlinked));
            path
        },
    };
    path
}

} // verus!
