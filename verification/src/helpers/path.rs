//! Where the files of the program are kept.
use crate::text::{from_chars, push_str, to_chars};
use vstd::prelude::*;

verus! {

/// The directory in which the shared assets are installed.
pub fn assets_dir() -> (dir: String)
    ensures
        dir@ == "/usr/share/rustaman"@,
{
    "/usr/share/rustaman".to_owned()
}

/// The path of `filename` seen from the directory `dir`: `filename` itself
/// where it starts at the root or `dir` is empty, else `dir` and `filename`
/// with one `/` between them.
pub open spec fn joined_path(dir: Seq<char>, filename: Seq<char>) -> Seq<char> {
    if dir.len() == 0 || (filename.len() > 0 && filename[0] == '/') {
        filename
    } else if dir.last() == '/' {
        dir + filename
    } else {
        dir + "/"@ + filename
    }
}

/// The path of the workspace file `filename` in the configuration directory
/// `config_dir`.
pub fn workspace(config_dir: &str, filename: &str) -> (path: String)
    ensures
        path@ == joined_path(config_dir@, filename@),
{
    let mut path = to_chars(config_dir);
    let name = to_chars(filename);
    if path.len() == 0 || (name.len() > 0 && name[0] == '/') {
        return from_chars(&name);
    }
    if path[path.len() - 1] != '/' {
        push_str(&mut path, "/");
    }
    push_str(&mut path, filename);
    from_chars(&path)
}

} // verus!
