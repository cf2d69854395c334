//! Repository roots and the location of the global excludes file.
use vstd::prelude::*;
use vstd::string::*;

verus! {

/// Relies on `Path::exists`: whether something is on disk at the path. The
/// answer depends on the disk, so nothing is stated of it.
#[verifier::external_body]
fn path_exists(path: &str) -> bool {
    std::path::Path::new(path).exists()
}

/// The path of the repository metadata directory of `root`.
pub fn git_dir(root: &str) -> (r: String)
    ensures
        r@ == root@ + "/.git"@,
{
    let mut s = String::from_str(root);
    s.append("/.git");
    s
}

/// Whether `root` is the root of a repository: it holds a `.git` entry.
pub fn is_repo(root: &str) -> bool {
    path_exists(git_dir(root).as_str())
}

/// The global excludes file: the one configured for the version-control
/// tool if any, else `git/ignore` in the user's configuration directory,
/// else `.config/git/ignore` in the home directory.
pub fn global_ignore_path(configured: Option<String>, config_dir: Option<String>, home_dir: Option<String>) -> (r: Option<String>)
    ensures
        configured is Some ==> r == configured,
        configured is None && config_dir is Some ==> r is Some && r->Some_0@ == config_dir->Some_0@ + "/git/ignore"@,
        configured is None && config_dir is None && home_dir is Some ==> r is Some && r->Some_0@ == home_dir->Some_0@ + "/.config/git/ignore"@,
        configured is None && config_dir is None && home_dir is None ==> r is None,
{
    match configured {
        Some(path) => Some(path),
        None => match config_dir {
            Some(dir) => {
                let mut path = dir;
                path.append("/git/ignore");
                Some(path)
            },
            None => match home_dir {
                Some(dir) => {
                    let mut path = dir;
                    path.append("/.config/git/ignore");
                    Some(path)
                },
                None => None,
            },
        },
    }
}

} // verus!
