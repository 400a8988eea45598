//! Where the source tree lies that the image is built from.

use vstd::prelude::*;

verus! {

/// What `std::path::Path::parent` gives for the path that `path` spells, on
/// the platform that the library is built for: the path without its final
/// component, and `None` where the path is empty or ends in a root.
pub uninterp spec fn parent_spec(path: Seq<char>) -> Option<Seq<char>>;

/// Calls `std::path::Path::parent` on `path`. The parent of a path is a
/// leading part of it, so it is text where the path is.
#[verifier::external_body]
fn parent<'a>(path: &'a str) -> (up: Option<&'a str>)
    ensures
        match up {
            Some(dir) => parent_spec(path@) == Some(dir@),
            None => parent_spec(path@) is None,
        },
{
    match std::path::Path::new(path).parent() {
        Some(dir) => dir.to_str(),
        None => None,
    }
}

/// The path one level up, or the path itself where there is no level
/// above it.
pub open spec fn popped(path: Seq<char>) -> Seq<char> {
    match parent_spec(path) {
        Some(dir) => dir,
        None => path,
    }
}

/// Returns the path to the root of the cargo workspace whose build tool has
/// its manifest in `manifest_dir`: the directory two levels above it.
pub fn project_root(manifest_dir: &str) -> (root: String)
    ensures
        root@ == popped(popped(manifest_dir@)),
{
    let up = match parent(manifest_dir) {
        Some(dir) => dir,
        None => manifest_dir,
    };
    let root = match parent(up) {
        Some(dir) => dir,
        None => up,
    };
    root.to_owned()
}

} // verus!
