//! Asset path resolution.
//!
//! Source paths from JS are interpreted relative to the app's configured
//! assets directory. Absolute paths pass through unchanged, so users who
//! manage their own paths can point at anything they want. The framework
//! bundles no icons or images of its own.
//!
//! Paths are Unix paths held as strings: a path is absolute when it starts
//! with `/`, and joining puts a `/` between the parts unless the first is
//! empty or already ends with one (`PathBuf::join`).
use vstd::prelude::*;
use vstd::string::*;

use crate::text::{has_prefix, starts_with, to_owned_string};

verus! {

/// The assets root of the app: set once, then fixed.
#[derive(Debug)]
pub struct AssetsRoot {
    dir: Option<String>,
}

impl AssetsRoot {
    /// The configured directory, if any.
    pub closed spec fn dir(&self) -> Option<Seq<char>> {
        match self.dir {
            Some(d) => Some(d@),
            None => None,
        }
    }

    /// A root with no directory configured.
    pub fn new() -> (r: Self)
        ensures
            r.dir() is None,
    {
        AssetsRoot { dir: None }
    }
}

/// The directory after a `set_assets_dir(dir)` on a root holding `d`.
pub open spec fn after_set(d: Option<Seq<char>>, dir: Seq<char>) -> Option<Seq<char>> {
    if d is Some {
        d
    } else {
        Some(dir)
    }
}

/// Sets the assets root. The first call wins; later calls are ignored, since
/// changing the root mid-run has no defined meaning.
pub fn set_assets_dir(root: &mut AssetsRoot, dir: String)
    ensures
        final(root).dir() == after_set(old(root).dir(), dir@),
{
    if root.dir.is_none() {
        root.dir = Some(dir);
    }
}

/// The configured assets root, if one was set.
pub fn get_assets_dir(root: &AssetsRoot) -> (r: Option<&String>)
    ensures
        match r {
            Some(d) => root.dir() == Some(d@),
            None => root.dir() is None,
        },
{
    match &root.dir {
        Some(d) => Some(d),
        None => None,
    }
}

/// `base.join(p)` for a relative `p`.
pub open spec fn joined(base: Seq<char>, p: Seq<char>) -> Seq<char> {
    if base.len() > 0 && base.last() != '/' {
        base + "/"@ + p
    } else {
        base + p
    }
}

/// Where a `src` from JS points: an absolute path as is, a relative one
/// under the assets directory, or under the working directory `cwd` when no
/// assets directory is configured.
pub open spec fn resolved_path(src: Seq<char>, dir: Option<Seq<char>>, cwd: Seq<char>) -> Seq<
    char,
> {
    if has_prefix(src, "/"@) {
        src
    } else {
        match dir {
            Some(d) => joined(d, src),
            None => joined(cwd, src),
        }
    }
}

fn join(base: &str, p: &str) -> (r: String)
    ensures
        r@ == joined(base@, p@),
{
    let n = base.unicode_len();
    let mut r = to_owned_string(base);
    if n > 0 && base.get_char(n - 1) != '/' {
        r.append("/");
    }
    r.append(p);
    r
}

/// Resolves a `src` from JS into a filesystem path (see `resolved_path`).
/// A relative path has no leading `/` to trim, so it is joined as it is.
pub fn resolve(src: &str, root: &AssetsRoot, cwd: &str) -> (r: String)
    ensures
        r@ == resolved_path(src@, root.dir(), cwd@),
{
    if starts_with(src, "/") {
        return to_owned_string(src);
    }
    match &root.dir {
        Some(d) => join(d.as_str(), src),
        None => join(cwd, src),
    }
}

/// Once a directory is set, every later `set_assets_dir` keeps it: after
/// any sequence of calls on a fresh root, the root is the first directory.
pub proof fn law_first_assets_dir_wins(first: Seq<char>, later: Seq<Seq<char>>)
    ensures
        later.fold_left(after_set(None, first), |d: Option<Seq<char>>, x: Seq<char>| after_set(d, x))
            == Some(first),
    decreases later.len(),
{
    if later.len() > 0 {
        law_first_assets_dir_wins(first, later.drop_last());
    }
}

} // verus!
