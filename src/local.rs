//! Assets on the local filesystem.

use vstd::prelude::*;

use crate::error::AxoassetError;
use crate::remote::opt_view;

verus! {

/// The final component of a path as text, as `std::path::Path::file_name`
/// finds it; `None` where the path has no final normal component (it is
/// empty, a root, or ends in `..`).
pub uninterp spec fn path_file_name(p: Seq<char>) -> Option<Seq<char>>;

/// Relies on `std::path::Path::file_name`: the final component of the path,
/// which for a path given as text is text too.
#[verifier::external_body]
pub(crate) fn file_name_of(p: &str) -> (r: Option<String>)
    ensures
        match r {
            Some(s) => path_file_name(p@) == Some(s@),
            None => path_file_name(p@) is None,
        },
{
    std::path::Path::new(p).file_name().and_then(|n| n.to_str()).map(|n| n.to_string())
}

/// A local asset: a path on the local filesystem and its contents.
#[derive(Debug)]
pub struct LocalAsset {
    /// The file name computed from `origin_path`
    pub filename: String,
    /// Where the asset came from, or, for a new asset, where it is meant to
    /// be written; the file name is taken from it.
    pub origin_path: String,
    /// The contents of the asset
    pub contents: Vec<u8>,
}

/// `b` adjoined to `a` as `std::path::Path::join` does it, as text.
pub uninterp spec fn path_joined(a: Seq<char>, b: Seq<char>) -> Seq<char>;

/// Relies on `std::path::Path::join`: `b` adjoined to `a`; both are text, so
/// the result is text too.
#[verifier::external_body]
fn join_path_text(a: &str, b: &str) -> (r: String)
    ensures
        r@ == path_joined(a@, b@),
{
    std::path::Path::new(a).join(b).to_string_lossy().into_owned()
}

/// `p` with the leading components `base` removed, as
/// `camino::Utf8Path::strip_prefix` does it; `None` where `p` does not
/// start with those components.
pub uninterp spec fn path_stripped(p: Seq<char>, base: Seq<char>) -> Option<Seq<char>>;

/// Relies on `camino::Utf8Path::strip_prefix`: `p` without the leading
/// components `base`, or `None` where it does not start with them.
#[verifier::external_body]
fn strip_prefix(p: &str, base: &str) -> (r: Option<String>)
    ensures
        opt_view(r) == path_stripped(p@, base@),
{
    camino::Utf8Path::new(p).strip_prefix(base).ok().map(|q| q.as_str().to_string())
}

/// Whether `camino::Utf8Path::is_relative` holds of `p`: whether the text
/// of `p` names a relative path rather than an absolute one.
pub uninterp spec fn path_is_relative(p: Seq<char>) -> bool;

/// Relies on `camino::Utf8Path::is_relative`.
#[verifier::external_body]
fn is_relative(p: &str) -> (r: bool)
    ensures
        r == path_is_relative(p@),
{
    camino::Utf8Path::new(p).is_relative()
}

/// The ancestors of `p` as `camino::Utf8Path::ancestors` lists them: `p`
/// itself, its parent, and so on up to the root.
pub uninterp spec fn path_ancestors(p: Seq<char>) -> Seq<Seq<char>>;

/// Relies on `camino::Utf8Path::ancestors`, which always yields at least
/// the path itself, first.
#[verifier::external_body]
fn ancestors_of(p: &str) -> (r: Vec<String>)
    ensures
        r.deep_view() == path_ancestors(p@),
        r.len() >= 1,
        r.deep_view()[0] == p@,
{
    camino::Utf8Path::new(p).ancestors().map(|a| a.as_str().to_string()).collect()
}

/// `start_dir` without a leading `./`; unchanged where it has none.
pub open spec fn without_dot_prefix(start_dir: Seq<char>) -> Seq<char> {
    match path_stripped(start_dir, seq!['.', '/']) {
        Some(rest) => rest,
        None => start_dir,
    }
}

/// Where a search up the directory tree starts: `start_dir` without a
/// leading `./`, taken from the current directory where it is relative.
pub open spec fn search_start_spec(start_dir: Seq<char>, current_dir: Seq<char>) -> Seq<char> {
    let dir = without_dot_prefix(start_dir);
    if path_is_relative(dir) {
        path_joined(current_dir, dir)
    } else {
        dir
    }
}

impl LocalAsset {
    /// A new asset: a path on the local filesystem and its contents. Fails
    /// where the path has no file name.
    pub fn new(origin_path: &str, contents: Vec<u8>) -> (r: Result<LocalAsset, AxoassetError>)
        ensures
            match r {
                Ok(a) => path_file_name(origin_path@) == Some(a.filename@)
                    && a.origin_path@ == origin_path@ && a.contents@ == contents@,
                Err(e) => path_file_name(origin_path@) is None && e is LocalAssetMissingFilename
                    && e->LocalAssetMissingFilename_origin_path@ == origin_path@,
            },
    {
        match LocalAsset::filename(origin_path) {
            Ok(filename) => Ok(LocalAsset { filename, origin_path: origin_path.to_string(), contents }),
            Err(e) => Err(e),
        }
    }

    /// Where a search up the directory tree from `start_dir` starts: the
    /// directory without a leading `./`, joined to `current_dir` where it
    /// is relative. `None` where it is relative and no current directory
    /// was given, so that the caller reads it only when needed.
    pub fn search_start(start_dir: &str, current_dir: Option<&str>) -> (r: Option<String>)
        ensures
            path_is_relative(without_dot_prefix(start_dir@)) && current_dir is None <==> r is None,
            match (r, current_dir) {
                (Some(s), Some(c)) => s@ == search_start_spec(start_dir@, c@),
                (Some(s), None) => s@ == without_dot_prefix(start_dir@),
                _ => true,
            },
    {
        proof {
            reveal_strlit("./");
            assert("./"@ =~= seq!['.', '/']);
        }
        let dir = match strip_prefix(start_dir, "./") {
            Some(rest) => rest,
            None => start_dir.to_string(),
        };
        if is_relative(dir.as_str()) {
            match current_dir {
                Some(c) => Some(join_path_text(c, dir.as_str())),
                None => None,
            }
        } else {
            Some(dir)
        }
    }

    /// The paths at which a search for `desired_filename` looks, nearest
    /// first: the file in `start_dir`, then in each of its ancestors.
    pub fn search_candidates(start_dir: &str, desired_filename: &str) -> (r: Vec<String>)
        ensures
            r.len() == path_ancestors(start_dir@).len(),
            r.len() >= 1,
            forall|i: int| 0 <= i < r.len()
                ==> (#[trigger] r@[i])@ == path_joined(path_ancestors(start_dir@)[i], desired_filename@),
    {
        let dirs = ancestors_of(start_dir);
        let mut out: Vec<String> = Vec::new();
        let mut i: usize = 0;
        while i < dirs.len()
            invariant
                dirs.deep_view() == path_ancestors(start_dir@),
                i <= dirs.len(),
                out.len() == i,
                forall|j: int| 0 <= j < i
                    ==> (#[trigger] out@[j])@ == path_joined(path_ancestors(start_dir@)[j], desired_filename@),
            decreases dirs.len() - i,
        {
            assert(dirs@[i as int]@ == dirs.deep_view()[i as int]);
            out.push(join_path_text(dirs[i].as_str(), desired_filename));
            i = i + 1;
        }
        out
    }

    /// Where the asset is written in `dest_dir`: its file name joined to
    /// the directory.
    pub fn dest_path(&self, dest_dir: &str) -> (r: String)
        ensures
            r@ == path_joined(dest_dir@, self.filename@),
    {
        join_path_text(dest_dir, self.filename.as_str())
    }

    /// Computes the file name of a path: its final component.
    pub fn filename(origin_path: &str) -> (r: Result<String, AxoassetError>)
        ensures
            match r {
                Ok(name) => path_file_name(origin_path@) == Some(name@),
                Err(e) => path_file_name(origin_path@) is None && e is LocalAssetMissingFilename
                    && e->LocalAssetMissingFilename_origin_path@ == origin_path@,
            },
    {
        match file_name_of(origin_path) {
            Some(name) => Ok(name),
            None => Err(AxoassetError::LocalAssetMissingFilename { origin_path: origin_path.to_string() }),
        }
    }
}

} // verus!
