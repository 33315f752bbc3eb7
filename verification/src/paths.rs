//! The `std::path` operations that the planner uses, on paths held as text.
//!
//! Each operation is `std::path` itself, called on the text of the path. Its result depends
//! on its arguments and on the path rules compiled into the build (Windows rules for a
//! Windows build, Unix rules otherwise), never on anything at run time; it is named below,
//! and nothing proved here depends on which rules a build has. Only facts that hold under
//! both rules are stated beside the names.

use vstd::prelude::*;
use std::path::{Path, PathBuf};
use crate::text::opt_chars;

verus! {

/// What `Path::parent` gives for a path.
pub uninterp spec fn path_parent(p: Seq<char>) -> Option<Seq<char>>;

/// What `Path::file_name` gives for a path.
pub uninterp spec fn path_file_name(p: Seq<char>) -> Option<Seq<char>>;

/// What `Path::file_stem` gives for a path.
pub uninterp spec fn path_file_stem(p: Seq<char>) -> Option<Seq<char>>;

/// What `Path::extension` gives for a path (without the full stop).
pub uninterp spec fn path_extension(p: Seq<char>) -> Option<Seq<char>>;

/// What `Path::join` gives for a base path and a part.
pub uninterp spec fn path_joined(base: Seq<char>, part: Seq<char>) -> Seq<char>;

/// What `Path::with_file_name` gives for a path and a new file name.
pub uninterp spec fn path_with_file_name(p: Seq<char>, name: Seq<char>) -> Seq<char>;

/// Whether `Path`'s `==` (component-wise equality) holds of two paths.
pub uninterp spec fn path_equal(a: Seq<char>, b: Seq<char>) -> bool;

/// `Path`'s `Ord` (component-wise order) of two paths: -1, 0 or 1.
pub uninterp spec fn path_order(a: Seq<char>, b: Seq<char>) -> int;

/// The path rebuilt from its components (`Path::components` collected into a `PathBuf`):
/// the same text for all paths that `==` holds between.
pub uninterp spec fn path_normal_form(p: Seq<char>) -> Seq<char>;

/// `Path::parent`: the path without its final component, if it has one. The parent is
/// always shorter than the path, as it drops at least that component.
#[verifier::external_body]
pub(crate) fn parent_of(p: &str) -> (r: Option<String>)
    ensures
        opt_chars(r) == path_parent(p@),
        match r {
            Some(q) => q@.len() < p@.len(),
            None => true,
        },
{
    match Path::new(p).parent() {
        Some(q) => Some(q.to_string_lossy().into_owned()),
        None => None,
    }
}

/// `Path::file_name`: the final component, unless the path ends in `..` or a root.
#[verifier::external_body]
pub(crate) fn file_name_of(p: &str) -> (r: Option<String>)
    ensures
        opt_chars(r) == path_file_name(p@),
{
    match Path::new(p).file_name() {
        Some(n) => Some(n.to_string_lossy().into_owned()),
        None => None,
    }
}

/// `Path::file_stem`: the file name without its extension.
#[verifier::external_body]
pub(crate) fn file_stem_of(p: &str) -> (r: Option<String>)
    ensures
        opt_chars(r) == path_file_stem(p@),
{
    match Path::new(p).file_stem() {
        Some(n) => Some(n.to_string_lossy().into_owned()),
        None => None,
    }
}

/// `Path::extension`: the part of the file name after its last full stop, if any.
#[verifier::external_body]
pub(crate) fn extension_of(p: &str) -> (r: Option<String>)
    ensures
        opt_chars(r) == path_extension(p@),
{
    match Path::new(p).extension() {
        Some(n) => Some(n.to_string_lossy().into_owned()),
        None => None,
    }
}

/// `Path::join`: `part` appended to `base` after a separator (or `part` itself when it is
/// absolute).
#[verifier::external_body]
pub(crate) fn join_path(base: &str, part: &str) -> (r: String)
    ensures
        r@ == path_joined(base@, part@),
{
    Path::new(base).join(part).to_string_lossy().into_owned()
}

/// `Path::with_file_name`: the path with its final component replaced by `name`.
#[verifier::external_body]
pub(crate) fn with_file_name(p: &str, name: &str) -> (r: String)
    ensures
        r@ == path_with_file_name(p@, name@),
{
    Path::new(p).with_file_name(name).to_string_lossy().into_owned()
}

/// `==` on `Path`: component-wise equality, which holds at least between equal texts.
#[verifier::external_body]
pub(crate) fn same_path(a: &str, b: &str) -> (r: bool)
    ensures
        r == path_equal(a@, b@),
        a@ == b@ ==> r,
{
    Path::new(a) == Path::new(b)
}

/// `Ord::cmp` on `Path` as -1, 0 or 1. As for every `Ord`, swapping the paths flips the
/// answer, and a path is equal to itself.
#[verifier::external_body]
pub(crate) fn compare_paths(a: &str, b: &str) -> (r: i8)
    ensures
        r == path_order(a@, b@),
        r == -1 || r == 0 || r == 1,
        path_order(b@, a@) == -r,
        a@ == b@ ==> r == 0,
{
    match Path::new(a).cmp(Path::new(b)) {
        std::cmp::Ordering::Less => -1,
        std::cmp::Ordering::Equal => 0,
        std::cmp::Ordering::Greater => 1,
    }
}

/// The path rebuilt from its components, a key under which `==` paths coincide.
#[verifier::external_body]
pub(crate) fn normal_form(p: &str) -> (r: String)
    ensures
        r@ == path_normal_form(p@),
{
    Path::new(p).components().collect::<PathBuf>().to_string_lossy().into_owned()
}

} // verus!
