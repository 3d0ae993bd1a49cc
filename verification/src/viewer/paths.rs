//! File paths, and the hashes of what is loaded from them.
//!
//! How a path is taken apart depends on the machine, which may have separators
//! of its own and prefixes such as drives. Paths that hold neither are taken apart
//! alike everywhere; of all others it is only said which question was answered.
//! What is made of the parts is decided in [`crate::viewer::files`].

use crate::text::text_of;
use std::collections::hash_map::DefaultHasher;
use std::hash::Hash;
use vstd::prelude::*;

verus! {

/// Whether a path means the same on every machine: `/` is its only separator,
/// and nothing in it could name a drive, a share or a device.
pub open spec fn is_portable(path: Seq<char>) -> bool {
    &&& !path.contains('\\')
    &&& !path.contains(':')
    &&& !(path.len() > 1 && path[0] == '/' && path[1] == '/')
}

/// Whether a path begins at the root.
pub open spec fn is_rooted(path: Seq<char>) -> bool {
    path.len() > 0 && path[0] == '/'
}

/// What follows the last `/` of a path; all of it where there is none.
pub open spec fn last_part(path: Seq<char>) -> Seq<char> {
    match path.index_of_last('/') {
        Some(i) => path.skip(i + 1),
        None => path,
    }
}

/// What stands before the last `/` of a path; nothing where there is none.
pub open spec fn front_part(path: Seq<char>) -> Seq<char> {
    match path.index_of_last('/') {
        Some(i) => path.take(i),
        None => seq![],
    }
}

/// A path without the separators, and the `.` behind them, that it ends in: they
/// are no components of it.
pub open spec fn trimmed(path: Seq<char>) -> Seq<char>
    decreases path.len(),
{
    proof {
        path.index_of_last_ensures('/');
    }
    if path.contains('/') && (last_part(path).len() == 0 || last_part(path) == seq!['.']) {
        trimmed(front_part(path))
    } else {
        path
    }
}

/// The last component of a path, unless it is the root, `.` or `..`.
pub open spec fn file_name_of(path: Seq<char>) -> Option<Seq<char>> {
    let part = last_part(trimmed(path));
    if part.len() == 0 || part == seq!['.'] || part == seq!['.', '.'] {
        None
    } else {
        Some(part)
    }
}

/// A path without its last component, if it has one besides the root.
pub open spec fn parent_of(path: Seq<char>) -> Option<Seq<char>> {
    let whole = trimmed(path);
    let front = trimmed(front_part(whole));
    if whole.len() == 0 {
        None
    } else if front.len() == 0 && whole.contains('/') {
        Some(seq!['/'])
    } else {
        Some(front)
    }
}

/// Whether a path is `path` behind `base`, or `path` itself where that begins at
/// the root. Between the two stands a separator of the machine, unless `base` is
/// empty or ends in one.
pub open spec fn joins(joined: Seq<char>, base: Seq<char>, path: Seq<char>) -> bool {
    if is_rooted(path) {
        joined == path
    } else if base.len() == 0 || base.last() == '/' {
        joined == base + path
    } else {
        joined == base + seq!['/'] + path || joined == base + seq!['\\'] + path
    }
}

/// The part of a file's name behind its last `.`, unless that begins the name.
pub open spec fn extension_of(path: Seq<char>) -> Option<Seq<char>> {
    match file_name_of(path) {
        Some(name) => match name.index_of_last('.') {
            Some(i) => if i > 0 {
                Some(name.skip(i + 1))
            } else {
                None
            },
            None => None,
        },
        None => None,
    }
}

/// Whether a machine may take a path to be absolute, or not to be.
pub uninterp spec fn may_be_absolute(path: Seq<char>, absolute: bool) -> bool;

/// Whether a machine may join two paths to this one.
pub uninterp spec fn may_join(base: Seq<char>, path: Seq<char>, joined: Seq<char>) -> bool;

/// Whether a machine may take this for the file name of a path.
pub uninterp spec fn may_name(path: Seq<char>, name: Option<Seq<char>>) -> bool;

/// Whether a machine may take this for the parent of a path.
pub uninterp spec fn may_parent(path: Seq<char>, parent: Option<Seq<char>>) -> bool;

/// Whether a machine may take this for the extension of a path.
pub uninterp spec fn may_extend(path: Seq<char>, extension: Option<Seq<char>>) -> bool;

/// Whether a machine may feed this to a hasher for a path.
pub uninterp spec fn may_feed(path: Seq<char>, fed: Seq<Seq<u8>>) -> bool;

/// Calls `std::path::Path::is_absolute`. A portable path that does not begin at
/// the root is not absolute. Whether one that does is, and what makes any other
/// path absolute, depends on the machine, and is not stated.
#[verifier::external_body]
pub(crate) fn path_is_absolute(path: &str) -> (r: bool)
    ensures
        may_be_absolute(path@, r),
        is_portable(path@) && r ==> is_rooted(path@),
{
    std::path::Path::new(path).is_absolute()
}

/// Calls `std::path::Path::join`, which puts a path behind another one, or in its
/// place where it begins at the root. Which separator it puts between two
/// portable paths, and what it makes of others, depends on the machine, and is
/// not stated.
#[verifier::external_body]
pub(crate) fn path_join(base: &str, path: &str) -> (r: String)
    ensures
        may_join(base@, path@, r@),
        is_portable(base@) && is_portable(path@) ==> joins(r@, base@, path@),
{
    std::path::Path::new(base).join(path).to_string_lossy().into_owned()
}

/// Calls `std::path::Path::file_name`, which returns the last component of a
/// path, unless that is the root, `.` or `..`. Separators at the end, repeated
/// ones, and a `.` behind one add no component. Which components a path that is
/// not portable has depends on the machine, and is not stated.
#[verifier::external_body]
pub(crate) fn path_file_name(path: &str) -> (r: Option<String>)
    ensures
        may_name(path@, text_of(r)),
        is_portable(path@) ==> text_of(r) == file_name_of(path@),
{
    std::path::Path::new(path).file_name().map(|name| name.to_string_lossy().into_owned())
}

/// Calls `std::path::Path::parent`, which returns the path without its last
/// component, if it has one besides the root: what the path begins with, up to
/// the component before. Which components a path that is not portable has
/// depends on the machine, and is not stated.
#[verifier::external_body]
pub(crate) fn path_parent(path: &str) -> (r: Option<String>)
    ensures
        may_parent(path@, text_of(r)),
        is_portable(path@) ==> text_of(r) == parent_of(path@),
        r matches Some(parent) ==> parent@.is_prefix_of(path@),
{
    std::path::Path::new(path).parent().map(|parent| parent.to_string_lossy().into_owned())
}

/// Calls `std::path::Path::extension`, which returns what follows the last `.`
/// of the file name of a path, if it has one behind its first character. Which
/// file name a path that is not portable has depends on the machine, and is not
/// stated.
#[verifier::external_body]
pub(crate) fn path_extension(path: &str) -> (r: Option<String>)
    ensures
        may_extend(path@, text_of(r)),
        is_portable(path@) ==> text_of(r) == extension_of(path@),
{
    std::path::Path::new(path).extension().map(|e| e.to_string_lossy().into_owned())
}

/// Calls `hash` of `std::path::Path`, which feeds a path to a hasher, behind
/// what it has been fed before. What exactly it feeds depends on the machine,
/// and is not stated.
#[verifier::external_body]
pub(crate) fn hash_path(path: &str, hasher: &mut DefaultHasher)
    ensures
        old(hasher)@.is_prefix_of(final(hasher)@),
        may_feed(path@, final(hasher)@.skip(old(hasher)@.len() as int)),
{
    std::path::Path::new(path).hash(hasher)
}

/// What a text feeds to a hasher.
pub uninterp spec fn text_writes(text: Seq<char>) -> Seq<Seq<u8>>;

/// Calls `hash` of `str`, which feeds a text to a hasher, behind what it has been
/// fed before. What it feeds depends on the text alone.
#[verifier::external_body]
pub(crate) fn hash_text(text: &str, hasher: &mut DefaultHasher)
    ensures
        final(hasher)@ == old(hasher)@ + text_writes(text@),
{
    text.hash(hasher)
}

} // verus!
