//! Where file operations act: the paths that creating, renaming and moving
//! an entry aim at, refused for input with a `..` component, and the check
//! that a resolved path stays under the root.
//!
//! The caller creates, renames and removes on disk, between these steps.

use crate::paths::{has_dotdot, has_md_extension, has_md_extension_spec, reject_dotdot};
use crate::session::name_or_empty;
use crate::text::{lit, push_str};
use crate::tree::{parent_str, path_join, path_join_str, path_parent, path_starts_with, path_starts_with_str};
use vstd::prelude::*;

verus! {

/// `PathBuf::set_file_name`: `p` with its file name replaced by `name`
/// (appended when it has none).
pub uninterp spec fn path_set_file_name(p: Seq<char>, name: Seq<char>) -> Seq<char>;

/// `PathBuf::set_file_name` of std on the path `p`. The result is named,
/// not stated.
#[verifier::external_body]
fn set_file_name_str(p: &str, name: &str) -> (r: String)
    ensures
        r@ == path_set_file_name(p@, name@),
{
    let mut b = std::path::PathBuf::from(p);
    b.set_file_name(name);
    b.to_string_lossy().into_owned()
}

/// The error for input with a `..` component.
pub open spec fn dotdot_error(input: Seq<char>) -> Seq<char> {
    "path must not contain '..' components: "@ + input
}

/// The file a new-file dialog creates: `input` under `base`, with `.md`
/// added to its name unless its extension is `md` in any case.
pub open spec fn new_file_target(base: Seq<char>, input: Seq<char>) -> Result<Seq<char>, Seq<char>> {
    if has_dotdot(input) {
        Err(dotdot_error(input))
    } else {
        let t = path_join(base, input);
        if has_md_extension_spec(t) {
            Ok(t)
        } else {
            Ok(path_set_file_name(t, name_or_empty(t) + ".md"@))
        }
    }
}

/// The directory a new-directory dialog creates: `input` under `base`.
pub open spec fn new_dir_target(base: Seq<char>, input: Seq<char>) -> Result<Seq<char>, Seq<char>> {
    if has_dotdot(input) {
        Err(dotdot_error(input))
    } else {
        Ok(path_join(base, input))
    }
}

/// Where a rename to `new_name` puts `path`: beside it, under the new name.
pub open spec fn rename_target_spec(path: Seq<char>, new_name: Seq<char>) -> Result<Seq<char>, Seq<char>> {
    if has_dotdot(new_name) {
        Err(dotdot_error(new_name))
    } else {
        match path_parent(path) {
            None => Err("path has no parent"@),
            Some(p) => Ok(path_join(p, new_name)),
        }
    }
}

/// Where a move puts `source`: the destination directory (`dest_input`
/// under the root) and the new path (the source's file name in it).
pub open spec fn move_target_spec(root: Seq<char>, source: Seq<char>, dest_input: Seq<char>) -> Result<(Seq<char>, Seq<char>), Seq<char>> {
    if has_dotdot(dest_input) {
        Err(dotdot_error(dest_input))
    } else {
        let dir = path_join(root, dest_input);
        match crate::paths::file_name_spec(source) {
            None => Err("source has no file name"@),
            Some(n) => Ok((dir, path_join(dir, n))),
        }
    }
}

/// The path of the file a new-file dialog creates.
pub fn create_file_target(base: &str, input: &str) -> (r: Result<String, String>)
    ensures
        match r {
            Ok(t) => new_file_target(base@, input@) == Ok::<Seq<char>, Seq<char>>(t@),
            Err(e) => new_file_target(base@, input@) == Err::<Seq<char>, Seq<char>>(e@),
        },
{
    match reject_dotdot(input) {
        Err(e) => {
            return Err(e);
        },
        Ok(()) => {},
    }
    let target = path_join_str(base, input);
    if has_md_extension(target.as_str()) {
        Ok(target)
    } else {
        let mut name = match crate::paths::file_name_chars(target.as_str()) {
            Some(v) => crate::text::string_from_chars(&v),
            None => String::new(),
        };
        push_str(&mut name, ".md");
        Ok(set_file_name_str(target.as_str(), name.as_str()))
    }
}

/// The path of the directory a new-directory dialog creates.
pub fn create_dir_target(base: &str, input: &str) -> (r: Result<String, String>)
    ensures
        match r {
            Ok(t) => new_dir_target(base@, input@) == Ok::<Seq<char>, Seq<char>>(t@),
            Err(e) => new_dir_target(base@, input@) == Err::<Seq<char>, Seq<char>>(e@),
        },
{
    match reject_dotdot(input) {
        Err(e) => Err(e),
        Ok(()) => Ok(path_join_str(base, input)),
    }
}

/// The path a rename of `path` to `new_name` leads to.
pub fn rename_target(path: &str, new_name: &str) -> (r: Result<String, String>)
    ensures
        match r {
            Ok(t) => rename_target_spec(path@, new_name@) == Ok::<Seq<char>, Seq<char>>(t@),
            Err(e) => rename_target_spec(path@, new_name@) == Err::<Seq<char>, Seq<char>>(e@),
        },
{
    match reject_dotdot(new_name) {
        Err(e) => {
            return Err(e);
        },
        Ok(()) => {},
    }
    match parent_str(path) {
        None => Err(lit("path has no parent")),
        Some(p) => Ok(path_join_str(p.as_str(), new_name)),
    }
}

/// The destination directory and the new path of a move of `source` to
/// `dest_input` (relative to the root).
pub fn move_target(root: &str, source: &str, dest_input: &str) -> (r: Result<(String, String), String>)
    ensures
        match r {
            Ok((d, t)) => move_target_spec(root@, source@, dest_input@) == Ok::<(Seq<char>, Seq<char>), Seq<char>>((d@, t@)),
            Err(e) => move_target_spec(root@, source@, dest_input@) == Err::<(Seq<char>, Seq<char>), Seq<char>>(e@),
        },
{
    match reject_dotdot(dest_input) {
        Err(e) => {
            return Err(e);
        },
        Ok(()) => {},
    }
    let dir = path_join_str(root, dest_input);
    match crate::paths::file_name_chars(source) {
        None => Err(lit("source has no file name")),
        Some(v) => {
            let name = crate::text::string_from_chars(&v);
            let t = path_join_str(dir.as_str(), name.as_str());
            Ok((dir, t))
        },
    }
}

/// Refuses a resolved path outside the root (both canonical): the error
/// names both.
pub fn ensure_within_root(canonical_root: &str, canonical_resolved: &str) -> (r: Result<(), String>)
    ensures
        r is Ok <==> path_starts_with(canonical_resolved@, canonical_root@),
        r matches Err(e) ==> e@ == "path escapes root directory: "@ + canonical_resolved@ + " is not within "@
            + canonical_root@,
{
    if path_starts_with_str(canonical_resolved, canonical_root) {
        Ok(())
    } else {
        let mut e = lit("path escapes root directory: ");
        push_str(&mut e, canonical_resolved);
        push_str(&mut e, " is not within ");
        push_str(&mut e, canonical_root);
        Err(e)
    }
}

} // verus!
