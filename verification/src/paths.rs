//! Textual model of absolute filesystem paths, and the two filesystem
//! probes the resolver needs: canonicalization and directory existence.
//!
//! Paths are plain strings; a path is identified with its sequence of
//! characters. Canonicalization consults the live filesystem, so nothing
//! exact can be promised of its outcome; every caller states what holds
//! whatever came back.

use vstd::prelude::*;

verus! {

/// `p` names `root` itself or a location strictly beneath it, judged
/// textually on `/`-separated absolute paths.
pub open spec fn is_descendant_path(root: Seq<char>, p: Seq<char>) -> bool {
    ||| p == root
    ||| (root.len() < p.len() && p.subrange(0, root.len() as int) == root && (p[
        root.len() as int
    ] == '/' || (root.len() > 0 && root[root.len() - 1] == '/')))
}

/// The textual join of an absolute directory and one path component.
/// Only a root that is exactly `/` already ends in a separator; every
/// canonical absolute directory other than `/` does not.
pub open spec fn spec_join_path(root: Seq<char>, name: Seq<char>) -> Seq<char> {
    if root == "/"@ {
        root + name
    } else {
        root + "/"@ + name
    }
}

/// Joining a non-empty component under a directory always lands at a
/// descendant of that directory.
pub proof fn lemma_join_is_descendant(root: Seq<char>, name: Seq<char>)
    requires
        name.len() > 0,
    ensures
        is_descendant_path(root, spec_join_path(root, name)),
{
    reveal_strlit("/");
    let p = spec_join_path(root, name);
    if root == "/"@ {
        assert(p.subrange(0, root.len() as int) =~= root);
        assert(root[root.len() - 1] == '/');
    } else {
        assert(p.subrange(0, root.len() as int) =~= root);
        assert(p[root.len() as int] == '/');
    }
}

/// The textual join, executable form.
pub fn join_path(root: &String, name: &str) -> (r: String)
    ensures
        r@ == spec_join_path(root@, name@),
{
    let slash = String::from_str("/");
    if root.eq(&slash) {
        let mut r = root.clone();
        r.append(name);
        r
    } else {
        let mut r = root.clone();
        r.append("/");
        r.append(name);
        r
    }
}

/// Relies on `dunce::canonicalize`: returns the canonical absolute form
/// of an existing path, all symlinks resolved, and fails when the path
/// does not exist. The answer depends on the live filesystem, so nothing
/// is promised of it.
#[verifier::external_body]
fn canonicalize_path(path: &String) -> Option<String> {
    match dunce::canonicalize(path.as_str()) {
        Ok(p) => Some(p.to_string_lossy().into_owned()),
        Err(_) => None,
    }
}

/// Relies on `std::path::Path::is_dir`: whether the path currently names
/// a directory on the live filesystem. The answer depends on the live
/// filesystem, so nothing is promised of it.
#[verifier::external_body]
pub(crate) fn is_existing_dir(path: &String) -> bool {
    std::path::Path::new(path.as_str()).is_dir()
}

/// Canonical form of `path` when it exists; `path` itself otherwise,
/// since the destination may yet be created by the sandboxed process.
pub(crate) fn canonicalize_or_self(path: &String) -> String {
    match canonicalize_path(path) {
        Some(c) => c,
        None => path.clone(),
    }
}

} // verus!
