//! A small core for a federated, namespaced git-object store: a loose-object
//! codec (zlib inflate, header parsing, object-kind resolution) and a
//! hierarchical namespace model (domain, user, repository) with a compact
//! `domain@user:repository` path-fragment grammar.

use vstd::prelude::*;

pub mod compressed_git_object;
pub mod error;
pub mod git_object;
pub mod namespace;
pub mod namespace_ref;
pub mod namespace_ref_manager;
pub mod path_fragment;
pub mod tree;

verus! {

/// A fixed greeting.
pub fn hoge() -> (r: String)
    ensures
        r@ == "hoge"@,
{
    "hoge".to_owned()
}

} // verus!
