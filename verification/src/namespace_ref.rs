use vstd::prelude::*;

use std::rc::Rc;

use crate::error::Error;
use crate::namespace::{namespace_type_label, Namespace, NamespaceType};

verus! {

/// A content-object identifier: the bytes of a content hash, held as plain
/// data so that chains can be built and compared without an object store.
#[derive(Debug)]
pub struct ObjectId {
    pub bytes: Vec<u8>,
}

impl ObjectId {
    /// Total constructor from raw hash bytes.
    pub fn new(bytes: Vec<u8>) -> (r: ObjectId)
        ensures
            r.bytes@ == bytes@,
    {
        ObjectId { bytes }
    }
}

/// A namespace node linked to its content object and, optionally, to a parent
/// node one level up. The parent link is shared: several children may point
/// at the same ancestor.
#[derive(Debug)]
pub struct NamespaceRef {
    pub namespace: Namespace,
    pub oid: ObjectId,
    pub parent: Option<Rc<NamespaceRef>>,
}

impl NamespaceRef {
    /// Total constructor: the parent-kind invariant is deliberately not
    /// checked here; it is enforced on demand by the typed accessors.
    pub fn new(namespace: Namespace, oid: ObjectId, parent: Option<Rc<NamespaceRef>>) -> (r:
        NamespaceRef)
        ensures
            r.namespace == namespace,
            r.oid == oid,
            r.parent == parent,
    {
        NamespaceRef { namespace, oid, parent }
    }
}

/// The parent a typed walk expects: the child's parent node when it exists
/// and has the expected kind, nothing otherwise.
pub open spec fn typed_parent(child: NamespaceRef, expected: NamespaceType) -> Option<
    NamespaceRef,
> {
    match child.parent {
        None => None,
        Some(p) => if (*p).namespace.namespace_type == expected {
            Some(*p)
        } else {
            None
        },
    }
}

/// A reference proven at construction to sit at the `Domain` level: the root
/// of a chain, so it exposes no parent accessor.
#[derive(Debug)]
pub struct DomainNamespaceRef<'a> {
    pub ns_ref: &'a NamespaceRef,
}

impl<'a> DomainNamespaceRef<'a> {
    /// Accepts exactly the references whose namespace kind is `Domain`.
    pub fn new(ns_ref: &'a NamespaceRef) -> (r: Result<DomainNamespaceRef<'a>, Error>)
        ensures
            ns_ref.namespace.namespace_type == NamespaceType::Domain ==> (r matches Ok(d)
                && d.ns_ref == ns_ref),
            ns_ref.namespace.namespace_type != NamespaceType::Domain ==> (r matches Err(e)
                && (e matches Error::NamespaceMismatch { t1, t2 } && t1@ == "DomainNamespaceRef"@
                && t2@ == namespace_type_label(ns_ref.namespace.namespace_type))),
    {
        match &ns_ref.namespace.namespace_type {
            NamespaceType::Domain => Ok(DomainNamespaceRef { ns_ref }),
            ns => Err(Error::NamespaceMismatch {
                t1: "DomainNamespaceRef".to_owned(),
                t2: ns.to_string(),
            }),
        }
    }

    /// Accessor back to the untyped reference.
    pub fn raw(&self) -> (r: &'a NamespaceRef)
        ensures
            r == self.ns_ref,
    {
        self.ns_ref
    }
}

/// A reference proven at construction to sit at the `User` level.
#[derive(Debug)]
pub struct UserNamespaceRef<'a> {
    pub ns_ref: &'a NamespaceRef,
}

impl<'a> UserNamespaceRef<'a> {
    /// Accepts exactly the references whose namespace kind is `User`.
    pub fn new(ns_ref: &'a NamespaceRef) -> (r: Result<UserNamespaceRef<'a>, Error>)
        ensures
            ns_ref.namespace.namespace_type == NamespaceType::User ==> (r matches Ok(d)
                && d.ns_ref == ns_ref),
            ns_ref.namespace.namespace_type != NamespaceType::User ==> (r matches Err(e)
                && (e matches Error::NamespaceMismatch { t1, t2 } && t1@ == "UserNamespaceRef"@
                && t2@ == namespace_type_label(ns_ref.namespace.namespace_type))),
    {
        match &ns_ref.namespace.namespace_type {
            NamespaceType::User => Ok(UserNamespaceRef { ns_ref }),
            ns => Err(Error::NamespaceMismatch {
                t1: "UserNamespaceRef".to_owned(),
                t2: ns.to_string(),
            }),
        }
    }

    /// Accessor back to the untyped reference.
    pub fn raw(&self) -> (r: &'a NamespaceRef)
        ensures
            r == self.ns_ref,
    {
        self.ns_ref
    }

    /// The `Domain`-typed view of this reference's parent. A missing parent
    /// or one of another kind signals a corrupted chain, not bad user input.
    pub fn parent(&self) -> (r: Result<DomainNamespaceRef<'a>, Error>)
        ensures
            match typed_parent(*self.ns_ref, NamespaceType::Domain) {
                Some(p) => r matches Ok(d) && *d.ns_ref == p,
                None => r is Err,
            },
    {
        match &self.ns_ref.parent {
            None => Err(Error::NamespaceMismatch {
                t1: "DomainNamespaceRef".to_owned(),
                t2: "None".to_owned(),
            }),
            Some(parent) => DomainNamespaceRef::new(&**parent),
        }
    }
}

/// A reference proven at construction to sit at the `Repository` level: the
/// leaf of a chain.
#[derive(Debug)]
pub struct RepositoryNamespaceRef<'a> {
    pub ns_ref: &'a NamespaceRef,
}

impl<'a> RepositoryNamespaceRef<'a> {
    /// Accepts exactly the references whose namespace kind is `Repository`.
    pub fn new(ns_ref: &'a NamespaceRef) -> (r: Result<RepositoryNamespaceRef<'a>, Error>)
        ensures
            ns_ref.namespace.namespace_type == NamespaceType::Repository ==> (r matches Ok(d)
                && d.ns_ref == ns_ref),
            ns_ref.namespace.namespace_type != NamespaceType::Repository ==> (r matches Err(e)
                && (e matches Error::NamespaceMismatch { t1, t2 }
                && t1@ == "RepositoryNamespaceRef"@
                && t2@ == namespace_type_label(ns_ref.namespace.namespace_type))),
    {
        match &ns_ref.namespace.namespace_type {
            NamespaceType::Repository => Ok(RepositoryNamespaceRef { ns_ref }),
            ns => Err(Error::NamespaceMismatch {
                t1: "RepositoryNamespaceRef".to_owned(),
                t2: ns.to_string(),
            }),
        }
    }

    /// Accessor back to the untyped reference.
    pub fn raw(&self) -> (r: &'a NamespaceRef)
        ensures
            r == self.ns_ref,
    {
        self.ns_ref
    }

    /// The `User`-typed view of this reference's parent. A missing parent or
    /// one of another kind signals a corrupted chain, not bad user input.
    pub fn parent(&self) -> (r: Result<UserNamespaceRef<'a>, Error>)
        ensures
            match typed_parent(*self.ns_ref, NamespaceType::User) {
                Some(p) => r matches Ok(u) && *u.ns_ref == p,
                None => r is Err,
            },
    {
        match &self.ns_ref.parent {
            None => Err(Error::NamespaceMismatch {
                t1: "UserNamespaceRef".to_owned(),
                t2: "None".to_owned(),
            }),
            Some(parent) => UserNamespaceRef::new(&**parent),
        }
    }
}

/// Walking a three-level chain built as Domain, then User with the Domain as
/// parent, then Repository with the User as parent, gives back exactly the
/// original nodes: the repository's typed parent is the user node, and the
/// user's typed parent is the domain node.
pub proof fn lemma_three_level_chain_walk(d: NamespaceRef, u: NamespaceRef, r: NamespaceRef)
    requires
        d.namespace.namespace_type == NamespaceType::Domain,
        u.namespace.namespace_type == NamespaceType::User,
        r.namespace.namespace_type == NamespaceType::Repository,
        u.parent matches Some(p) && *p == d,
        r.parent matches Some(p) && *p == u,
    ensures
        typed_parent(r, NamespaceType::User) == Some(u),
        typed_parent(u, NamespaceType::Domain) == Some(d),
{
}

} // verus!
