use vstd::prelude::*;

use crate::error::Error;

verus! {

/// The three levels of the namespace hierarchy, root to leaf.
#[derive(Debug, PartialEq, Eq, Structural, Clone, Copy)]
pub enum NamespaceType {
    Domain,
    User,
    Repository,
}

/// The text that names each namespace kind; `NamespaceType::to_string`
/// returns exactly this.
pub open spec fn namespace_type_label(t: NamespaceType) -> Seq<char> {
    match t {
        NamespaceType::Domain => "NamespaceType::Domain"@,
        NamespaceType::User => "NamespaceType::User"@,
        NamespaceType::Repository => "NamespaceType::Repository"@,
    }
}

impl NamespaceType {
    /// The kind's name as text.
    pub fn to_string(&self) -> (r: String)
        ensures
            r@ == namespace_type_label(*self),
    {
        match self {
            NamespaceType::Domain => "NamespaceType::Domain".to_owned(),
            NamespaceType::User => "NamespaceType::User".to_owned(),
            NamespaceType::Repository => "NamespaceType::Repository".to_owned(),
        }
    }
}

/// A named node tagged with one of the three hierarchy levels. Immutable once
/// built; equality is structural.
#[derive(Debug)]
pub struct Namespace {
    pub name: String,
    pub namespace_type: NamespaceType,
}

impl Namespace {
    /// Total constructor: any kind and name make a valid namespace.
    pub fn new(namespace_type: NamespaceType, name: &str) -> (r: Namespace)
        ensures
            r.namespace_type == namespace_type,
            r.name@ == name@,
    {
        Namespace { name: name.to_owned(), namespace_type }
    }
}

impl PartialEq for Namespace {
    fn eq(&self, other: &Namespace) -> (r: bool) {
        self.name == other.name && self.namespace_type == other.namespace_type
    }
}

impl vstd::std_specs::cmp::PartialEqSpecImpl for Namespace {
    open spec fn obeys_eq_spec() -> bool {
        true
    }

    open spec fn eq_spec(&self, other: &Namespace) -> bool {
        self.name@ == other.name@ && self.namespace_type == other.namespace_type
    }
}

/// A namespace proven at construction to be of `Domain` kind.
#[derive(Debug)]
pub struct DomainNamespace<'a> {
    pub namespace: &'a Namespace,
}

impl<'a> DomainNamespace<'a> {
    /// Accepts exactly the namespaces whose kind is `Domain`; anything else is
    /// a kind mismatch naming the expected wrapper and the actual kind.
    pub fn new(namespace: &'a Namespace) -> (r: Result<DomainNamespace<'a>, Error>)
        ensures
            namespace.namespace_type == NamespaceType::Domain ==> (r matches Ok(d)
                && d.namespace == namespace),
            namespace.namespace_type != NamespaceType::Domain ==> (r matches Err(e)
                && (e matches Error::NamespaceMismatch { t1, t2 } && t1@ == "DomainNamespace"@
                && t2@ == namespace_type_label(namespace.namespace_type))),
    {
        match &namespace.namespace_type {
            NamespaceType::Domain => Ok(DomainNamespace { namespace }),
            ns => Err(Error::NamespaceMismatch {
                t1: "DomainNamespace".to_owned(),
                t2: ns.to_string(),
            }),
        }
    }

    /// Zero-cost accessor back to the untyped namespace.
    pub fn raw(&self) -> (r: &'a Namespace)
        ensures
            r == self.namespace,
    {
        self.namespace
    }
}

/// A namespace proven at construction to be of `User` kind.
#[derive(Debug)]
pub struct UserNamespace<'a> {
    pub namespace: &'a Namespace,
}

impl<'a> UserNamespace<'a> {
    /// Accepts exactly the namespaces whose kind is `User`.
    pub fn new(namespace: &'a Namespace) -> (r: Result<UserNamespace<'a>, Error>)
        ensures
            namespace.namespace_type == NamespaceType::User ==> (r matches Ok(d)
                && d.namespace == namespace),
            namespace.namespace_type != NamespaceType::User ==> (r matches Err(e)
                && (e matches Error::NamespaceMismatch { t1, t2 } && t1@ == "UserNamespace"@
                && t2@ == namespace_type_label(namespace.namespace_type))),
    {
        match &namespace.namespace_type {
            NamespaceType::User => Ok(UserNamespace { namespace }),
            ns => Err(Error::NamespaceMismatch {
                t1: "UserNamespace".to_owned(),
                t2: ns.to_string(),
            }),
        }
    }

    /// Zero-cost accessor back to the untyped namespace.
    pub fn raw(&self) -> (r: &'a Namespace)
        ensures
            r == self.namespace,
    {
        self.namespace
    }
}

/// A namespace proven at construction to be of `Repository` kind.
#[derive(Debug)]
pub struct RepositoryNamespace<'a> {
    pub namespace: &'a Namespace,
}

impl<'a> RepositoryNamespace<'a> {
    /// Accepts exactly the namespaces whose kind is `Repository`.
    pub fn new(namespace: &'a Namespace) -> (r: Result<RepositoryNamespace<'a>, Error>)
        ensures
            namespace.namespace_type == NamespaceType::Repository ==> (r matches Ok(d)
                && d.namespace == namespace),
            namespace.namespace_type != NamespaceType::Repository ==> (r matches Err(e)
                && (e matches Error::NamespaceMismatch { t1, t2 }
                && t1@ == "RepositoryNamespace"@
                && t2@ == namespace_type_label(namespace.namespace_type))),
    {
        match &namespace.namespace_type {
            NamespaceType::Repository => Ok(RepositoryNamespace { namespace }),
            ns => Err(Error::NamespaceMismatch {
                t1: "RepositoryNamespace".to_owned(),
                t2: ns.to_string(),
            }),
        }
    }

    /// Zero-cost accessor back to the untyped namespace.
    pub fn raw(&self) -> (r: &'a Namespace)
        ensures
            r == self.namespace,
    {
        self.namespace
    }
}

} // verus!
