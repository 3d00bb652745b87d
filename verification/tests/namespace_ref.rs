use std::rc::Rc;

use ckusro_core::hoge;
use ckusro_core::namespace::{Namespace, NamespaceType};
use ckusro_core::namespace_ref::{
    DomainNamespaceRef, NamespaceRef, ObjectId, RepositoryNamespaceRef, UserNamespaceRef,
};
use ckusro_core::namespace_ref_manager::NamespaceRefManager;

fn oid() -> ObjectId {
    ObjectId::new(b"12345678901234567890".to_vec())
}

fn three_level_chain() -> NamespaceRef {
    let domain_ns = Namespace::new(NamespaceType::Domain, "github.com");
    let domain_ref = NamespaceRef::new(domain_ns, oid(), None);

    let user_ns = Namespace::new(NamespaceType::User, "tett23");
    let user_ref = NamespaceRef::new(user_ns, oid(), Some(Rc::new(domain_ref)));

    let repo_ns = Namespace::new(NamespaceType::Repository, "ckusro-core");
    NamespaceRef::new(repo_ns, oid(), Some(Rc::new(user_ref)))
}

#[test]
fn walking_the_chain_gives_back_the_original_nodes() {
    let repo_ref = three_level_chain();

    let repo_typed = RepositoryNamespaceRef::new(&repo_ref).unwrap();
    let user_typed = repo_typed.parent().unwrap();
    assert_eq!(
        user_typed.raw().namespace,
        Namespace::new(NamespaceType::User, "tett23")
    );
    assert_eq!(user_typed.raw().namespace.name, "tett23");
    assert_eq!(user_typed.raw().oid.bytes, oid().bytes);

    let domain_typed = user_typed.parent().unwrap();
    assert_eq!(
        domain_typed.raw().namespace,
        Namespace::new(NamespaceType::Domain, "github.com")
    );
    assert!(domain_typed.raw().parent.is_none());
}

#[test]
fn typed_ref_construction_checks_the_kind() {
    let domain_ns = Namespace::new(NamespaceType::Domain, "github.com");
    let domain_ref = NamespaceRef::new(domain_ns, oid(), None);

    assert!(DomainNamespaceRef::new(&domain_ref).is_ok());
    assert!(UserNamespaceRef::new(&domain_ref).is_err());
    assert!(RepositoryNamespaceRef::new(&domain_ref).is_err());
}

#[test]
fn walking_past_a_missing_parent_fails() {
    let user_ns = Namespace::new(NamespaceType::User, "tett23");
    let user_ref = NamespaceRef::new(user_ns, oid(), None);

    let user_typed = UserNamespaceRef::new(&user_ref).unwrap();
    assert!(user_typed.parent().is_err());
}

#[test]
fn walking_to_a_parent_of_the_wrong_kind_fails() {
    let repo_ns = Namespace::new(NamespaceType::Repository, "inner");
    let inner = NamespaceRef::new(repo_ns, oid(), None);

    let repo_outer_ns = Namespace::new(NamespaceType::Repository, "outer");
    let outer = NamespaceRef::new(repo_outer_ns, oid(), Some(Rc::new(inner)));

    let outer_typed = RepositoryNamespaceRef::new(&outer).unwrap();
    assert!(outer_typed.parent().is_err());
}

#[test]
fn manager_starts_empty() {
    let manager = NamespaceRefManager::new();

    assert_eq!(manager.namespace_refs.len(), 0);
}

#[test]
fn hoge_greets() {
    assert_eq!(hoge(), "hoge".to_owned());
}
