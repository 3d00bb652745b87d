use ckusro_core::error::Error;
use ckusro_core::namespace::{
    DomainNamespace, Namespace, NamespaceType, RepositoryNamespace, UserNamespace,
};

#[test]
fn test_new_domain() {
    let actual = Namespace::new(NamespaceType::Domain, "github.com");
    let expected = Namespace {
        name: "github.com".to_owned(),
        namespace_type: NamespaceType::Domain,
    };

    assert_eq!(actual, expected);
}

#[test]
fn test_new_user() {
    let actual = Namespace::new(NamespaceType::User, "tett23");
    let expected = Namespace {
        name: "tett23".to_owned(),
        namespace_type: NamespaceType::User,
    };

    assert_eq!(actual, expected);
}

#[test]
fn test_new_repository() {
    let actual = Namespace::new(NamespaceType::Repository, "ckusro-core");
    let expected = Namespace {
        name: "ckusro-core".to_owned(),
        namespace_type: NamespaceType::Repository,
    };

    assert_eq!(actual, expected);
}

#[test]
fn test_new() {
    let namespace = Namespace::new(NamespaceType::Domain, "github.com");
    let actual = DomainNamespace::new(&namespace);

    assert!(actual.is_ok());
}

#[test]
fn test_new_when_passed_invalid_namespace_type() {
    let namespace = Namespace::new(NamespaceType::User, "tett23");
    let actual = DomainNamespace::new(&namespace);

    assert!(actual.is_err());
}

#[test]
fn test_raw() {
    let namespace = Namespace::new(NamespaceType::Domain, "github.com");
    let domain = DomainNamespace {
        namespace: &namespace,
    };
    let actual = domain.raw();
    let expected = &namespace;

    assert_eq!(actual, expected);
}

#[test]
fn namespace_test_new() {
    let namespace = Namespace::new(NamespaceType::User, "tett23");
    let actual = UserNamespace::new(&namespace);

    assert!(actual.is_ok());
}

#[test]
fn namespace_test_new_when_passed_invalid_namespace_type() {
    let namespace = Namespace::new(NamespaceType::Domain, "github.com");
    let actual = UserNamespace::new(&namespace);

    assert!(actual.is_err());
}

#[test]
fn namespace_test_raw() {
    let namespace = Namespace::new(NamespaceType::User, "tett23");
    let user = UserNamespace {
        namespace: &namespace,
    };
    let actual = user.raw();
    let expected = &namespace;

    assert_eq!(actual, expected);
}

#[test]
fn repository_namespace_test_new() {
    let namespace = Namespace::new(NamespaceType::Repository, "ckusro-core");
    let actual = RepositoryNamespace::new(&namespace);

    assert!(actual.is_ok());
}

#[test]
fn repository_namespace_test_new_when_passed_invalid_namespace_type() {
    let namespace = Namespace::new(NamespaceType::User, "tett23");
    let actual = RepositoryNamespace::new(&namespace);

    assert!(actual.is_err());
}

#[test]
fn repository_namespace_test_raw() {
    let namespace = Namespace::new(NamespaceType::Repository, "ckusro-core");
    let repository = RepositoryNamespace {
        namespace: &namespace,
    };
    let actual = repository.raw();
    let expected = &namespace;

    assert_eq!(actual, expected);
}

#[test]
fn typed_namespace_mismatch_names_expected_and_actual_kind() {
    let namespace = Namespace::new(NamespaceType::User, "tett23");
    let actual = DomainNamespace::new(&namespace);
    let expected = Error::NamespaceMismatch {
        t1: "DomainNamespace".to_owned(),
        t2: "NamespaceType::User".to_owned(),
    };

    assert_eq!(actual.unwrap_err(), expected);
}

#[test]
fn namespace_type_to_string_names_the_kind() {
    assert_eq!(
        NamespaceType::Domain.to_string(),
        "NamespaceType::Domain".to_owned()
    );
    assert_eq!(
        NamespaceType::User.to_string(),
        "NamespaceType::User".to_owned()
    );
    assert_eq!(
        NamespaceType::Repository.to_string(),
        "NamespaceType::Repository".to_owned()
    );
}
