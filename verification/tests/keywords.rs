use solc_ast::misc::{Mutability, StateMutability, StorageLocation, Visibility};

#[test]
fn state_mutability_is_spelled_in_lower_case() {
    assert_eq!(StateMutability::Payable.as_str(), "payable");
    assert_eq!(StateMutability::Pure.as_str(), "pure");
    assert_eq!(StateMutability::Nonpayable.as_str(), "nonpayable");
    assert_eq!(StateMutability::View.as_str(), "view");
}

#[test]
fn mutability_is_spelled_in_lower_case() {
    assert_eq!(Mutability::Mutable.as_str(), "mutable");
    assert_eq!(Mutability::Immutable.as_str(), "immutable");
    assert_eq!(Mutability::Constant.as_str(), "constant");
}

#[test]
fn storage_location_is_spelled_in_lower_case() {
    assert_eq!(StorageLocation::Calldata.as_str(), "calldata");
    assert_eq!(StorageLocation::Default.as_str(), "default");
    assert_eq!(StorageLocation::Memory.as_str(), "memory");
    assert_eq!(StorageLocation::Storage.as_str(), "storage");
}

#[test]
fn visibility_is_spelled_in_lower_case() {
    assert_eq!(Visibility::External.as_str(), "external");
    assert_eq!(Visibility::Public.as_str(), "public");
    assert_eq!(Visibility::Internal.as_str(), "internal");
    assert_eq!(Visibility::Private.as_str(), "private");
}

#[test]
fn keywords_are_read_back() {
    for m in [StateMutability::Payable, StateMutability::Pure, StateMutability::Nonpayable, StateMutability::View] {
        assert_eq!(StateMutability::from_str(m.as_str()), Some(m));
    }
    for m in [Mutability::Mutable, Mutability::Immutable, Mutability::Constant] {
        assert_eq!(Mutability::from_str(m.as_str()), Some(m));
    }
    for l in [
        StorageLocation::Calldata,
        StorageLocation::Default,
        StorageLocation::Memory,
        StorageLocation::Storage,
    ] {
        assert_eq!(StorageLocation::from_str(l.as_str()), Some(l));
    }
    for v in [Visibility::External, Visibility::Public, Visibility::Internal, Visibility::Private] {
        assert_eq!(Visibility::from_str(v.as_str()), Some(v));
    }
}

#[test]
fn only_the_exact_spelling_is_read() {
    assert_eq!(StateMutability::from_str("Payable"), None);
    assert_eq!(StateMutability::from_str("PURE"), None);
    assert_eq!(StateMutability::from_str("non-payable"), None);
    assert_eq!(StateMutability::from_str("view "), None);
    assert_eq!(StateMutability::from_str(""), None);
    assert_eq!(Mutability::from_str("mut"), None);
    assert_eq!(Mutability::from_str("const"), None);
    assert_eq!(Mutability::from_str("immutable\n"), None);
    assert_eq!(StorageLocation::from_str("stack"), None);
    assert_eq!(StorageLocation::from_str("Memory"), None);
    assert_eq!(Visibility::from_str("pub"), None);
    assert_eq!(Visibility::from_str("publíc"), None);
    assert_eq!(Visibility::from_str(" external"), None);
}

#[test]
fn a_keyword_of_one_kind_is_not_read_as_another() {
    assert_eq!(StateMutability::from_str("constant"), None);
    assert_eq!(Mutability::from_str("view"), None);
    assert_eq!(StorageLocation::from_str("public"), None);
    assert_eq!(Visibility::from_str("memory"), None);
}
