use tcp_chat::registry::Registry;
use tcp_chat::server::ServerError;
use tcp_chat::user::User;

#[test]
fn new_registry_is_empty() {
    let registry: Registry<u64> = Registry::new();
    assert_eq!(0, registry.len());
    assert!(!registry.contains(&User::new("alice")));
}

#[test]
fn register_then_lookup() {
    let mut registry = Registry::new();
    registry.try_register(User::new("alice"), 7u64).unwrap();
    assert!(registry.contains(&User::new("alice")));
    assert_eq!(Some(&7), registry.get(&User::new("alice")));
    assert_eq!(None, registry.get(&User::new("bob")));
}

#[test]
fn taken_name_is_refused_and_nothing_changes() {
    let mut registry = Registry::new();
    registry.try_register(User::new("bob"), 1u64).unwrap();
    let err = registry.try_register(User::new("bob"), 2u64).unwrap_err();
    assert!(matches!(err, ServerError::AlreadyConnected(n) if n == "bob"));
    assert_eq!(1, registry.len());
    assert_eq!(Some(&1), registry.get(&User::new("bob")));
}

#[test]
fn remove_absent_is_noop() {
    let mut registry = Registry::new();
    registry.try_register(User::new("alice"), 1u64).unwrap();
    registry.remove(&User::new("bob"));
    assert_eq!(1, registry.len());
    registry.remove(&User::new("alice"));
    registry.remove(&User::new("alice"));
    assert_eq!(0, registry.len());
}

#[test]
fn remove_keeps_others_in_order() {
    let mut registry = Registry::new();
    for (i, name) in ["a", "b", "c", "d"].iter().enumerate() {
        registry.try_register(User::new(name), i as u64).unwrap();
    }
    registry.remove(&User::new("b"));
    let names: Vec<String> =
        registry.snapshot_others(&User::new("zzz")).into_iter().map(|(u, _)| u.name).collect();
    assert_eq!(vec!["a", "c", "d"], names);
}

#[test]
fn snapshot_excludes_only_the_given_name() {
    let mut registry = Registry::new();
    registry.try_register(User::new("one"), 1u64).unwrap();
    registry.try_register(User::new("two"), 2u64).unwrap();
    registry.try_register(User::new("three"), 3u64).unwrap();
    let others = registry.snapshot_others(&User::new("two"));
    let got: Vec<(String, u64)> = others.into_iter().map(|(u, s)| (u.name, s)).collect();
    assert_eq!(vec![("one".to_string(), 1), ("three".to_string(), 3)], got);
}

#[test]
fn names_compare_exactly() {
    let mut registry = Registry::new();
    registry.try_register(User::new("Alice"), 1u64).unwrap();
    assert!(registry.try_register(User::new("alice"), 2u64).is_ok());
    assert!(registry.try_register(User::new("alice "), 3u64).is_ok());
    assert_eq!(3, registry.len());
}

#[test]
fn user_display_is_its_name() {
    let user = User::new("carol");
    assert_eq!("carol", user.display());
    assert_eq!(user, user.clone());
    assert_ne!(user, User::new("carl"));
}
