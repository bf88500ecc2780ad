use glean_core::error::ErrorKind;
use glean_core::glean::Glean;
use glean_core::handles::PingTypeRegistry;
use glean_core::ping_type::{
    get_ping_type, glean_destroy_ping_type, glean_new_ping_type, glean_register_ping_type,
    glean_test_has_ping_type,
};

#[test]
fn inserted_handle_resolves_to_inserted_value() {
    let mut registry = PingTypeRegistry::new();
    let handle = glean_new_ping_type(&mut registry, "store1", 1);
    assert_ne!(handle, 0);

    let ping = get_ping_type(&registry, handle).unwrap();
    assert_eq!(ping.name, "store1");
    assert!(ping.include_client_id);
}

#[test]
fn removed_handle_fails_with_handle_error() {
    let mut registry = PingTypeRegistry::new();
    let handle = glean_new_ping_type(&mut registry, "store1", 0);

    glean_destroy_ping_type(&mut registry, handle);

    let result = get_ping_type(&registry, handle);
    assert!(matches!(result.unwrap_err().kind, ErrorKind::Handle));
}

#[test]
fn double_destroy_is_a_no_op() {
    let mut registry = PingTypeRegistry::new();
    let first = glean_new_ping_type(&mut registry, "store1", 0);
    let second = glean_new_ping_type(&mut registry, "store2", 1);

    glean_destroy_ping_type(&mut registry, first);
    glean_destroy_ping_type(&mut registry, first);

    // The registry is intact: the surviving handle still resolves.
    let ping = get_ping_type(&registry, second).unwrap();
    assert_eq!(ping.name, "store2");
}

#[test]
fn handles_are_distinct_and_independently_resolvable() {
    let mut registry = PingTypeRegistry::new();
    let mut handles = Vec::new();
    for i in 0..16 {
        let name = format!("ping{}", i);
        handles.push(glean_new_ping_type(&mut registry, &name, (i % 2) as u8));
    }
    for i in 0..16 {
        for j in 0..16 {
            if i != j {
                assert_ne!(handles[i], handles[j]);
            }
        }
    }
    for i in 0..16 {
        let ping = get_ping_type(&registry, handles[i]).unwrap();
        assert_eq!(ping.name, format!("ping{}", i));
        assert_eq!(ping.include_client_id, i % 2 == 1);
    }
}

#[test]
fn unknown_handle_never_resolves() {
    let registry = PingTypeRegistry::new();
    let result = get_ping_type(&registry, 0);
    assert!(matches!(result.unwrap_err().kind, ErrorKind::Handle));
    let result = get_ping_type(&registry, 12345);
    assert!(matches!(result.unwrap_err().kind, ErrorKind::Handle));
}

#[test]
fn full_registry_degrades_to_sentinel_handle() {
    let mut registry = PingTypeRegistry::new();
    for _ in 0..glean_core::handles::REGISTRY_CAPACITY {
        let handle = glean_new_ping_type(&mut registry, "p", 0);
        assert_ne!(handle, 0);
    }
    assert_eq!(glean_new_ping_type(&mut registry, "p", 0), 0);
}

#[test]
fn register_and_query_ping_type() {
    let mut glean = Glean::new();
    let mut registry = PingTypeRegistry::new();

    assert_eq!(glean_test_has_ping_type(&glean, "store1"), 0);

    let handle = glean_new_ping_type(&mut registry, "store1", 1);
    glean_register_ping_type(&mut glean, &registry, handle);

    assert_eq!(glean_test_has_ping_type(&glean, "store1"), 1);
    assert_eq!(glean_test_has_ping_type(&glean, "store2"), 0);
}

#[test]
fn registering_a_stale_handle_is_a_no_op() {
    let mut glean = Glean::new();
    let mut registry = PingTypeRegistry::new();

    let handle = glean_new_ping_type(&mut registry, "store1", 1);
    glean_destroy_ping_type(&mut registry, handle);
    glean_register_ping_type(&mut glean, &registry, handle);

    assert_eq!(glean_test_has_ping_type(&glean, "store1"), 0);
}
