use jsaas::ident::ScriptId;
use jsaas::registry::ScriptRegistry;

const MILLI: u128 = 1_000_000;

#[test]
fn test_script_registry_get_none() {
    let mut registry = ScriptRegistry::new(0);

    assert!(registry
        .get(&ScriptId::parse("50b0cb8f-1f59-4ba5-8935-ba54bb64bc3f").unwrap())
        .is_none());

    let script = "function() { return 3 + 4; }";

    let id = registry.store(script.to_string());

    assert_eq!(registry.get(&id), Some(script.to_string()));
}

#[test]
fn test_script_registry_store_and_get() {
    let mut registry = ScriptRegistry::new(0);

    let script = "function() { return 3 + 4; }";

    let id = registry.store(script.to_string());

    assert_eq!(registry.get(&id), Some(script.to_string()));
}

#[test]
fn test_script_registry_store_and_remove() {
    let mut registry = ScriptRegistry::new(60000);

    let script = "function() { return 3 + 4; }";

    let id = registry.store(script.to_string());

    registry.remove(&id);

    assert_eq!(registry.get(&id), None);
}

#[test]
fn test_script_registry_evicts_old_entries() {
    let mut registry = ScriptRegistry::new(1);

    let script = "function() { return 3 + 4; }";

    let id = ScriptId { value: 1 };
    registry.store_at(id, script.to_string(), 0);

    // Entries are lazily evicted, so cause eviction by storing a new one,
    // 50 ms later

    registry.store_at(ScriptId { value: 2 }, script.to_string(), 50 * MILLI);

    // Evicted because of 1ms duration
    assert_eq!(registry.get_at(&id, 50 * MILLI), None);
}

#[test]
fn test_script_registry_get_extends_eviction() {
    let mut registry = ScriptRegistry::new(10);

    let script = "function() { return 3 + 4; }";

    // Since entries are lazily evicted, let 100 ms pass so that we know
    // we'd be evicted, get our script, then immediately store one.
    // We expect to be able to get our original script then, since
    // getting it extended the eviction time

    let id = ScriptId { value: 1 };
    registry.store_at(id, script.to_string(), 0);

    let _ = registry.get_at(&id, 100 * MILLI);

    registry.store_at(ScriptId { value: 2 }, script.to_string(), 100 * MILLI);

    assert_eq!(registry.get_at(&id, 100 * MILLI), Some(script.to_string()));
}

#[test]
fn entry_lives_exactly_its_time_to_live() {
    let script = "function() {}";
    let id = ScriptId { value: 7 };

    let mut registry = ScriptRegistry::new(10);
    registry.store_at(id, script.to_string(), 5);
    registry.store_at(ScriptId { value: 8 }, script.to_string(), 5 + 10 * MILLI);
    assert_eq!(registry.len(), 2);

    let mut registry = ScriptRegistry::new(10);
    registry.store_at(id, script.to_string(), 5);
    registry.store_at(ScriptId { value: 8 }, script.to_string(), 5 + 10 * MILLI + 1);
    assert_eq!(registry.len(), 1);
    assert_eq!(registry.get_at(&id, 0), None);
}

#[test]
fn a_clock_reading_before_the_last_use_evicts_nothing() {
    let mut registry = ScriptRegistry::new(0);
    registry.store_at(ScriptId { value: 1 }, "a".to_string(), 1_000);
    registry.store_at(ScriptId { value: 2 }, "b".to_string(), 10);
    assert_eq!(registry.len(), 2);
}

#[test]
fn store_returns_the_new_id_when_eviction_empties_the_map() {
    let mut registry = ScriptRegistry::new(1);
    registry.store_at(ScriptId { value: 1 }, "a".to_string(), 0);
    registry.store_at(ScriptId { value: 2 }, "b".to_string(), 1);
    let id = ScriptId { value: 3 };
    registry.store_at(id, "c".to_string(), 10 * MILLI);
    assert_eq!(registry.len(), 1);
    assert_eq!(registry.get_at(&id, 10 * MILLI), Some("c".to_string()));
}

#[test]
fn storing_under_a_used_id_replaces_the_script() {
    let mut registry = ScriptRegistry::new(1000);
    let id = ScriptId { value: 1 };
    registry.store_at(id, "a".to_string(), 0);
    registry.store_at(id, "b".to_string(), 1);
    assert_eq!(registry.len(), 1);
    assert_eq!(registry.get_at(&id, 2), Some("b".to_string()));
}

#[test]
fn get_unknown_is_none_and_remove_unknown_changes_nothing() {
    let mut registry = ScriptRegistry::new(1000);
    let id = ScriptId { value: 1 };
    let other = ScriptId { value: 2 };
    registry.store_at(id, "a".to_string(), 0);
    assert_eq!(registry.get_at(&other, 1), None);
    registry.remove(&other);
    assert_eq!(registry.len(), 1);
    assert_eq!(registry.get_at(&id, 2), Some("a".to_string()));
    registry.remove(&id);
    registry.remove(&id);
    assert_eq!(registry.len(), 0);
}

#[test]
fn stored_source_is_returned_verbatim() {
    let mut registry = ScriptRegistry::new(1000);
    let source = "  not even JavaScript \u{1f600}\n\t\0 ";
    let id = registry.store(source.to_string());
    assert_eq!(registry.get(&id), Some(source.to_string()));
    assert_eq!(registry.get(&id), Some(source.to_string()));
}

#[test]
fn store_draws_a_new_id_each_time() {
    let mut registry = ScriptRegistry::new(60_000);
    let a = registry.store("a".to_string());
    let b = registry.store("b".to_string());
    assert_ne!(a, b);
    assert_eq!(registry.len(), 2);
    assert_eq!(registry.get(&a), Some("a".to_string()));
    assert_eq!(registry.get(&b), Some("b".to_string()));
}

#[test]
fn the_longest_time_to_live_does_not_overflow() {
    let mut registry = ScriptRegistry::new(u64::MAX);
    let id = ScriptId { value: 1 };
    registry.store_at(id, "a".to_string(), 0);
    registry.store_at(ScriptId { value: 2 }, "b".to_string(), u64::MAX as u128 * MILLI);
    assert_eq!(registry.len(), 2);
    registry.store_at(ScriptId { value: 3 }, "c".to_string(), u128::MAX);
    assert_eq!(registry.len(), 1);
}
