use cqrs_es::manager::Manager;

#[test]
fn register_entities() {
    let mgr = Manager::new().register("entity-1".to_string(), "dummy".to_string());
    let addr = mgr.entity("entity-1");
    assert_eq!(addr, Some(&"dummy".to_string()));
}

#[test]
fn unregistered_name_has_no_entity() {
    let mgr: Manager<u32> = Manager::new().register("a".to_string(), 1);
    assert_eq!(mgr.entity("b"), None);
}

#[test]
fn registering_again_replaces() {
    let mgr: Manager<u32> = Manager::new()
        .register("a".to_string(), 1)
        .register("b".to_string(), 2)
        .register("a".to_string(), 3);
    assert_eq!(mgr.entity("a"), Some(&3));
    assert_eq!(mgr.entity("b"), Some(&2));
}
