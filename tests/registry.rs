use lodestone_core::error::{Error, ErrorKind};
use lodestone_core::instance_manager::{InstanceManager, ManagedInstance};

fn manager() -> InstanceManager {
    InstanceManager::new(
        "/srv/instances/".to_string(),
        vec![ManagedInstance { uuid: "u1".to_string(), name: "alpha".to_string() }],
    )
}

#[test]
fn names_are_sanitized_and_unique() {
    let mut m = manager();
    let created = m.create_instance("be/ta", "u2".to_string(), Some(19132)).unwrap();
    assert_eq!(created.name, "beta");
    assert_eq!(created.path, "/srv/instances/beta/");
    assert_eq!(created.port, Some(19132));
    assert!(m.check_if_name_exists(&"beta".to_string()));
    let dup = m.create_instance("alpha", "u3".to_string(), None).unwrap_err();
    assert!(matches!(dup, Error::InstanceExists));
    assert_eq!(dup.kind(), ErrorKind::AlreadyExists);
    assert_eq!(m.instance_collection.len(), 2);
}

#[test]
fn ports_are_handed_out_in_order() {
    let mut m = manager();
    assert_eq!(m.first_free_port(), Some(25565));
    let a = m.create_instance("a", "ua".to_string(), None).unwrap();
    let b = m.create_instance("b", "ub".to_string(), None).unwrap();
    assert_eq!(a.port, Some(25565));
    assert_eq!(b.port, Some(25566));
    assert_eq!(m.taken_ports, vec![25565, 25566]);
    m.taken_ports = (25565..26000).collect();
    assert_eq!(m.first_free_port(), None);
    assert_eq!(m.create_instance("c", "uc".to_string(), None).unwrap().port, None);
}

#[test]
fn delete_and_clone() {
    let mut m = manager();
    assert!(matches!(m.delete_instance(&"nope".to_string()), Err(Error::InstanceNotFound)));
    assert!(m.clone_instance(&"u1".to_string()).is_ok());
    m.create_instance("alpha_copy", "u9".to_string(), None).unwrap();
    assert!(matches!(m.clone_instance(&"u1".to_string()), Err(Error::InstanceExists)));
    let gone = m.delete_instance(&"u1".to_string()).unwrap();
    assert_eq!(gone.name, "alpha");
    assert!(!m.check_if_name_exists(&"alpha".to_string()));
}
