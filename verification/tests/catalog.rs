use kodade_cli::machines::{list_line, Catalog};

#[test]
fn catalog_crud_keeps_remote_session_and_enabled_state() {
    let mut c = Catalog::default();
    let id = c
        .add(
            "Build".into(),
            "buildbox".into(),
            Some("agents".into()),
            &None,
            1,
        )
        .unwrap()
        .id
        .clone();
    c.get_mut(&id).unwrap().enabled = false;
    assert!(!c.get(&id).unwrap().enabled);
    c.set_enabled(&id, true).unwrap();
    assert!(c.get(&id).unwrap().enabled);
    assert_eq!(c.remove(&id).unwrap().session.as_deref(), Some("agents"));
}

#[test]
fn unsafe_targets_are_rejected() {
    assert!(Catalog::default()
        .add("x".into(), "-o bad".into(), None, &None, 1)
        .is_err());
}

#[test]
fn catalogs_name_each_machine_once() {
    let mut c = Catalog::default();
    let first = c
        .add("Build".into(), "buildbox".into(), None, &None, 7)
        .unwrap();
    let second = c
        .add("Test".into(), "testbox".into(), None, &None, 8)
        .unwrap();
    assert_ne!(first.id, second.id);
    assert!(c.validate(&vec![None, None]).is_ok());
    assert!(c
        .validate(&vec![None, Some("bad session".to_string())])
        .is_err());
    c.machines[1].id = first.id.clone();
    assert!(c.validate(&vec![None, None]).is_err());
    assert!(list_line(&first).ends_with("\tenabled\tBuild\tbuildbox"));
    assert_eq!(
        c.rename("gone", "x".to_string()),
        Err("machine 'gone' not found".to_string())
    );
}
