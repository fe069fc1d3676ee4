use cloak::project::{
    detect_project, init_project, project_name_for, resolve_target_scope, scope_to_namespace,
    ProjectError, TargetScope,
};

#[test]
fn test_init_and_detect_project() {
    let root = "/tmp/cloak_proj_test".to_string();
    let p = init_project(false, Some("test-suite-app".into()), root.clone(), Some("cloak_proj_test".into()))
        .unwrap();
    assert_eq!(p.name, "test-suite-app");
    assert_eq!(p.root, root);

    // From subdir/deep the walk goes up to the project root.
    let found = vec![
        (format!("{}/subdir/deep", root), None),
        (format!("{}/subdir", root), None),
        (root.clone(), Some("test-suite-app".to_string())),
        ("/tmp".to_string(), Some("outer".to_string())),
    ];
    let d = detect_project(&found).expect("Should find project from parent dir");
    assert_eq!(d.name, "test-suite-app");
    assert_eq!(d.root, root);

    assert_eq!(
        init_project(true, None, root.clone(), None).unwrap_err(),
        ProjectError::AlreadyInitialized
    );
    assert!(detect_project(&[("/".to_string(), None)]).is_none());
}

#[test]
fn project_names() {
    assert_eq!(project_name_for(None, Some("dir".into())), "dir");
    assert_eq!(project_name_for(None, None), "project");
    assert_eq!(project_name_for(Some("x".into()), Some("dir".into())), "x");
}

#[test]
fn scopes_and_namespaces() {
    assert!(matches!(resolve_target_scope(true, Some("a".into()), Some("b".into())), TargetScope::Global));
    assert!(matches!(resolve_target_scope(false, Some("a".into()), Some("b".into())), TargetScope::Project(p) if p == "a"));
    assert!(matches!(resolve_target_scope(false, None, Some("b".into())), TargetScope::Project(p) if p == "b"));
    assert!(matches!(resolve_target_scope(false, None, None), TargetScope::Global));
    assert_eq!(scope_to_namespace(&TargetScope::Global), "global");
    assert_eq!(scope_to_namespace(&TargetScope::Project("app".into())), "proj-app");
    assert!(ProjectError::AlreadyInitialized.message().contains("already initialized"));
}
