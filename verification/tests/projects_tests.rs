use flow_control::projects::{admin_projects, ticket_project_name, ProjectError, ProjectInfo};

fn project(id: &[u8], name: &[u8], admins: &[&[u8]]) -> ProjectInfo {
    ProjectInfo {
        id: id.to_vec(),
        name: name.to_vec(),
        admin_emails: admins.iter().map(|a| a.to_vec()).collect(),
    }
}

#[test]
fn ticket_names_the_matching_project() {
    let projects = vec![
        project(b"id-1", b"alpha", &[b"a@x"]),
        project(b"id-2", b"beta", &[b"b@x"]),
    ];
    let name = ticket_project_name(&projects, &b"id-2".to_vec()).unwrap();
    assert_eq!(name, &b"beta".to_vec());
}

#[test]
fn ticket_for_unknown_project_fails() {
    let projects = vec![project(b"id-1", b"alpha", &[b"a@x"])];
    assert_eq!(
        ticket_project_name(&projects, &b"id-9".to_vec()),
        Err(ProjectError::ProjectNotFound)
    );
}

#[test]
fn admin_membership_is_by_value() {
    let p = project(b"id-1", b"alpha", &[b"a@x", b"b@x"]);
    assert!(p.has_admin_with_email(&b"b@x".to_vec()));
    assert!(!p.has_admin_with_email(&b"c@x".to_vec()));
}

#[test]
fn admin_projects_keeps_exactly_the_administered() {
    let projects = vec![
        project(b"id-1", b"alpha", &[b"me@x", b"other@x"]),
        project(b"id-2", b"beta", &[b"other@x"]),
        project(b"id-3", b"gamma", &[b"me@x"]),
    ];
    let mine = admin_projects(projects, &b"me@x".to_vec());
    assert_eq!(mine.len(), 2);
    assert_eq!(mine[0].name, b"alpha".to_vec());
    assert_eq!(mine[1].name, b"gamma".to_vec());
}

#[test]
fn admin_projects_can_keep_none() {
    let projects = vec![project(b"id-1", b"alpha", &[b"other@x"])];
    let mine = admin_projects(projects, &b"me@x".to_vec());
    assert_eq!(mine.len(), 0);
}
