use onepanel_cli::compose::resolve_compose_name;

#[test]
fn keeps_explicit_compose_name() {
    let name =
        resolve_compose_name(Some("wiki".to_string()), "/opt/1panel/docker/compose/wiki/docker-compose.yml")
            .expect("expected compose name");
    assert_eq!(name, "wiki");
}

#[test]
fn infers_compose_name_from_parent_directory() {
    let name = resolve_compose_name(None, "/opt/1panel/docker/compose/wiki/docker-compose.yml")
        .expect("expected compose name");
    assert_eq!(name, "wiki");
}

#[test]
fn infers_compose_name_from_file_stem_when_parent_missing() {
    let name = resolve_compose_name(None, "docker-compose.yml").expect("expected compose name");
    assert_eq!(name, "docker-compose");
}
