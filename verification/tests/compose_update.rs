use onepanel_cli::compose::{
    default_to_image, ensure_success, infer_compose_name_from_path, plan_compose_update,
    resolve_compose_name, temp_tar_file_name, update_compose_images, ComposeUpdateOpts,
};
use onepanel_cli::error::CliError;

fn opts(service: Option<&str>, from: Option<&str>, to: &str) -> ComposeUpdateOpts {
    ComposeUpdateOpts {
        compose_name: "app".to_string(),
        compose_path: "/opt/app/docker-compose.yml".to_string(),
        service: service.map(|s| s.to_string()),
        from_image: from.map(|s| s.to_string()),
        to_image: to.to_string(),
        dry_run: false,
        apply: true,
    }
}

const COMPOSE: &str = "services:\n  web:\n    image: registry/web:v1\n    ports:\n    - 80:80\n  worker:\n    image: registry/worker:v1\n  db:\n    image: postgres:16\n";

#[test]
fn blank_explicit_name_falls_back_to_path() {
    let name = resolve_compose_name(Some("   ".to_string()), "/srv/shop/compose.yaml").unwrap();
    assert_eq!(name, "shop");
}

#[test]
fn explicit_name_is_trimmed() {
    let name = resolve_compose_name(Some("  wiki \t".to_string()), "x.yml").unwrap();
    assert_eq!(name, "wiki");
}

#[test]
fn trailing_slash_and_dot_segments_are_skipped() {
    assert_eq!(infer_compose_name_from_path("/a/b/./c.yml/").unwrap(), "b");
    assert_eq!(infer_compose_name_from_path("a//b.yml").unwrap(), "a");
}

#[test]
fn parent_dot_dot_uses_file_stem() {
    assert_eq!(infer_compose_name_from_path("../compose.yml").unwrap(), "compose");
}

#[test]
fn hidden_file_keeps_whole_name_as_stem() {
    assert_eq!(infer_compose_name_from_path(".env").unwrap(), ".env");
    assert_eq!(infer_compose_name_from_path("archive.tar.gz").unwrap(), "archive.tar");
}

#[test]
fn unresolvable_compose_path_is_an_error() {
    match infer_compose_name_from_path("/") {
        Err(CliError::ComposeNameNotInferred { compose_path }) => assert_eq!(compose_path, "/"),
        other => panic!("unexpected {:?}", other.map(|_| ())),
    }
    assert!(resolve_compose_name(None, "").is_err());
    assert!(resolve_compose_name(None, "..").is_err());
}

#[test]
fn updates_only_the_named_service() {
    let (text, changes) = update_compose_images(COMPOSE, &opts(Some("web"), None, "registry/web:v2")).unwrap();
    assert_eq!(changes.len(), 1);
    assert_eq!(changes[0].service, "web");
    assert_eq!(changes[0].from, "registry/web:v1");
    assert_eq!(changes[0].to, "registry/web:v2");
    assert!(text.contains("image: registry/web:v2"));
    assert!(text.contains("image: registry/worker:v1"));
    assert!(text.contains("image: postgres:16"));
    assert!(text.contains("80:80"));
}

#[test]
fn without_filters_every_differing_image_is_updated() {
    let (text, changes) = update_compose_images(COMPOSE, &opts(None, None, "postgres:16")).unwrap();
    let names: Vec<&str> = changes.iter().map(|c| c.service.as_str()).collect();
    assert_eq!(names, vec!["web", "worker"]);
    assert_eq!(text.matches("image: postgres:16").count(), 3);
}

#[test]
fn from_image_filter_selects_matching_images() {
    let (_, changes) = update_compose_images(COMPOSE, &opts(None, Some("registry/worker:v1"), "registry/worker:v2")).unwrap();
    assert_eq!(changes.len(), 1);
    assert_eq!(changes[0].service, "worker");
}

#[test]
fn running_the_same_update_twice_changes_nothing_the_second_time() {
    let o = opts(Some("web"), None, "registry/web:v2");
    let (text, _) = update_compose_images(COMPOSE, &o).unwrap();
    assert!(matches!(update_compose_images(&text, &o), Err(CliError::NoImageMatched)));
}

#[test]
fn compose_errors() {
    assert!(matches!(update_compose_images("- a\n- b\n", &opts(None, None, "x")), Err(CliError::NotYamlObject)));
    assert!(matches!(update_compose_images("version: '3'\n", &opts(None, None, "x")), Err(CliError::MissingServices)));
    assert!(matches!(update_compose_images("services: [1, 2]\n", &opts(None, None, "x")), Err(CliError::MissingServices)));
    assert!(matches!(update_compose_images(COMPOSE, &opts(Some("nope"), None, "x")), Err(CliError::NoImageMatched)));
    assert!(matches!(update_compose_images("a: [\n", &opts(None, None, "x")), Err(CliError::YamlParse(_))));
}

#[test]
fn tagged_image_value_is_read_through_its_tag() {
    let doc = "services:\n  web:\n    image: !custom registry/web:v1\n";
    let (text, changes) = update_compose_images(doc, &opts(None, None, "registry/web:v2")).unwrap();
    assert_eq!(changes[0].from, "registry/web:v1");
    assert!(text.contains("image: registry/web:v2"));
}

#[test]
fn plan_respects_dry_run_and_apply() {
    let mut o = opts(Some("web"), None, "registry/web:v2");
    o.dry_run = true;
    let p = plan_compose_update(COMPOSE, &o).unwrap();
    assert!(!p.save && !p.bring_up);
    assert!(p.result.dry_run);
    assert_eq!(p.result.changed, 1);
    o.dry_run = false;
    o.apply = false;
    let p = plan_compose_update(COMPOSE, &o).unwrap();
    assert!(p.save && !p.bring_up);
    o.apply = true;
    let p = plan_compose_update(COMPOSE, &o).unwrap();
    assert!(p.save && p.bring_up);
    assert!(p.updated.contains("registry/web:v2"));
}

#[test]
fn blank_target_image_defaults_to_the_image_tag() {
    let mut o = opts(None, None, "  ");
    default_to_image(&mut o, "registry/app:v3");
    assert_eq!(o.to_image, "registry/app:v3");
    let mut o = opts(None, None, "registry/app:v1");
    default_to_image(&mut o, "registry/app:v3");
    assert_eq!(o.to_image, "registry/app:v1");
}

#[test]
fn tar_name_replaces_separators() {
    assert_eq!(temp_tar_file_name("registry.example.com/app:v1@sha"), "registry.example.com_app_v1_sha_image.tar");
    assert_eq!(temp_tar_file_name(""), "_image.tar");
}

#[test]
fn step_status_is_checked() {
    assert!(ensure_success(true, Some(0), "docker save").is_ok());
    match ensure_success(false, Some(1), "docker save") {
        Err(CliError::StepFailed { step, exit_code }) => {
            assert_eq!(step, "docker save");
            assert_eq!(exit_code, Some(1));
        }
        _ => panic!("expected failure"),
    }
}
