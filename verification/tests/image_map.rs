use onepanel_cli::compose::{
    compose_change, parse_image_update, plan_compose_image_map, update_compose_image_map,
    ComposeChange, ImageUpdate,
};
use onepanel_cli::error::CliError;

const COMPOSE: &str = "services:\n  init-permissions:\n    image: ctl:v1\n  controller:\n    image: ctl:v1\n  node:\n    image: node:v1\n";

fn up(s: &str, i: &str) -> ImageUpdate {
    ImageUpdate { service: s.to_string(), image: i.to_string() }
}

#[test]
fn image_update_arguments_are_split_at_the_first_equals() {
    let u = parse_image_update(" controller = reg/ctl:v2=x ").unwrap();
    assert_eq!(u.service, "controller");
    assert_eq!(u.image, "reg/ctl:v2=x");
    for bad in ["controller", "=img", "svc=", " = "] {
        match parse_image_update(bad) {
            Err(CliError::InvalidImageUpdate { arg }) => assert_eq!(arg, bad),
            _ => panic!("expected refusal of {:?}", bad),
        }
    }
}

#[test]
fn several_services_get_their_own_images_in_one_pass() {
    let ups = vec![up("init-permissions", "ctl:v2"), up("controller", "ctl:v2"), up("node", "node:v2")];
    let (text, changes) = update_compose_image_map(COMPOSE, &ups).unwrap();
    let seen: Vec<(&str, &str, &str)> =
        changes.iter().map(|c| (c.service.as_str(), c.from.as_str(), c.to.as_str())).collect();
    assert_eq!(
        seen,
        vec![("init-permissions", "ctl:v1", "ctl:v2"), ("controller", "ctl:v1", "ctl:v2"), ("node", "node:v1", "node:v2")]
    );
    assert_eq!(text.matches("ctl:v2").count(), 2);
    assert!(text.contains("node:v2"));
}

#[test]
fn updates_that_change_nothing_are_refused() {
    assert!(matches!(update_compose_image_map(COMPOSE, &vec![up("node", "node:v1")]), Err(CliError::NoImageMatched)));
    assert!(matches!(update_compose_image_map(COMPOSE, &vec![]), Err(CliError::NoImageMatched)));
    assert!(matches!(update_compose_image_map("x: 1\n", &vec![up("a", "b")]), Err(CliError::MissingServices)));
}

#[test]
fn later_update_of_the_same_service_wins() {
    let (_, changes) = update_compose_image_map(COMPOSE, &vec![up("node", "node:v2"), up("node", "node:v3")]).unwrap();
    assert_eq!(changes.len(), 2);
    assert_eq!(changes[1].from, "node:v2");
    assert_eq!(changes[1].to, "node:v3");
}

#[test]
fn multi_update_plan_follows_dry_run() {
    let p = plan_compose_image_map(COMPOSE, &vec![up("node", "node:v2")], true, true).unwrap();
    assert!(!p.save && !p.bring_up && p.result.dry_run);
    let p = plan_compose_image_map(COMPOSE, &vec![up("node", "node:v2")], false, true).unwrap();
    assert!(p.save && p.bring_up);
    assert_eq!(p.result.changed, 1);
}

#[test]
fn update_mode_is_chosen_from_the_arguments() {
    assert!(matches!(compose_change(Some("x".into()), &None, &None, vec![]), Ok(ComposeChange::Single { .. })));
    assert!(matches!(compose_change(None, &None, &None, vec![]), Err(CliError::MissingTargetImage)));
    assert!(matches!(compose_change(None, &None, &None, vec![up("a", "b")]), Ok(ComposeChange::PerService(_))));
    assert!(matches!(compose_change(None, &Some("s".into()), &None, vec![up("a", "b")]), Err(CliError::ImageUpdateConflict)));
}
