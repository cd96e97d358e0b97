use onepanel_cli::config::{parse_base_url, parse_u16, resolve_config, truthy, EnvSettings, LocalConfig, ServerAuth};
use onepanel_cli::error::CliError;
use onepanel_cli::api::parse_response;
use onepanel_cli::json::JsonValue;
use onepanel_cli::site::{
    allow_create, detail_id, fallback_domain, find_website, finish_deploy, forward_slashes,
    normalize_website, pick_group_id, should_ignore, site_path_of, target_dir,
    websites_from_response, DeployTally, Website,
};

fn json(s: &str) -> JsonValue {
    parse_response(s).expect("valid json")
}

fn auth() -> ServerAuth {
    ServerAuth { host: None, port: None, api_key: None, base_url: None, insecure: false }
}

fn env() -> EnvSettings {
    EnvSettings { host: None, port: None, api_key: None, base_url: None, insecure: None }
}

#[test]
fn website_description_is_normalized() {
    let w = normalize_website(&json("{\"id\":7,\"primaryDomain\":\"a.com\",\"alias\":\"site\",\"webSiteGroupID\":3,\"sitePath\":\"/www/a\",\"status\":\"Running\",\"domains\":[\"b.com\",{\"domain\":\"c.com\"},5]}"));
    assert_eq!(w.id, Some(7));
    assert_eq!(w.domain, "a.com");
    assert_eq!(w.alias.as_deref(), Some("site"));
    assert_eq!(w.group_id, Some(3));
    assert_eq!(w.site_path.as_deref(), Some("/www/a"));
    assert_eq!(w.status.as_deref(), Some("\"Running\""));
    assert_eq!(w.domains, vec!["b.com".to_string(), "c.com".to_string()]);
}

#[test]
fn primary_domain_falls_back_in_order() {
    assert_eq!(normalize_website(&json("{\"domain\":\"d\",\"alias\":\"a\"}")).domain, "d");
    assert_eq!(normalize_website(&json("{\"alias\":\"a\",\"domains\":[\"x\"]}")).domain, "a");
    assert_eq!(normalize_website(&json("{\"domains\":[{\"domain\":\"x\"}]}")).domain, "x");
    let w = normalize_website(&json("{\"id\":-1,\"webSiteGroupId\":2,\"webSiteGroupID\":3}"));
    assert_eq!(w.domain, "");
    assert_eq!(w.id, None);
    assert_eq!(w.group_id, Some(2));
}

#[test]
fn websites_come_from_items_or_data_array() {
    let a = websites_from_response(&json("{\"data\":{\"items\":[{\"domain\":\"a\"},{\"domain\":\"b\"}]}}"));
    assert_eq!(a.iter().map(|w| w.domain.as_str()).collect::<Vec<_>>(), vec!["a", "b"]);
    let b = websites_from_response(&json("{\"data\":[{\"domain\":\"c\"}]}"));
    assert_eq!(b[0].domain, "c");
    assert!(websites_from_response(&json("{\"data\":{}}")).is_empty());
}

fn site(domain: &str, domains: &[&str], id: Option<u64>, path: Option<&str>) -> Website {
    Website {
        id,
        domain: domain.to_string(),
        alias: None,
        group_id: None,
        site_path: path.map(|s| s.to_string()),
        status: None,
        domains: domains.iter().map(|d| d.to_string()).collect(),
    }
}

#[test]
fn website_is_found_by_primary_or_listed_domain() {
    let list = vec![site("a.com", &[], Some(1), None), site("b.com", &["c.com"], Some(2), Some("/www"))];
    assert_eq!(find_website(list.clone(), "c.com").unwrap().id, Some(2));
    assert_eq!(find_website(list.clone(), "a.com").unwrap().id, Some(1));
    assert!(find_website(list, "z.com").is_none());
}

#[test]
fn details_are_fetched_only_without_site_path() {
    assert_eq!(detail_id(&site("a", &[], Some(4), None)), Some(4));
    assert_eq!(detail_id(&site("a", &[], Some(4), Some("/p"))), None);
    assert_eq!(detail_id(&site("a", &[], None, None)), None);
}

#[test]
fn website_group_prefers_the_default() {
    assert_eq!(pick_group_id(&json("[{\"id\":1},{\"id\":2,\"isDefault\":true}]")).unwrap(), 2);
    assert_eq!(pick_group_id(&json("[{\"id\":1},{\"id\":2}]")).unwrap(), 1);
    assert_eq!(pick_group_id(&json("[{\"id\":1},{\"isDefault\":true}]")).unwrap(), 1);
    assert!(matches!(pick_group_id(&json("[]")), Err(CliError::NoWebsiteGroup)));
    assert!(matches!(pick_group_id(&json("{}")), Err(CliError::InvalidGroupsResponse)));
}

#[test]
fn deploy_decisions() {
    assert!(matches!(fallback_domain(&vec![]), Err(CliError::NoWebsites)));
    assert_eq!(fallback_domain(&vec![site("first", &[], None, None)]).unwrap(), "first");
    assert!(allow_create(true, "a").is_ok());
    assert!(matches!(allow_create(false, "a"), Err(CliError::WebsiteNotFound { .. })));
    assert_eq!(site_path_of(&site("a", &[], None, Some("/www/a")), "a").unwrap(), "/www/a");
    assert!(matches!(site_path_of(&site("a", &[], None, None), "a"), Err(CliError::SitePathMissing { .. })));
}

#[test]
fn ignored_paths() {
    assert!(should_ignore("node_modules/x.js"));
    assert!(should_ignore("a/.git/config"));
    assert!(should_ignore(".env"));
    assert!(should_ignore("sub/.env.local"));
    assert!(should_ignore("a/b/.vscode/settings.json"));
    assert!(!should_ignore("x.envelope"));
    assert!(!should_ignore("js/app.environment.js"));
    assert!(!should_ignore("docs/.github.md"));
    assert!(!should_ignore("my_node_modules/x.js"));
    assert!(!should_ignore("notes/.env.example"));
    assert!(!should_ignore("index.html"));
    assert!(!should_ignore("assets/app.js"));
}

#[test]
fn upload_target_directory() {
    assert_eq!(target_dir("/www/site", ""), "/www/site/");
    assert_eq!(target_dir("/www/site/", "."), "/www/site/");
    assert_eq!(target_dir("/www/site", "a/b"), "/www/site/a/b");
    assert_eq!(forward_slashes("a\\b\\c.txt"), "a/b/c.txt");
}

#[test]
fn deploy_report() {
    let mut t = DeployTally::new();
    t.record_upload(true);
    let mut w = site("a.com", &[], Some(9), Some("/www/a"));
    w.group_id = None;
    let r = finish_deploy(&t, "a.com".into(), w, "/www/a".into(), true, Some(5), "/src".into()).unwrap();
    assert!(r.ok);
    assert_eq!(r.action, "deploy");
    assert_eq!(r.url, "https://a.com");
    assert_eq!(r.group_id, Some(5));
    assert_eq!((r.uploaded, r.failed, r.total), (1, 0, 1));
    assert_eq!(r.site_path.as_deref(), Some("/www/a"));
    t.record_upload(false);
    t.record_unreadable();
    match finish_deploy(&t, "a.com".into(), site("a.com", &[], None, None), "/www".into(), false, None, "/src".into()) {
        Err(CliError::DeployFailed { uploaded, total, failed }) => assert_eq!((uploaded, total, failed), (1, 2, 2)),
        _ => panic!("expected failure"),
    }
}

#[test]
fn u16_parsing_follows_std() {
    for s in ["0", "+7", "65535", "0099", "", "+", "-1", "65536", " 1", "1a", "99999999999"] {
        assert_eq!(parse_u16(s), s.parse::<u16>().ok(), "input {:?}", s);
    }
}

#[test]
fn truthy_values() {
    for s in ["1", "true", " YES ", "On"] {
        assert!(truthy(s));
    }
    for s in ["0", "no", "", "truthy"] {
        assert!(!truthy(s));
    }
}

#[test]
fn base_url_parsing() {
    assert_eq!(parse_base_url("https://panel.example.com").unwrap(), ("panel.example.com".to_string(), 443, "https".to_string()));
    assert_eq!(parse_base_url("panel.local:8090").unwrap(), ("panel.local".to_string(), 8090, "http".to_string()));
    assert!(matches!(parse_base_url("http://"), Err(CliError::InvalidBaseUrl { .. })));
}

#[test]
fn command_line_beats_environment_beats_local_file() {
    let local = LocalConfig {
        base_url: Some("https://local.example.com:8443".into()),
        api_key: Some("local-key".into()),
        host: None,
        port: None,
        insecure: Some(true),
    };
    let mut e = env();
    e.api_key = Some("env-key".into());
    e.port = Some("7000".into());
    let mut a = auth();
    a.host = Some("cli-host".into());
    let c = resolve_config(&a, &e, &local).unwrap();
    assert_eq!(c.host, "cli-host");
    assert_eq!(c.port, 7000);
    assert_eq!(c.api_key, "env-key");
    assert_eq!(c.scheme, "https");
    assert!(c.insecure_skip_tls_verify);
    e.port = Some("not a port".into());
    let c = resolve_config(&a, &e, &local).unwrap();
    assert_eq!(c.port, 8443);
}

#[test]
fn missing_settings_are_reported() {
    let empty = LocalConfig::empty();
    assert!(matches!(resolve_config(&auth(), &env(), &empty), Err(CliError::HostRequired)));
    let mut a = auth();
    a.host = Some("h".into());
    assert!(matches!(resolve_config(&a, &env(), &empty), Err(CliError::ApiKeyRequired)));
    a.api_key = Some("k".into());
    let c = resolve_config(&a, &env(), &empty).unwrap();
    assert_eq!((c.port, c.scheme.as_str(), c.insecure_skip_tls_verify), (9999, "http", false));
    a.base_url = Some("http://".into());
    assert!(matches!(resolve_config(&a, &env(), &empty), Err(CliError::InvalidBaseUrl { .. })));
}

#[test]
fn set_and_unset_local_settings() {
    let mut c = LocalConfig::empty();
    c.apply_set(Some("https://p".into()), Some("k".into()), None, Some(1), None);
    assert_eq!(c.base_url.as_deref(), Some("https://p"));
    assert_eq!(c.port, Some(1));
    c.apply_set(None, None, Some("h".into()), None, Some(false));
    assert_eq!(c.api_key.as_deref(), Some("k"));
    assert_eq!(c.insecure, Some(false));
    c.unset_key("api_key").unwrap();
    assert_eq!(c.api_key, None);
    c.unset_key("base-url").unwrap();
    assert_eq!(c.base_url, None);
    assert_eq!(c.host.as_deref(), Some("h"));
    match c.unset_key("colour") {
        Err(CliError::UnsupportedConfigKey { key }) => assert_eq!(key, "colour"),
        _ => panic!("expected refusal"),
    }
    assert_eq!(c.port, Some(1));
}

#[test]
fn command_line_base_url_outranks_environment_host() {
    let mut a = auth();
    a.base_url = Some("https://a.example.com".into());
    a.api_key = Some("k".into());
    let mut e = env();
    e.host = Some("b.example.com".into());
    e.port = Some("8080".into());
    let c = resolve_config(&a, &e, &LocalConfig::empty()).unwrap();
    assert_eq!((c.host.as_str(), c.port, c.scheme.as_str()), ("a.example.com", 443, "https"));

    let mut a = auth();
    a.api_key = Some("k".into());
    let mut e = env();
    e.base_url = Some("http://env.example.com:9000".into());
    let mut local = LocalConfig::empty();
    local.host = Some("local-host".into());
    local.port = Some(1234);
    let c = resolve_config(&a, &e, &local).unwrap();
    assert_eq!((c.host.as_str(), c.port), ("env.example.com", 9000));
}

#[test]
fn website_search_is_used_when_listing_fails() {
    assert!(onepanel_cli::site::list_by_search(None));
    assert!(onepanel_cli::site::list_by_search(Some(404)));
    assert!(onepanel_cli::site::list_by_search(Some(302)));
    assert!(!onepanel_cli::site::list_by_search(Some(200)));
    assert!(!onepanel_cli::site::list_by_search(Some(204)));
}
