use onepanel_cli::requests::{
    compose_operate_body, compose_search_body, create_website_body, file_path_body,
    file_save_body, group_search_body, image_load_body, website_search_body,
};

#[test]
fn compose_search_body_has_page_size_and_filter() {
    assert_eq!(compose_search_body(None), r#"{"info":"","page":1,"pageSize":200}"#);
    assert_eq!(compose_search_body(Some("web")), r#"{"info":"web","page":1,"pageSize":200}"#);
}

#[test]
fn image_load_body_lists_one_path() {
    assert_eq!(image_load_body("/opt/a b.tar"), r#"{"paths":["/opt/a b.tar"]}"#);
}

#[test]
fn file_bodies_escape_their_text() {
    assert_eq!(file_path_body("/x/\"q\".yml"), r#"{"path":"/x/\"q\".yml"}"#);
    assert_eq!(
        file_save_body("/x/c.yml", "services:\n  a: 1\n"),
        r#"{"content":"services:\n  a: 1\n","path":"/x/c.yml"}"#
    );
}

#[test]
fn compose_operate_body_always_sends_with_file() {
    assert_eq!(
        compose_operate_body("app", "/opt/app/docker-compose.yml", "up"),
        r#"{"name":"app","operation":"up","path":"/opt/app/docker-compose.yml","withFile":true}"#
    );
}

#[test]
fn website_and_group_search_bodies() {
    assert_eq!(
        website_search_body(),
        r#"{"name":"","order":"null","orderBy":"created_at","page":1,"pageSize":999999,"type":"","websiteGroupId":0}"#
    );
    assert_eq!(group_search_body(), r#"{"type":"website"}"#);
}

#[test]
fn create_website_body_uses_alias_or_domain() {
    assert_eq!(
        create_website_body("site.example.com", None, 3),
        r#"{"IPV6":false,"alias":"site.example.com","domains":[{"domain":"site.example.com","port":80,"ssl":false}],"ftpPassword":"","ftpUser":"","proxy":"","remark":"","siteDir":"","type":"static","webSiteGroupID":3}"#
    );
    assert!(create_website_body("d.example", Some("blog"), 7).contains(r#""alias":"blog""#));
}
