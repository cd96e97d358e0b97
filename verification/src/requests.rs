//! The JSON bodies of the requests sent to a 1Panel server.
//!
//! Each body is built as a `JsonValue` object and printed with `json_text`;
//! the contracts give the printed object as data, members in the order they
//! are built (printing sorts them by key).

use vstd::prelude::*;
use crate::json::{
    JsonMember, JsonNumber, JsonValue, JsonView, MemberView, json_display, json_text, json_view,
    lemma_members_view, lemma_values_view, members_view, values_view,
};

verus! {

/// The member `key` with the string value `s`.
pub open spec fn text_member(key: Seq<char>, s: Seq<char>) -> MemberView {
    MemberView { key, value: JsonView::String(s) }
}

/// The member `key` with the non-negative integer value `n`.
pub open spec fn uint_member(key: Seq<char>, n: u64) -> MemberView {
    MemberView { key, value: JsonView::Number(JsonNumber::PosInt(n)) }
}

/// The member `key` with the boolean value `b`.
pub open spec fn bool_member(key: Seq<char>, b: bool) -> MemberView {
    MemberView { key, value: JsonView::Bool(b) }
}

/// The string `s` as a JSON value.
fn text_value(s: &str) -> (r: JsonValue)
    ensures
        json_view(r) == JsonView::String(s@),
{
    JsonValue::String(s.to_owned())
}

/// The member `key: value`.
fn member(key: &str, value: JsonValue) -> (r: JsonMember)
    ensures
        r.key@ == key@,
        r.value == value,
{
    JsonMember { key: key.to_owned(), value }
}

/// The printed object whose members are `ms`, in order.
fn object_text(ms: Vec<JsonMember>) -> (r: String)
    ensures
        r@ == json_display(
            JsonView::Object(
                Seq::new(
                    ms@.len(),
                    |i: int| MemberView { key: ms@[i].key@, value: json_view(ms@[i].value) },
                ),
            ),
        ),
{
    let ghost s = ms@;
    let v = JsonValue::Object(ms);
    proof {
        lemma_members_view(s);
        assert(members_view(s) =~= Seq::new(
            s.len(),
            |i: int| MemberView { key: s[i].key@, value: json_view(s[i].value) },
        ));
        assert(json_view(v) == JsonView::Object(
            Seq::new(s.len(), |i: int| MemberView { key: s[i].key@, value: json_view(s[i].value) }),
        ));
    }
    json_text(&v)
}

/// The body of a compose search: page 1 of 200 entries, filtered by `info`
/// (empty when none is given).
pub fn compose_search_body(info: Option<&str>) -> (r: String)
    ensures
        r@ == json_display(
            JsonView::Object(
                seq![
                    uint_member("page"@, 1),
                    uint_member("pageSize"@, 200),
                    text_member(
                        "info"@,
                        match info {
                            Some(i) => i@,
                            None => ""@,
                        },
                    ),
                ],
            ),
        ),
{
    let info_text = match info {
        Some(i) => i,
        None => "",
    };
    let mut ms: Vec<JsonMember> = Vec::new();
    ms.push(member("page", JsonValue::Number(JsonNumber::PosInt(1))));
    ms.push(member("pageSize", JsonValue::Number(JsonNumber::PosInt(200))));
    ms.push(member("info", text_value(info_text)));
    let ghost s = ms@;
    let r = object_text(ms);
    proof {
        assert(Seq::new(s.len(), |i: int| MemberView { key: s[i].key@, value: json_view(s[i].value) })
            =~= seq![
            uint_member("page"@, 1),
            uint_member("pageSize"@, 200),
            text_member(
                "info"@,
                match info {
                    Some(i) => i@,
                    None => ""@,
                },
            ),
        ]);
    }
    r
}

/// The body that loads the image archive at `remote_path`.
pub fn image_load_body(remote_path: &str) -> (r: String)
    ensures
        r@ == json_display(
            JsonView::Object(
                seq![
                    MemberView {
                        key: "paths"@,
                        value: JsonView::Array(seq![JsonView::String(remote_path@)]),
                    },
                ],
            ),
        ),
{
    let mut paths: Vec<JsonValue> = Vec::new();
    paths.push(text_value(remote_path));
    let ghost p = paths@;
    let list = JsonValue::Array(paths);
    proof {
        lemma_values_view(p);
        assert(values_view(p) =~= seq![JsonView::String(remote_path@)]);
        assert(json_view(list) == JsonView::Array(seq![JsonView::String(remote_path@)]));
    }
    let mut ms: Vec<JsonMember> = Vec::new();
    ms.push(member("paths", list));
    let ghost s = ms@;
    let r = object_text(ms);
    proof {
        assert(Seq::new(s.len(), |i: int| MemberView { key: s[i].key@, value: json_view(s[i].value) })
            =~= seq![
            MemberView {
                key: "paths"@,
                value: JsonView::Array(seq![JsonView::String(remote_path@)]),
            },
        ]);
    }
    r
}

/// The body that names a file by its `path`.
pub fn file_path_body(path: &str) -> (r: String)
    ensures
        r@ == json_display(JsonView::Object(seq![text_member("path"@, path@)])),
{
    let mut ms: Vec<JsonMember> = Vec::new();
    ms.push(member("path", text_value(path)));
    let ghost s = ms@;
    let r = object_text(ms);
    proof {
        assert(Seq::new(s.len(), |i: int| MemberView { key: s[i].key@, value: json_view(s[i].value) })
            =~= seq![text_member("path"@, path@)]);
    }
    r
}

/// The body that saves `content` to the file at `path`.
pub fn file_save_body(path: &str, content: &str) -> (r: String)
    ensures
        r@ == json_display(
            JsonView::Object(seq![text_member("path"@, path@), text_member("content"@, content@)]),
        ),
{
    let mut ms: Vec<JsonMember> = Vec::new();
    ms.push(member("path", text_value(path)));
    ms.push(member("content", text_value(content)));
    let ghost s = ms@;
    let r = object_text(ms);
    proof {
        assert(Seq::new(s.len(), |i: int| MemberView { key: s[i].key@, value: json_view(s[i].value) })
            =~= seq![text_member("path"@, path@), text_member("content"@, content@)]);
    }
    r
}

/// The body that runs `operation` on the compose project `name` at `path`.
pub fn compose_operate_body(name: &str, path: &str, operation: &str) -> (r: String)
    ensures
        r@ == json_display(
            JsonView::Object(
                seq![
                    text_member("name"@, name@),
                    text_member("operation"@, operation@),
                    text_member("path"@, path@),
                    bool_member("withFile"@, true),
                ],
            ),
        ),
{
    let mut ms: Vec<JsonMember> = Vec::new();
    ms.push(member("name", text_value(name)));
    ms.push(member("operation", text_value(operation)));
    ms.push(member("path", text_value(path)));
    ms.push(member("withFile", JsonValue::Bool(true)));
    let ghost s = ms@;
    let r = object_text(ms);
    proof {
        assert(Seq::new(s.len(), |i: int| MemberView { key: s[i].key@, value: json_view(s[i].value) })
            =~= seq![
            text_member("name"@, name@),
            text_member("operation"@, operation@),
            text_member("path"@, path@),
            bool_member("withFile"@, true),
        ]);
    }
    r
}

/// The body of a website search: every website of every group, newest
/// first.
pub fn website_search_body() -> (r: String)
    ensures
        r@ == json_display(
            JsonView::Object(
                seq![
                    text_member("name"@, ""@),
                    uint_member("page"@, 1),
                    uint_member("pageSize"@, 999999),
                    text_member("orderBy"@, "created_at"@),
                    text_member("order"@, "null"@),
                    uint_member("websiteGroupId"@, 0),
                    text_member("type"@, ""@),
                ],
            ),
        ),
{
    let mut ms: Vec<JsonMember> = Vec::new();
    ms.push(member("name", text_value("")));
    ms.push(member("page", JsonValue::Number(JsonNumber::PosInt(1))));
    ms.push(member("pageSize", JsonValue::Number(JsonNumber::PosInt(999999))));
    ms.push(member("orderBy", text_value("created_at")));
    ms.push(member("order", text_value("null")));
    ms.push(member("websiteGroupId", JsonValue::Number(JsonNumber::PosInt(0))));
    ms.push(member("type", text_value("")));
    let ghost s = ms@;
    let r = object_text(ms);
    proof {
        assert(Seq::new(s.len(), |i: int| MemberView { key: s[i].key@, value: json_view(s[i].value) })
            =~= seq![
            text_member("name"@, ""@),
            uint_member("page"@, 1),
            uint_member("pageSize"@, 999999),
            text_member("orderBy"@, "created_at"@),
            text_member("order"@, "null"@),
            uint_member("websiteGroupId"@, 0),
            text_member("type"@, ""@),
        ]);
    }
    r
}

/// The body of a website-group search.
pub fn group_search_body() -> (r: String)
    ensures
        r@ == json_display(JsonView::Object(seq![text_member("type"@, "website"@)])),
{
    let mut ms: Vec<JsonMember> = Vec::new();
    ms.push(member("type", text_value("website")));
    let ghost s = ms@;
    let r = object_text(ms);
    proof {
        assert(Seq::new(s.len(), |i: int| MemberView { key: s[i].key@, value: json_view(s[i].value) })
            =~= seq![text_member("type"@, "website"@)]);
    }
    r
}

/// The domain entry of a new website: `domain` on port 80 without SSL.
pub open spec fn domain_entry(domain: Seq<char>) -> JsonView {
    JsonView::Object(
        seq![text_member("domain"@, domain), uint_member("port"@, 80), bool_member("ssl"@, false)],
    )
}

/// The body that creates a static website for `domain` in group
/// `group_id`, with the alias given or, without one, the domain.
pub fn create_website_body(domain: &str, alias: Option<&str>, group_id: u64) -> (r: String)
    ensures
        r@ == json_display(
            JsonView::Object(
                seq![
                    text_member("type"@, "static"@),
                    text_member(
                        "alias"@,
                        match alias {
                            Some(a) => a@,
                            None => domain@,
                        },
                    ),
                    text_member("remark"@, ""@),
                    text_member("proxy"@, ""@),
                    uint_member("webSiteGroupID"@, group_id),
                    bool_member("IPV6"@, false),
                    MemberView { key: "domains"@, value: JsonView::Array(seq![domain_entry(domain@)]) },
                    text_member("ftpUser"@, ""@),
                    text_member("ftpPassword"@, ""@),
                    text_member("siteDir"@, ""@),
                ],
            ),
        ),
{
    let alias_text = match alias {
        Some(a) => a,
        None => domain,
    };
    let mut entry: Vec<JsonMember> = Vec::new();
    entry.push(member("domain", text_value(domain)));
    entry.push(member("port", JsonValue::Number(JsonNumber::PosInt(80))));
    entry.push(member("ssl", JsonValue::Bool(false)));
    let ghost e = entry@;
    let entry_value = JsonValue::Object(entry);
    let mut domains: Vec<JsonValue> = Vec::new();
    domains.push(entry_value);
    let ghost d = domains@;
    let domain_list = JsonValue::Array(domains);
    proof {
        lemma_members_view(e);
        assert(members_view(e) =~= Seq::new(
            e.len(),
            |i: int| MemberView { key: e[i].key@, value: json_view(e[i].value) },
        ));
        assert(json_view(entry_value) == JsonView::Object(
            Seq::new(e.len(), |i: int| MemberView { key: e[i].key@, value: json_view(e[i].value) }),
        ));
        assert(Seq::new(e.len(), |i: int| MemberView { key: e[i].key@, value: json_view(e[i].value) })
            =~= seq![text_member("domain"@, domain@), uint_member("port"@, 80), bool_member("ssl"@, false)]);
        lemma_values_view(d);
        assert(values_view(d) =~= seq![domain_entry(domain@)]);
        assert(json_view(domain_list) == JsonView::Array(seq![domain_entry(domain@)]));
    }
    let mut ms: Vec<JsonMember> = Vec::new();
    ms.push(member("type", text_value("static")));
    ms.push(member("alias", text_value(alias_text)));
    ms.push(member("remark", text_value("")));
    ms.push(member("proxy", text_value("")));
    ms.push(member("webSiteGroupID", JsonValue::Number(JsonNumber::PosInt(group_id))));
    ms.push(member("IPV6", JsonValue::Bool(false)));
    ms.push(member("domains", domain_list));
    ms.push(member("ftpUser", text_value("")));
    ms.push(member("ftpPassword", text_value("")));
    ms.push(member("siteDir", text_value("")));
    let ghost s = ms@;
    let r = object_text(ms);
    proof {
        assert(Seq::new(s.len(), |i: int| MemberView { key: s[i].key@, value: json_view(s[i].value) })
            =~= seq![
            text_member("type"@, "static"@),
            text_member(
                "alias"@,
                match alias {
                    Some(a) => a@,
                    None => domain@,
                },
            ),
            text_member("remark"@, ""@),
            text_member("proxy"@, ""@),
            uint_member("webSiteGroupID"@, group_id),
            bool_member("IPV6"@, false),
            MemberView { key: "domains"@, value: JsonView::Array(seq![domain_entry(domain@)]) },
            text_member("ftpUser"@, ""@),
            text_member("ftpPassword"@, ""@),
            text_member("siteDir"@, ""@),
        ]);
    }
    r
}

} // verus!
