//! Static websites: reading website answers, choosing the target website and
//! website group, and the bookkeeping of a static deploy.

use vstd::prelude::*;
use crate::error::CliError;
use crate::api::data_of;
use crate::json::{
    JsonValue, JsonView, as_array, as_bool, as_str, get, get_str, get_str_exec, get_u64,
    get_u64_exec, json_array, json_bool, json_display, json_get, json_str, json_text, json_view,
    lemma_values_view, values_view,
};
use crate::compose::segments;
use crate::text::{chars_eq, chars_of, ends_with, ends_with_exec, push_char, str_eq};

verus! {

/// A website as the server describes it.
#[derive(Debug, Clone)]
pub struct Website {
    pub id: Option<u64>,
    pub domain: String,
    pub alias: Option<String>,
    pub group_id: Option<u64>,
    pub site_path: Option<String>,
    pub status: Option<String>,
    pub domains: Vec<String>,
}

/// A website in terms of sequences.
pub struct WebsiteView {
    pub id: Option<u64>,
    pub domain: Seq<char>,
    pub alias: Option<Seq<char>>,
    pub group_id: Option<u64>,
    pub site_path: Option<Seq<char>>,
    pub status: Option<Seq<char>>,
    pub domains: Seq<Seq<char>>,
}

/// The view of an optional string.
pub open spec fn opt_seq(o: Option<String>) -> Option<Seq<char>> {
    match o {
        Some(s) => Some(s@),
        None => None,
    }
}

/// The views of a list of strings.
pub open spec fn seq_views(v: Seq<String>) -> Seq<Seq<char>> {
    v.map_values(|s: String| s@)
}

/// A website in terms of sequences.
pub open spec fn website_view(w: Website) -> WebsiteView {
    WebsiteView {
        id: w.id,
        domain: w.domain@,
        alias: opt_seq(w.alias),
        group_id: w.group_id,
        site_path: opt_seq(w.site_path),
        status: opt_seq(w.status),
        domains: seq_views(w.domains@),
    }
}

/// The domain that a `domains` item names: the item itself when it is a
/// string, else its `domain` string.
pub open spec fn domain_item(item: JsonView) -> Option<Seq<char>> {
    match json_str(item) {
        Some(s) => Some(s),
        None => get_str(item, "domain"@),
    }
}

/// The domains that the items name, in order, skipping items that name none.
pub open spec fn domain_list(items: Seq<JsonView>) -> Seq<Seq<char>>
    decreases items.len(),
{
    if items.len() == 0 {
        seq![]
    } else {
        let r = domain_list(items.drop_last());
        match domain_item(items.last()) {
            Some(d) => r.push(d),
            None => r,
        }
    }
}

/// The domains of a website description: what its `domains` array names.
pub open spec fn website_domains(v: JsonView) -> Seq<Seq<char>> {
    match json_get(v, "domains"@) {
        Some(d) => match json_array(d) {
            Some(xs) => domain_list(xs),
            None => seq![],
        },
        None => seq![],
    }
}

/// The primary domain of a website description: `primaryDomain`, else
/// `domain`, else `alias`, else the first listed domain, else empty.
pub open spec fn primary_domain(v: JsonView) -> Seq<char> {
    if get_str(v, "primaryDomain"@) is Some {
        get_str(v, "primaryDomain"@)->0
    } else if get_str(v, "domain"@) is Some {
        get_str(v, "domain"@)->0
    } else if get_str(v, "alias"@) is Some {
        get_str(v, "alias"@)->0
    } else if website_domains(v).len() > 0 {
        website_domains(v)[0]
    } else {
        seq![]
    }
}

/// The website that a description gives.
pub open spec fn website_of(v: JsonView) -> WebsiteView {
    WebsiteView {
        id: get_u64(v, "id"@),
        domain: primary_domain(v),
        alias: get_str(v, "alias"@),
        group_id: if get_u64(v, "webSiteGroupId"@) is Some {
            get_u64(v, "webSiteGroupId"@)
        } else {
            get_u64(v, "webSiteGroupID"@)
        },
        site_path: get_str(v, "sitePath"@),
        status: match json_get(v, "status"@) {
            Some(s) => Some(json_display(s)),
            None => None,
        },
        domains: website_domains(v),
    }
}

/// An optional string member, copied.
fn copy_str(v: &JsonValue, key: &str) -> (r: Option<String>)
    ensures
        opt_seq(r) == get_str(json_view(*v), key@),
{
    match get_str_exec(v, key) {
        Some(s) => Some(s.clone()),
        None => None,
    }
}

/// The domains that a website description lists.
fn domains_of(v: &JsonValue) -> (r: Vec<String>)
    ensures
        seq_views(r@) == website_domains(json_view(*v)),
{
    let empty: Vec<JsonValue> = Vec::new();
    let items: &Vec<JsonValue> = match get(v, "domains") {
        Some(d) => match as_array(d) {
            Some(xs) => xs,
            None => &empty,
        },
        None => &empty,
    };
    let ghost all = values_view(items@);
    proof {
        lemma_values_view(items@);
        assert(domain_list(all) == website_domains(json_view(*v)));
        assert(all.take(0) =~= Seq::<JsonView>::empty());
        assert(seq_views(Seq::<String>::empty()) =~= Seq::empty());
    }
    let mut out: Vec<String> = Vec::new();
    let mut i: usize = 0;
    while i < items.len()
        invariant
            i <= items@.len(),
            all.len() == items@.len(),
            forall|j: int| 0 <= j < items@.len() ==> #[trigger] all[j] == json_view(items@[j]),
            seq_views(out@) == domain_list(all.take(i as int)),
        decreases items@.len() - i,
    {
        let item = &items[i];
        proof {
            assert(all[i as int] == json_view(*item));
        }
        let found: Option<String> = match as_str(item) {
            Some(s) => Some(s.clone()),
            None => copy_str(item, "domain"),
        };
        let ghost before = out@;
        if let Some(d) = found {
            out.push(d);
            proof {
                assert(seq_views(out@) =~= seq_views(before).push(domain_item(all[i as int])->0));
            }
        }
        proof {
            let t = all.take(i + 1);
            assert(t.drop_last() =~= all.take(i as int));
            assert(t.last() == all[i as int]);
        }
        i += 1;
    }
    proof {
        assert(all.take(all.len() as int) =~= all);
    }
    out
}

/// Reads a website description (see `website_of`).
pub fn normalize_website(v: &JsonValue) -> (r: Website)
    ensures
        website_view(r) == website_of(json_view(*v)),
{
    let domains = domains_of(v);
    let domain: String = match get_str_exec(v, "primaryDomain") {
        Some(s) => s.clone(),
        None => match get_str_exec(v, "domain") {
            Some(s) => s.clone(),
            None => match get_str_exec(v, "alias") {
                Some(s) => s.clone(),
                None => if domains.len() > 0 {
                    domains[0].clone()
                } else {
                    String::new()
                },
            },
        },
    };
    let group_id = match get_u64_exec(v, "webSiteGroupId") {
        Some(g) => Some(g),
        None => get_u64_exec(v, "webSiteGroupID"),
    };
    let status = match get(v, "status") {
        Some(s) => Some(json_text(s)),
        None => None,
    };
    let r = Website {
        id: get_u64_exec(v, "id"),
        domain,
        alias: copy_str(v, "alias"),
        group_id,
        site_path: copy_str(v, "sitePath"),
        status,
        domains,
    };
    proof {
        assert(website_view(r).domains == website_of(json_view(*v)).domains);
        if domains@.len() > 0 {
            assert(seq_views(domains@)[0] == domains@[0]@);
        }
    }
    r
}

/// The website descriptions of a website-list answer: the `items` array of
/// its data, else its data when that is an array, else none.
pub open spec fn website_entries(j: JsonView) -> Seq<JsonView> {
    let d = data_of(j);
    match json_get(d, "items"@) {
        Some(items) if json_array(items) is Some => json_array(items)->0,
        _ => match json_array(d) {
            Some(xs) => xs,
            None => seq![],
        },
    }
}

/// The websites of a website-list answer, in order.
pub fn websites_from_response(json: &JsonValue) -> (r: Vec<Website>)
    ensures
        r@.len() == website_entries(json_view(*json)).len(),
        forall|i: int|
            0 <= i < r@.len() ==> website_view(#[trigger] r@[i]) == website_of(
                website_entries(json_view(*json))[i],
            ),
{
    let data = crate::api::unwrap_data(json);
    let empty: Vec<JsonValue> = Vec::new();
    let entries: &Vec<JsonValue> = match get(data, "items") {
        Some(x) => match as_array(x) {
            Some(xs) => xs,
            None => match as_array(data) {
                Some(xs) => xs,
                None => &empty,
            },
        },
        None => match as_array(data) {
            Some(xs) => xs,
            None => &empty,
        },
    };
    let ghost all = website_entries(json_view(*json));
    proof {
        lemma_values_view(entries@);
        assert(values_view(entries@) =~= all);
    }
    let mut out: Vec<Website> = Vec::new();
    let mut i: usize = 0;
    while i < entries.len()
        invariant
            i <= entries@.len(),
            all.len() == entries@.len(),
            forall|j: int| 0 <= j < entries@.len() ==> #[trigger] all[j] == json_view(entries@[j]),
            out@.len() == i,
            forall|k: int| 0 <= k < i ==> website_view(#[trigger] out@[k]) == website_of(all[k]),
        decreases entries@.len() - i,
    {
        out.push(normalize_website(&entries[i]));
        i += 1;
    }
    out
}


/// Whether the website list is taken from the search request: when the
/// list request got no answer (`None`) or an unsuccessful HTTP status.
pub fn list_by_search(list_status: Option<u16>) -> (r: bool)
    ensures
        r == !(list_status matches Some(s) && 200 <= s < 300),
{
    match list_status {
        Some(s) => !(200 <= s && s < 300),
        None => true,
    }
}

/// A website serves `domain` when it is its primary domain or one of its
/// listed domains.
pub open spec fn serves(w: WebsiteView, domain: Seq<char>) -> bool {
    w.domain == domain || w.domains.contains(domain)
}

/// Index of the first website from `i` on that serves `domain`, or -1.
pub open spec fn first_serving_from(ws: Seq<Website>, domain: Seq<char>, i: int) -> int
    decreases ws.len() - i,
{
    if i < 0 || i >= ws.len() {
        -1
    } else if serves(website_view(ws[i]), domain) {
        i
    } else {
        first_serving_from(ws, domain, i + 1)
    }
}

/// Whether website `w` serves `domain`.
fn serves_exec(w: &Website, domain: &str) -> (r: bool)
    ensures
        r == serves(website_view(*w), domain@),
{
    if str_eq(w.domain.as_str(), domain) {
        return true;
    }
    let mut i: usize = 0;
    while i < w.domains.len()
        invariant
            i <= w.domains@.len(),
            forall|k: int| 0 <= k < i ==> w.domains@[k]@ != domain@,
        decreases w.domains@.len() - i,
    {
        if str_eq(w.domains[i].as_str(), domain) {
            proof {
                assert(seq_views(w.domains@)[i as int] == domain@);
            }
            return true;
        }
        i += 1;
    }
    proof {
        if seq_views(w.domains@).contains(domain@) {
            let k = choose|k: int| 0 <= k < seq_views(w.domains@).len() && seq_views(w.domains@)[k] == domain@;
            assert(w.domains@[k]@ == domain@);
        }
    }
    false
}

/// The first website that serves `domain`, taken out of the list.
pub fn find_website(websites: Vec<Website>, domain: &str) -> (r: Option<Website>)
    ensures
        match r {
            Some(w) => {
                let k = first_serving_from(websites@, domain@, 0);
                0 <= k < websites@.len() && w == websites@[k]
            },
            None => first_serving_from(websites@, domain@, 0) == -1,
        },
{
    let mut list = websites;
    let ghost all = list@;
    let mut i: usize = 0;
    while i < list.len()
        invariant
            list@ == all,
            all == websites@,
            i <= all.len(),
            first_serving_from(all, domain@, 0) == first_serving_from(all, domain@, i as int),
        decreases all.len() - i,
    {
        if serves_exec(&list[i], domain) {
            proof {
                assert(first_serving_from(all, domain@, i as int) == i);
            }
            return Some(list.remove(i));
        }
        i += 1;
    }
    None
}

/// The id under which a found website's details must be fetched: when the
/// list gave its id but not its site path.
pub fn detail_id(w: &Website) -> (r: Option<u64>)
    ensures
        r == if w.id is Some && w.site_path is None {
            w.id
        } else {
            None
        },
{
    match w.id {
        Some(id) => if w.site_path.is_none() {
            Some(id)
        } else {
            None
        },
        None => None,
    }
}

/// A website group is the default one when its `isDefault` is `true`.
pub open spec fn is_default_group(g: JsonView) -> bool {
    match json_get(g, "isDefault"@) {
        Some(b) => json_bool(b) == Some(true),
        None => false,
    }
}

/// Index of the first default group from `i` on, or -1.
pub open spec fn first_default_from(gs: Seq<JsonView>, i: int) -> int
    decreases gs.len() - i,
{
    if i < 0 || i >= gs.len() {
        -1
    } else if is_default_group(gs[i]) {
        i
    } else {
        first_default_from(gs, i + 1)
    }
}

/// The website group to create a website in: the id of the first default
/// group, else the id of the first group.
pub open spec fn chosen_group(gs: Seq<JsonView>) -> Option<u64> {
    let k = first_default_from(gs, 0);
    if k >= 0 && get_u64(gs[k], "id"@) is Some {
        get_u64(gs[k], "id"@)
    } else if gs.len() > 0 {
        get_u64(gs[0], "id"@)
    } else {
        None
    }
}

/// Whether a group is the default one.
fn is_default_exec(g: &JsonValue) -> (r: bool)
    ensures
        r == is_default_group(json_view(*g)),
{
    match get(g, "isDefault") {
        Some(b) => match as_bool(b) {
            Some(x) => x,
            None => false,
        },
        None => false,
    }
}

/// Chooses the website group from the data of a group-search answer.
pub fn pick_group_id(data: &JsonValue) -> (r: Result<u64, CliError>)
    ensures
        match r {
            Ok(id) => json_array(json_view(*data)) matches Some(gs) && chosen_group(gs) == Some(id),
            Err(e) => match json_array(json_view(*data)) {
                None => e is InvalidGroupsResponse,
                Some(gs) => chosen_group(gs) is None && e is NoWebsiteGroup,
            },
        },
{
    let groups = match as_array(data) {
        Some(gs) => gs,
        None => return Err(CliError::InvalidGroupsResponse),
    };
    let ghost gv = values_view(groups@);
    proof {
        lemma_values_view(groups@);
    }
    let mut i: usize = 0;
    while i < groups.len() && !is_default_exec(&groups[i])
        invariant
            i <= groups@.len(),
            gv.len() == groups@.len(),
            forall|j: int| 0 <= j < groups@.len() ==> #[trigger] gv[j] == json_view(groups@[j]),
            first_default_from(gv, 0) == first_default_from(gv, i as int),
        decreases groups@.len() - i,
    {
        assert(gv[i as int] == json_view(groups@[i as int]));
        i += 1;
    }
    if i < groups.len() {
        proof {
            assert(gv[i as int] == json_view(groups@[i as int]));
            assert(first_default_from(gv, i as int) == i);
        }
        if let Some(id) = get_u64_exec(&groups[i], "id") {
            return Ok(id);
        }
    }
    if groups.len() > 0 {
        proof {
            assert(gv[0] == json_view(groups@[0]));
        }
        if let Some(id) = get_u64_exec(&groups[0], "id") {
            return Ok(id);
        }
    }
    Err(CliError::NoWebsiteGroup)
}

/// The domain to deploy to when none is given: that of the first listed
/// website.
pub fn fallback_domain(websites: &Vec<Website>) -> (r: Result<String, CliError>)
    ensures
        match r {
            Ok(d) => websites@.len() > 0 && d@ == websites@[0].domain@,
            Err(e) => websites@.len() == 0 && e is NoWebsites,
        },
{
    if websites.len() == 0 {
        Err(CliError::NoWebsites)
    } else {
        Ok(websites[0].domain.clone())
    }
}

/// Whether a missing website may be created: only when that was asked for.
pub fn allow_create(create_if_missing: bool, domain: &str) -> (r: Result<(), CliError>)
    ensures
        r is Ok <==> create_if_missing,
        r matches Err(e) ==> (e matches CliError::WebsiteNotFound { domain: d } && d@ == domain@),
{
    if create_if_missing {
        Ok(())
    } else {
        Err(CliError::WebsiteNotFound { domain: domain.to_owned() })
    }
}

/// The site path of the target website.
pub fn site_path_of(w: &Website, domain: &str) -> (r: Result<String, CliError>)
    ensures
        match r {
            Ok(p) => w.site_path matches Some(s) && p@ == s@,
            Err(e) => w.site_path is None && (e matches CliError::SitePathMissing { domain: d } && d@ == domain@),
        },
{
    match &w.site_path {
        Some(p) => Ok(p.clone()),
        None => Err(CliError::SitePathMissing { domain: domain.to_owned() }),
    }
}

/// Directories whose contents a static deploy leaves out.
pub open spec fn is_ignored_dir(name: Seq<char>) -> bool {
    name == "node_modules"@ || name == ".git"@ || name == ".vscode"@
}

/// Files that a static deploy leaves out.
pub open spec fn is_ignored_file(name: Seq<char>) -> bool {
    name == ".env"@ || name == ".env.local"@
}

/// A relative path (with `/` separators) is left out when one of its
/// directories is `node_modules`, `.git` or `.vscode`, or when its file name
/// is `.env` or `.env.local`.
pub open spec fn is_ignored(rel: Seq<char>) -> bool {
    let s = segments(rel);
    ||| exists|i: int| 0 <= i < s.len() - 1 && is_ignored_dir(#[trigger] s[i])
    ||| is_ignored_file(s.last())
}

/// Whether a directory name is one whose contents are left out.
fn is_ignored_dir_exec(name: &Vec<char>) -> (r: bool)
    ensures
        r == is_ignored_dir(name@),
{
    chars_eq(name, &chars_of("node_modules")) || chars_eq(name, &chars_of(".git")) || chars_eq(
        name,
        &chars_of(".vscode"),
    )
}

/// Whether a file at `rel_path` is left out of a static deploy.
pub fn should_ignore(rel_path: &str) -> (r: bool)
    ensures
        r == is_ignored(rel_path@),
{
    let v = chars_of(rel_path);
    let mut cur: Vec<char> = Vec::new();
    let mut in_ignored_dir = false;
    let mut i: usize = 0;
    proof {
        assert(v@.take(0) =~= Seq::<char>::empty());
    }
    while i < v.len()
        invariant
            i <= v@.len(),
            v@ == rel_path@,
            segments(v@.take(i as int)).len() >= 1,
            cur@ == segments(v@.take(i as int)).last(),
            in_ignored_dir == exists|j: int|
                0 <= j < segments(v@.take(i as int)).len() - 1 && is_ignored_dir(
                    #[trigger] segments(v@.take(i as int))[j],
                ),
        decreases v@.len() - i,
    {
        let c = v[i];
        let ghost segs = segments(v@.take(i as int));
        proof {
            assert(v@.take(i + 1).drop_last() =~= v@.take(i as int));
            assert(v@.take(i + 1).last() == c);
        }
        if c == '/' {
            let dir = is_ignored_dir_exec(&cur);
            let ghost before = in_ignored_dir;
            in_ignored_dir = in_ignored_dir || dir;
            cur = Vec::new();
            proof {
                let n = segs.push(seq![]);
                assert(segments(v@.take(i + 1)) == n);
                if before {
                    let j = choose|j: int| 0 <= j < segs.len() - 1 && is_ignored_dir(#[trigger] segs[j]);
                    assert(n[j] == segs[j]);
                }
                if dir {
                    assert(n[segs.len() - 1] == segs.last());
                }
                if in_ignored_dir {
                    assert(exists|j: int| 0 <= j < n.len() - 1 && is_ignored_dir(#[trigger] n[j]));
                } else {
                    assert forall|j: int| 0 <= j < n.len() - 1 implies !is_ignored_dir(#[trigger] n[j]) by {
                        if j < segs.len() - 1 {
                            assert(n[j] == segs[j]);
                        } else {
                            assert(n[j] == segs.last());
                        }
                    }
                }
            }
        } else {
            cur.push(c);
            proof {
                let n = segs.update(segs.len() - 1, segs.last().push(c));
                assert(segments(v@.take(i + 1)) == n);
                if in_ignored_dir {
                    let j = choose|j: int| 0 <= j < segs.len() - 1 && is_ignored_dir(#[trigger] segs[j]);
                    assert(n[j] == segs[j]);
                } else {
                    assert forall|j: int| 0 <= j < n.len() - 1 implies !is_ignored_dir(#[trigger] n[j]) by {
                        assert(n[j] == segs[j]);
                    }
                }
            }
        }
        i += 1;
    }
    proof {
        assert(v@.take(v@.len() as int) =~= v@);
    }
    let file = chars_eq(&cur, &chars_of(".env")) || chars_eq(&cur, &chars_of(".env.local"));
    in_ignored_dir || file
}

/// `s` with every `\` turned into `/`.
pub open spec fn forward_slashed(s: Seq<char>) -> Seq<char> {
    s.map_values(|c: char| if c == '\\' { '/' } else { c })
}

/// `s` with every `\` turned into `/`.
pub fn forward_slashes(s: &str) -> (r: String)
    ensures
        r@ == forward_slashed(s@),
{
    let v = chars_of(s);
    let mut r = String::new();
    let mut i: usize = 0;
    while i < v.len()
        invariant
            i <= v@.len(),
            v@ == s@,
            r@ == forward_slashed(v@.take(i as int)),
        decreases v@.len() - i,
    {
        let c = v[i];
        let d = if c == '\\' {
            '/'
        } else {
            c
        };
        push_char(&mut r, d);
        proof {
            assert(forward_slashed(v@.take(i + 1)) =~= forward_slashed(v@.take(i as int)).push(d));
        }
        i += 1;
    }
    proof {
        assert(v@.take(v@.len() as int) =~= v@);
    }
    r
}

/// The directory that a file goes to: the site path, a `/` unless it ends
/// with one, then the file's relative parent directory unless that is empty
/// or `.`.
pub open spec fn upload_dir(site_path: Seq<char>, parent_rel: Seq<char>) -> Seq<char> {
    let base = if ends_with(site_path, "/"@) {
        site_path
    } else {
        site_path.push('/')
    };
    if parent_rel.len() > 0 && parent_rel != "."@ {
        base + parent_rel
    } else {
        base
    }
}

/// The directory that a file with relative parent `parent_rel` goes to.
pub fn target_dir(site_path: &str, parent_rel: &str) -> (r: String)
    ensures
        r@ == upload_dir(site_path@, parent_rel@),
{
    let sp = chars_of(site_path);
    let slash = chars_of("/");
    let mut r = site_path.to_owned();
    if !ends_with_exec(&sp, &slash) {
        push_char(&mut r, '/');
    }
    if !str_eq(parent_rel, "") && !str_eq(parent_rel, ".") {
        r.append(parent_rel);
    } else {
        proof {
            reveal_strlit("");
        }
    }
    r
}

/// The counts of a static deploy so far: files counted (each after its
/// upload), files uploaded, failures, and of those the directory entries
/// that could not be read.
#[derive(Debug, Clone)]
pub struct DeployTally {
    pub total: usize,
    pub uploaded: usize,
    pub failed: usize,
    pub unreadable: usize,
}

impl DeployTally {
    /// Every counted file was either uploaded or failed, and every failure
    /// is a counted file or an unreadable entry.
    pub open spec fn wf(self) -> bool {
        &&& self.unreadable <= self.failed
        &&& self.uploaded + self.failed == self.total + self.unreadable
    }

    /// No file seen yet.
    pub fn new() -> (r: Self)
        ensures
            r.wf(),
            r.total == 0 && r.uploaded == 0 && r.failed == 0 && r.unreadable == 0,
    {
        DeployTally { total: 0, uploaded: 0, failed: 0, unreadable: 0 }
    }

    /// A directory entry that could not be read counts as failed.
    pub fn record_unreadable(&mut self)
        requires
            old(self).wf(),
            old(self).failed < usize::MAX,
        ensures
            final(self).wf(),
            final(self).failed == old(self).failed + 1,
            final(self).unreadable == old(self).unreadable + 1,
            final(self).total == old(self).total,
            final(self).uploaded == old(self).uploaded,
    {
        self.failed = self.failed + 1;
        self.unreadable = self.unreadable + 1;
    }

    /// One file that is not left out, counted with the outcome of its upload.
    pub fn record_upload(&mut self, ok: bool)
        requires
            old(self).wf(),
            old(self).total < usize::MAX,
            ok ==> old(self).uploaded < usize::MAX,
            !ok ==> old(self).failed < usize::MAX,
        ensures
            final(self).wf(),
            final(self).total == old(self).total + 1,
            final(self).unreadable == old(self).unreadable,
            final(self).uploaded == old(self).uploaded + if ok { 1usize } else { 0usize },
            final(self).failed == old(self).failed + if ok { 0usize } else { 1usize },
    {
        self.total = self.total + 1;
        if ok {
            self.uploaded = self.uploaded + 1;
        } else {
            self.failed = self.failed + 1;
        }
    }
}

/// What a finished static deploy reports.
#[derive(Debug, Clone)]
pub struct DeployStaticResult {
    pub ok: bool,
    pub action: String,
    pub domain: String,
    pub website_id: Option<u64>,
    pub created: bool,
    pub group_id: Option<u64>,
    pub source_path: String,
    pub uploaded: usize,
    pub failed: usize,
    pub total: usize,
    pub site_path: Option<String>,
    pub url: String,
}

/// The outcome of a static deploy into `site_path` of `website`: a failure
/// when any file failed, else the report, in which every counted file was
/// uploaded.
pub fn finish_deploy(
    tally: &DeployTally,
    domain: String,
    website: Website,
    site_path: String,
    created: bool,
    group_id: Option<u64>,
    source_path: String,
) -> (r: Result<DeployStaticResult, CliError>)
    requires
        tally.wf(),
    ensures
        match r {
            Ok(res) => {
                &&& tally.failed == 0
                &&& res.ok
                &&& res.action@ == "deploy"@
                &&& res.domain@ == domain@
                &&& res.website_id == website.id
                &&& res.created == created
                &&& res.group_id == if website.group_id is Some {
                    website.group_id
                } else {
                    group_id
                }
                &&& res.source_path@ == source_path@
                &&& res.uploaded == tally.uploaded
                &&& res.failed == tally.failed
                &&& res.total == tally.total
                &&& res.uploaded == res.total
                &&& opt_seq(res.site_path) == Some(site_path@)
                &&& res.url@ == "https://"@ + domain@
            },
            Err(e) => tally.failed > 0 && (e matches CliError::DeployFailed { uploaded, total, failed }
                && uploaded == tally.uploaded && total == tally.total && failed == tally.failed),
        },
{
    if tally.failed > 0 {
        return Err(
            CliError::DeployFailed {
                uploaded: tally.uploaded,
                total: tally.total,
                failed: tally.failed,
            },
        );
    }
    let mut url = "https://".to_owned();
    url.append(domain.as_str());
    let group = match website.group_id {
        Some(g) => Some(g),
        None => group_id,
    };
    Ok(DeployStaticResult {
        ok: true,
        action: "deploy".to_owned(),
        domain,
        website_id: website.id,
        created,
        group_id: group,
        source_path,
        uploaded: tally.uploaded,
        failed: tally.failed,
        total: tally.total,
        site_path: Some(site_path),
        url,
    })
}

} // verus!
