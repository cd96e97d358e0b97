//! Properties that hold across the library's operations.

use vstd::prelude::*;
use crate::compose::{
    ComposeUpdateOpts, ImageChange, ImageUpdate, compose_text_updated, compose_text_updated_by,
    lemma_segments_nonempty, segments,
};
use crate::api::{json_from_brace, response_json};
use crate::json::{JsonView, get_u64, json_get, json_parsed};
use crate::site::{Website, chosen_group, first_default_from, first_serving_from, is_ignored, seq_views, serves, website_entries, website_view};
use crate::config::{
    EnvSettings, LocalConfig, ServerAuth, base_url_parts, config_api_key, config_host, config_insecure,
    config_port, env_insecure, is_truthy, opt_str,
};
use crate::panel::cleaned_host;
use crate::text::{lower, strip_prefixes, strip_trailing, trim};
use crate::yaml::{
    EntryView, YamlView, chain_changes, chain_document, compose_services, lemma_updated_document_services,
    lemma_with_image, opt_view, planned_changes, selects, service_image, updated_document,
    updated_services, yaml_parsed, yaml_str,
};

verus! {

/// No change is planned for services of which none is selected.
proof fn lemma_nothing_selected(
    es: Seq<EntryView>,
    service: Option<Seq<char>>,
    from: Option<Seq<char>>,
    to: Seq<char>,
)
    requires
        forall|i: int| 0 <= i < es.len() ==> !selects(#[trigger] es[i], service, from, to),
    ensures
        planned_changes(es, service, from, to).len() == 0,
    decreases es.len(),
{
    if es.len() > 0 {
        let d = es.drop_last();
        assert forall|i: int| 0 <= i < d.len() implies !selects(#[trigger] d[i], service, from, to) by {
            assert(d[i] == es[i]);
        }
        lemma_nothing_selected(d, service, from, to);
        assert(!selects(es[es.len() - 1], service, from, to));
    }
}

/// A compose update is idempotent: in the document that an update
/// produces, the same update selects no service, so running it again changes
/// nothing (and is reported as matching no image).
pub proof fn law_compose_update_idempotent(
    doc: YamlView,
    service: Option<Seq<char>>,
    from: Option<Seq<char>>,
    to: Seq<char>,
)
    requires
        compose_services(doc) is Some,
    ensures
        compose_services(updated_document(doc, service, from, to)) is Some,
        planned_changes(
            compose_services(updated_document(doc, service, from, to))->0,
            service,
            from,
            to,
        ).len() == 0,
{
    lemma_updated_document_services(doc, service, from, to);
    let s1 = compose_services(doc)->0;
    let s2 = updated_services(s1, service, from, to);
    assert forall|i: int| 0 <= i < s2.len() implies !selects(#[trigger] s2[i], service, from, to) by {
        if selects(s1[i], service, from, to) {
            lemma_with_image(s1[i].key, s1[i].value, to);
        }
    }
    lemma_nothing_selected(s2, service, from, to);
}

/// A setting given on the command line is the one used; without it, one set
/// in the environment; without both, the local file's. A base URL counts as
/// a setting of the host and port of its own source.
pub proof fn law_config_precedence(auth: ServerAuth, env: EnvSettings, local: LocalConfig)
    ensures
        auth.host is Some ==> config_host(auth, env, local) == opt_str(auth.host),
        auth.host is None && auth.base_url is Some ==> match base_url_parts(
            auth.base_url->0@,
        ) {
            Some((h, p, _)) => config_host(auth, env, local) == Some(h) && (auth.port is None
                ==> config_port(auth, env, local) == p),
            None => true,
        },
        auth.port is Some ==> config_port(auth, env, local) == auth.port->0,
        auth.host is None && auth.base_url is None && env.host is Some ==> config_host(
            auth,
            env,
            local,
        ) == opt_str(env.host),
        auth.host is None && auth.base_url is None && env.host is None && env.base_url is None
            && local.host is Some ==> config_host(auth, env, local) == opt_str(local.host),
        auth.api_key is Some ==> config_api_key(auth, env, local) == opt_str(auth.api_key),
        auth.api_key is None && env.api_key is Some ==> config_api_key(auth, env, local) == opt_str(
            env.api_key,
        ),
        auth.api_key is None && env.api_key is None ==> config_api_key(auth, env, local) == opt_str(
            local.api_key,
        ),
        auth.insecure ==> config_insecure(auth, env, local),
        !auth.insecure && !env_insecure(env) && local.insecure != Some(true) ==> !config_insecure(
            auth,
            env,
            local,
        ),
{
}

/// A cleaned host never ends with `/`.
pub proof fn law_cleaned_host_has_no_trailing_slash(host: Seq<char>)
    ensures
        cleaned_host(host).len() == 0 || cleaned_host(host).last() != '/',
{
    lemma_strip_trailing_end(strip_prefixes(strip_prefixes(trim(host), "http://"@), "https://"@), '/');
}

proof fn lemma_strip_trailing_end(s: Seq<char>, c: char)
    ensures
        strip_trailing(s, c).len() == 0 || strip_trailing(s, c).last() != c,
    decreases s.len(),
{
    if s.len() > 0 && s.last() == c {
        lemma_strip_trailing_end(s.drop_last(), c);
    }
}

/// One per-service update gives exactly what the single-image update limited
/// to that service gives: the same text and the same changes.
pub proof fn law_single_image_update_agrees(
    content: Seq<char>,
    u: ImageUpdate,
    opts: ComposeUpdateOpts,
    text: Seq<char>,
    changes: Seq<ImageChange>,
)
    requires
        opt_view(opts.service) == Some(u.service@),
        opts.from_image is None,
        opts.to_image@ == u.image@,
    ensures
        compose_text_updated_by(content, seq![u], text, changes) <==> compose_text_updated(
            content,
            opts,
            text,
            changes,
        ),
{
    let ups = seq![u];
    assert(ups.drop_last() =~= Seq::<ImageUpdate>::empty());
    assert(ups.last() == u);
    if yaml_parsed(content) is Some {
        let doc = yaml_parsed(content)->0;
        assert(chain_document(doc, ups.drop_last()) == doc);
        assert(chain_document(doc, ups) == updated_document(doc, Some(u.service@), None, u.image@));
        assert(chain_changes(doc, ups.drop_last()) == Seq::<(Seq<char>, Seq<char>, Seq<char>)>::empty());
        assert(chain_changes(doc, ups) =~= planned_changes(
            compose_services(doc)->0,
            Some(u.service@),
            None,
            u.image@,
        ));
    }
}

/// Every change that an update reports is real: it names a service of the
/// file, moves it away from an image other than the target, and onto the
/// target image; and the filters hold for it.
pub proof fn law_reported_changes_are_real(
    es: Seq<EntryView>,
    service: Option<Seq<char>>,
    from: Option<Seq<char>>,
    to: Seq<char>,
    i: int,
)
    requires
        0 <= i < planned_changes(es, service, from, to).len(),
    ensures
        planned_changes(es, service, from, to)[i].2 == to,
        planned_changes(es, service, from, to)[i].1 != to,
        service is Some ==> planned_changes(es, service, from, to)[i].0 == service->0,
        from is Some ==> planned_changes(es, service, from, to)[i].1 == from->0,
    decreases es.len(),
{
    let r = planned_changes(es.drop_last(), service, from, to);
    if i < r.len() {
        law_reported_changes_are_real(es.drop_last(), service, from, to, i);
    }
}

/// The service entries named `name` (when given) that have a string name and
/// a string image all have image `image`.
pub open spec fn images_are(es: Seq<EntryView>, name: Option<Seq<char>>, image: Seq<char>) -> bool {
    forall|i: int|
        0 <= i < es.len() && yaml_str(es[i].key) is Some && (name is Some ==> yaml_str(
            es[i].key,
        )->0 == name->0) && service_image(#[trigger] es[i]) is Some ==> service_image(es[i])
            == Some(image)
}

/// After an update to `to` without an image filter, every service it could
/// reach has image `to`.
proof fn lemma_update_sets_images(doc: YamlView, service: Option<Seq<char>>, to: Seq<char>)
    requires
        compose_services(doc) is Some,
    ensures
        compose_services(updated_document(doc, service, None, to)) is Some,
        images_are(compose_services(updated_document(doc, service, None, to))->0, service, to),
{
    lemma_updated_document_services(doc, service, None, to);
    let s1 = compose_services(doc)->0;
    let s2 = updated_services(s1, service, None, to);
    assert forall|i: int|
        0 <= i < s2.len() && yaml_str(s2[i].key) is Some && (service is Some ==> yaml_str(
            s2[i].key,
        )->0 == service->0) && service_image(#[trigger] s2[i]) is Some implies service_image(s2[i])
        == Some(to) by {
        if selects(s1[i], service, None, to) {
            lemma_with_image(s1[i].key, s1[i].value, to);
        }
    }
}

/// A compose update given only a target image sets every service image to
/// it: afterwards each service with a string name and a string image has the
/// target image.
pub proof fn law_unfiltered_update_sets_every_image(doc: YamlView, to: Seq<char>)
    requires
        compose_services(doc) is Some,
    ensures
        compose_services(updated_document(doc, None, None, to)) is Some,
        images_are(compose_services(updated_document(doc, None, None, to))->0, None, to),
{
    lemma_update_sets_images(doc, None, to);
}

/// An update of another service leaves the images of the services named
/// `name` as they were.
proof fn lemma_other_service_untouched(doc: YamlView, u: ImageUpdate, name: Seq<char>, image: Seq<char>)
    requires
        compose_services(doc) is Some,
        u.service@ != name,
        images_are(compose_services(doc)->0, Some(name), image),
    ensures
        compose_services(updated_document(doc, Some(u.service@), None, u.image@)) is Some,
        images_are(
            compose_services(updated_document(doc, Some(u.service@), None, u.image@))->0,
            Some(name),
            image,
        ),
{
    lemma_updated_document_services(doc, Some(u.service@), None, u.image@);
    let s1 = compose_services(doc)->0;
    let s2 = updated_services(s1, Some(u.service@), None, u.image@);
    assert forall|i: int|
        0 <= i < s2.len() && yaml_str(s2[i].key) is Some && (Some(name) is Some ==> yaml_str(
            s2[i].key,
        )->0 == Some(name)->0) && service_image(#[trigger] s2[i]) is Some implies service_image(
        s2[i],
    ) == Some(image) by {
        assert(!selects(s1[i], Some(u.service@), None, u.image@));
        assert(s2[i] == s1[i]);
    }
}

/// Every document along a chain of updates keeps its services mapping.
proof fn lemma_chain_services(doc: YamlView, ups: Seq<ImageUpdate>, j: int)
    requires
        compose_services(doc) is Some,
        0 <= j <= ups.len(),
    ensures
        compose_services(chain_document(doc, ups.take(j))) is Some,
    decreases j,
{
    if j > 0 {
        lemma_chain_services(doc, ups, j - 1);
        let t = ups.take(j);
        assert(t.drop_last() =~= ups.take(j - 1));
        lemma_updated_document_services(
            chain_document(doc, ups.take(j - 1)),
            Some(t.last().service@),
            None,
            t.last().image@,
        );
    } else {
        assert(ups.take(0) =~= Seq::<ImageUpdate>::empty());
    }
}

/// Along a chain of per-service updates, the images that update `i` set
/// stay until a later update names the same service.
proof fn lemma_chain_keeps_image(doc: YamlView, ups: Seq<ImageUpdate>, i: int, j: int)
    requires
        compose_services(doc) is Some,
        0 <= i < j <= ups.len(),
        forall|m: int| i < m < ups.len() ==> (#[trigger] ups[m]).service@ != ups[i].service@,
    ensures
        compose_services(chain_document(doc, ups.take(j))) is Some,
        images_are(
            compose_services(chain_document(doc, ups.take(j)))->0,
            Some(ups[i].service@),
            ups[i].image@,
        ),
    decreases j - i,
{
    let t = ups.take(j);
    assert(t.drop_last() =~= ups.take(j - 1));
    assert(t.last() == ups[j - 1]);
    lemma_chain_services(doc, ups, j - 1);
    let prev = chain_document(doc, ups.take(j - 1));
    if j == i + 1 {
        lemma_update_sets_images(prev, Some(ups[i].service@), ups[i].image@);
    } else {
        lemma_chain_keeps_image(doc, ups, i, j - 1);
        lemma_other_service_untouched(prev, ups[j - 1], ups[i].service@, ups[i].image@);
    }
}

/// With several per-service updates, each service ends up with the image
/// of the last update that names it: when no later update names the same
/// service as update `i`, every image of that service in the final document
/// is the image of update `i`.
pub proof fn law_last_update_of_a_service_wins(doc: YamlView, ups: Seq<ImageUpdate>, i: int)
    requires
        compose_services(doc) is Some,
        0 <= i < ups.len(),
        forall|m: int| i < m < ups.len() ==> (#[trigger] ups[m]).service@ != ups[i].service@,
    ensures
        compose_services(chain_document(doc, ups)) is Some,
        images_are(compose_services(chain_document(doc, ups))->0, Some(ups[i].service@), ups[i].image@),
{
    lemma_chain_keeps_image(doc, ups, i, ups.len() as int);
    assert(ups.take(ups.len() as int) =~= ups);
}

proof fn lemma_brace_after_prefix(prefix: Seq<char>, rest: Seq<char>, i: int)
    requires
        1 <= i <= prefix.len(),
        forall|k: int|
            1 <= k < prefix.len() ==> !((prefix + rest)[k] == '{' && json_parsed(
                #[trigger] (prefix + rest).skip(k),
            ) is Some),
        rest.len() > 0,
        rest[0] == '{',
        json_parsed(rest) is Some,
    ensures
        json_from_brace(prefix + rest, i) == json_parsed(rest),
    decreases prefix.len() - i,
{
    let body = prefix + rest;
    if i < prefix.len() {
        assert(!(body[i] == '{' && json_parsed(body.skip(i)) is Some));
        lemma_brace_after_prefix(prefix, rest, i + 1);
    } else {
        assert(body[i] == rest[0]);
        assert(body.skip(i) =~= rest);
    }
}

/// A response body with text before its JSON is read from where the JSON
/// starts: when the body as a whole is not JSON, the non-empty `prefix` is
/// skipped, even where it holds braces of its own (none of which starts
/// text that parses), and the JSON object text `rest` after it is read.
pub proof fn law_text_before_json_is_skipped(prefix: Seq<char>, rest: Seq<char>)
    requires
        prefix.len() > 0,
        forall|k: int|
            1 <= k < prefix.len() ==> !((prefix + rest)[k] == '{' && json_parsed(
                #[trigger] (prefix + rest).skip(k),
            ) is Some),
        rest.len() > 0,
        rest[0] == '{',
        json_parsed(rest) is Some,
        json_parsed(prefix + rest) is None,
    ensures
        response_json(prefix + rest) == json_parsed(rest),
{
    lemma_brace_after_prefix(prefix, rest, 1);
}

/// Certificate checks are off exactly when some source turns them off: the
/// command line, an environment setting that reads as on, or the local file.
pub proof fn law_any_source_turns_checks_off(auth: ServerAuth, env: EnvSettings, local: LocalConfig)
    ensures
        auth.insecure ==> config_insecure(auth, env, local),
        (env.insecure matches Some(v) && is_truthy(v@)) ==> config_insecure(auth, env, local),
        local.insecure == Some(true) ==> config_insecure(auth, env, local),
        config_insecure(auth, env, local) ==> (auth.insecure || (env.insecure matches Some(v)
            && is_truthy(v@)) || local.insecure == Some(true)),
{
}

proof fn lemma_first_default_at(gs: Seq<JsonView>, i: int, k: int)
    requires
        0 <= i <= k < gs.len(),
        json_get(gs[k], "isDefault"@) == Some(JsonView::Bool(true)),
        forall|j: int|
            0 <= j < k ==> json_get(#[trigger] gs[j], "isDefault"@) != Some(JsonView::Bool(true)),
    ensures
        first_default_from(gs, i) == k,
    decreases k - i,
{
    if i < k {
        assert(json_get(gs[i], "isDefault"@) != Some(JsonView::Bool(true)));
        lemma_first_default_at(gs, i + 1, k);
    }
}

proof fn lemma_no_default(gs: Seq<JsonView>, i: int)
    requires
        0 <= i,
        forall|j: int|
            0 <= j < gs.len() ==> json_get(#[trigger] gs[j], "isDefault"@) != Some(
                JsonView::Bool(true),
            ),
    ensures
        first_default_from(gs, i) == -1,
    decreases gs.len() - i,
{
    if i < gs.len() {
        assert(json_get(gs[i], "isDefault"@) != Some(JsonView::Bool(true)));
        lemma_no_default(gs, i + 1);
    }
}

/// A new website goes to the first group whose `isDefault` member is the
/// JSON boolean `true`, when that group has an id: groups before it whose
/// `isDefault` is `false`, missing or not a boolean are passed over.
pub proof fn law_default_group_is_chosen(gs: Seq<JsonView>, k: int)
    requires
        0 <= k < gs.len(),
        json_get(gs[k], "isDefault"@) == Some(JsonView::Bool(true)),
        forall|j: int|
            0 <= j < k ==> json_get(#[trigger] gs[j], "isDefault"@) != Some(JsonView::Bool(true)),
        get_u64(gs[k], "id"@) is Some,
    ensures
        chosen_group(gs) == get_u64(gs[k], "id"@),
{
    lemma_first_default_at(gs, 0, k);
}

/// Without a group whose `isDefault` is `true`, a new website goes to the
/// first group (when it has an id).
pub proof fn law_first_group_without_default(gs: Seq<JsonView>)
    requires
        gs.len() > 0,
        forall|j: int|
            0 <= j < gs.len() ==> json_get(#[trigger] gs[j], "isDefault"@) != Some(
                JsonView::Bool(true),
            ),
    ensures
        chosen_group(gs) == get_u64(gs[0], "id"@),
{
    lemma_no_default(gs, 0);
}

/// Every entry of a website-list answer becomes a website, in order: the
/// entries are the `items` array of the answer's `data`, else `data` itself
/// when it is an array.
pub proof fn law_every_listed_entry_is_read(j: JsonView)
    ensures
        json_get(j, "data"@) matches Some(JsonView::Array(xs)) ==> website_entries(j) == xs,
        json_get(j, "data"@) matches Some(d) ==> (json_get(d, "items"@) matches Some(
            JsonView::Array(xs),
        ) ==> website_entries(j) == xs),
        j matches JsonView::Array(xs) ==> website_entries(j) == xs,
{
}

proof fn lemma_serving_from(ws: Seq<Website>, domain: Seq<char>, i: int)
    requires
        0 <= i,
    ensures
        first_serving_from(ws, domain, i) == -1 || (i <= first_serving_from(ws, domain, i) < ws.len()
            && serves(website_view(ws[first_serving_from(ws, domain, i)]), domain)),
    decreases ws.len() - i,
{
    if i < ws.len() && !serves(website_view(ws[i]), domain) {
        lemma_serving_from(ws, domain, i + 1);
    }
}

proof fn lemma_found_by(ws: Seq<Website>, domain: Seq<char>, i: int, k: int)
    requires
        0 <= i <= k < ws.len(),
        serves(website_view(ws[k]), domain),
    ensures
        i <= first_serving_from(ws, domain, i) <= k,
    decreases k - i,
{
    if i < k && !serves(website_view(ws[i]), domain) {
        lemma_found_by(ws, domain, i + 1, k);
    }
}

/// A website that lists the domain, at any position of its domain list or
/// as its primary domain, is found: the website found comes no later than
/// it.
pub proof fn law_listed_domain_is_found(ws: Seq<Website>, domain: Seq<char>, k: int, p: int)
    requires
        0 <= k < ws.len(),
        ws[k].domain@ == domain || (0 <= p < ws[k].domains@.len() && ws[k].domains@[p]@ == domain),
    ensures
        0 <= first_serving_from(ws, domain, 0) <= k,
{
    if ws[k].domain@ != domain {
        assert(seq_views(ws[k].domains@)[p] == domain);
    }
    lemma_found_by(ws, domain, 0, k);
}

/// The website found for a domain has it as its primary domain or lists it.
pub proof fn law_found_website_serves_domain(ws: Seq<Website>, domain: Seq<char>)
    ensures
        first_serving_from(ws, domain, 0) >= 0 ==> {
            let i = first_serving_from(ws, domain, 0);
            &&& i < ws.len()
            &&& ws[i].domain@ == domain || exists|p: int|
                0 <= p < ws[i].domains@.len() && ws[i].domains@[p]@ == domain
        },
{
    lemma_serving_from(ws, domain, 0);
    let i = first_serving_from(ws, domain, 0);
    if i >= 0 && ws[i].domain@ != domain {
        let d = seq_views(ws[i].domains@);
        let p = choose|p: int| 0 <= p < d.len() && d[p] == domain;
        assert(ws[i].domains@[p]@ == domain);
    }
}

/// The segments of `x + y`, where `x` is empty or ends with `/`: those of
/// `x` before its final empty one, then those of `y`.
proof fn lemma_segments_concat(x: Seq<char>, y: Seq<char>)
    requires
        x.len() == 0 || x.last() == '/',
    ensures
        segments(x + y) == segments(x).drop_last() + segments(y),
    decreases y.len(),
{
    lemma_segments_nonempty(x);
    if y.len() == 0 {
        assert(x + y =~= x);
        if x.len() > 0 {
            assert(segments(x) == segments(x.drop_last()).push(seq![]));
        }
        assert(segments(x) =~= segments(x).drop_last() + seq![seq![]]);
    } else {
        let y1 = y.drop_last();
        let c = y.last();
        lemma_segments_concat(x, y1);
        lemma_segments_nonempty(y1);
        assert((x + y).drop_last() =~= x + y1);
        assert((x + y).last() == c);
        let a = segments(x).drop_last();
        let t = segments(y1);
        if c == '/' {
            assert((a + t).push(seq![]) =~= a + t.push(seq![]));
        } else {
            assert((a + t).update((a + t).len() - 1, (a + t).last().push(c)) =~= a + t.update(
                t.len() - 1,
                t.last().push(c),
            ));
        }
    }
}

/// A name without `/` is a single segment.
proof fn lemma_segments_single(s: Seq<char>)
    requires
        forall|i: int| 0 <= i < s.len() ==> s[i] != '/',
    ensures
        segments(s) == seq![s],
    decreases s.len(),
{
    if s.len() > 0 {
        lemma_segments_single(s.drop_last());
        assert(s.last() != '/');
        assert(s.drop_last().push(s.last()) =~= s);
        assert(seq![s.drop_last()].update(0, s.drop_last().push(s.last())) =~= seq![s]);
    } else {
        assert(s =~= Seq::<char>::empty());
    }
}

/// A file under a `node_modules`, `.git` or `.vscode` directory, at any
/// depth, is left out of a static deploy: `a + dir + "/" + b`, where `a` is
/// empty or ends with `/`.
pub proof fn law_files_under_ignored_dirs_are_ignored(a: Seq<char>, dir: Seq<char>, b: Seq<char>)
    requires
        a.len() == 0 || a.last() == '/',
        dir == "node_modules"@ || dir == ".git"@ || dir == ".vscode"@,
    ensures
        is_ignored(a + dir + seq!['/'] + b),
{
    reveal_strlit("node_modules");
    reveal_strlit(".git");
    reveal_strlit(".vscode");
    let d = dir + seq!['/'];
    assert(forall|i: int| 0 <= i < dir.len() ==> dir[i] != '/');
    lemma_segments_single(dir);
    assert(d.drop_last() =~= dir);
    assert(segments(d) == segments(dir).push(seq![]));
    lemma_segments_concat(d, b);
    lemma_segments_concat(a, d + b);
    lemma_segments_nonempty(b);
    assert(a + dir + seq!['/'] + b =~= a + (d + b));
    let s = segments(a + (d + b));
    let pre = segments(a).drop_last();
    assert(s == pre + (seq![dir] + segments(b)));
    assert(s[pre.len() as int] == dir);
}

/// The files `.env` and `.env.local` are left out of a static deploy in any
/// directory: `a + name`, where `a` is empty or ends with `/`.
pub proof fn law_env_files_are_ignored(a: Seq<char>, name: Seq<char>)
    requires
        a.len() == 0 || a.last() == '/',
        name == ".env"@ || name == ".env.local"@,
    ensures
        is_ignored(a + name),
{
    reveal_strlit(".env");
    reveal_strlit(".env.local");
    assert(forall|i: int| 0 <= i < name.len() ==> name[i] != '/');
    lemma_segments_single(name);
    lemma_segments_concat(a, name);
    assert(segments(a + name).last() == name);
}

/// A file at the top of the deployed directory whose name is not `.env` or
/// `.env.local` is uploaded, even when its name merely contains one of the
/// ignored names.
pub proof fn law_other_top_files_are_kept(name: Seq<char>)
    requires
        forall|i: int| 0 <= i < name.len() ==> name[i] != '/',
        name != ".env"@,
        name != ".env.local"@,
    ensures
        !is_ignored(name),
{
    lemma_segments_single(name);
}

/// The environment turns certificate checks off with `1`, `true`, `yes` or
/// `on`, in any ASCII case; `0`, `false`, `no`, `off` and the empty text leave
/// them on.
pub proof fn law_truthy_words()
    ensures
        is_truthy("1"@),
        is_truthy("true"@),
        is_truthy("yes"@),
        is_truthy("on"@),
        is_truthy("TRUE"@),
        is_truthy("Yes"@),
        !is_truthy("0"@),
        !is_truthy("false"@),
        !is_truthy("no"@),
        !is_truthy("off"@),
        !is_truthy(""@),
{
    reveal_strlit("1");
    reveal_strlit("true");
    reveal_strlit("yes");
    reveal_strlit("on");
    reveal_strlit("TRUE");
    reveal_strlit("Yes");
    reveal_strlit("0");
    reveal_strlit("false");
    reveal_strlit("no");
    reveal_strlit("off");
    reveal_strlit("");
    assert(lower("TRUE"@) =~= "true"@);
    assert(lower("Yes"@) =~= "yes"@);
    assert(lower("true"@) =~= "true"@);
    assert(lower("yes"@) =~= "yes"@);
    assert(lower("1"@) =~= "1"@);
    assert(lower("on"@) =~= "on"@);
    assert(lower("0"@) =~= "0"@);
    assert(lower("false"@) =~= "false"@);
    assert(lower("no"@) =~= "no"@);
    assert(lower("off"@) =~= "off"@);
}

} // verus!
