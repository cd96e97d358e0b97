//! A YAML document model and the compose-file image update.
//!
//! `serde_yaml` parses and prints the text; the document in between is a
//! `YamlValue`, a one-to-one copy of `serde_yaml::Value` whose numbers and
//! tags are carried through unread. Contracts speak of a document through
//! `yaml_view`, the same document as data (`YamlView`); the update itself is
//! the spec function `updated_document`.

use vstd::prelude::*;
use crate::error::CliError;
use crate::compose::{ImageChange, ImageUpdate, change_views};
use crate::text::str_eq;
use serde_yaml::Value as V;

verus! {

#[verifier::external_type_specification]
#[verifier::external_body]
pub struct ExYamlValue(serde_yaml::Value);

#[verifier::external_type_specification]
#[verifier::external_body]
pub struct ExYamlNumber(serde_yaml::Number);

#[verifier::external_type_specification]
#[verifier::external_body]
pub struct ExYamlTag(serde_yaml::value::Tag);

#[verifier::external_type_specification]
#[verifier::external_body]
pub struct ExYamlError(serde_yaml::Error);

/// A YAML value, node for node as `serde_yaml::Value` holds it. A mapping
/// keeps its entries in document order; its keys are distinct.
pub enum YamlValue {
    Null,
    Bool(bool),
    Number(serde_yaml::Number),
    String(String),
    Sequence(Vec<YamlValue>),
    Mapping(Vec<YamlEntry>),
    Tagged(serde_yaml::value::Tag, Box<YamlValue>),
}

/// One key/value pair of a YAML mapping.
pub struct YamlEntry {
    pub key: YamlValue,
    pub value: YamlValue,
}

/// A YAML value as data: strings as character sequences and lists as
/// sequences, so that equal documents are equal values.
pub enum YamlView {
    Null,
    Bool(bool),
    Number(serde_yaml::Number),
    String(Seq<char>),
    Sequence(Seq<YamlView>),
    Mapping(Seq<EntryView>),
    Tagged(serde_yaml::value::Tag, Box<YamlView>),
}

/// One key/value pair of a mapping, as data.
pub struct EntryView {
    pub key: YamlView,
    pub value: YamlView,
}

/// The data that a YAML value holds.
pub open spec fn yaml_view(v: YamlValue) -> YamlView
    decreases v,
{
    match v {
        YamlValue::Null => YamlView::Null,
        YamlValue::Bool(b) => YamlView::Bool(b),
        YamlValue::Number(n) => YamlView::Number(n),
        YamlValue::String(s) => YamlView::String(s@),
        YamlValue::Sequence(xs) => YamlView::Sequence(values_view(xs@)),
        YamlValue::Mapping(es) => YamlView::Mapping(entries_view(es@)),
        YamlValue::Tagged(t, b) => YamlView::Tagged(t, Box::new(yaml_view(*b))),
    }
}

/// The data of a list of YAML values.
pub open spec fn values_view(xs: Seq<YamlValue>) -> Seq<YamlView>
    decreases xs,
{
    if xs.len() == 0 {
        seq![]
    } else {
        values_view(xs.drop_last()).push(yaml_view(xs.last()))
    }
}

/// The data of a list of mapping entries.
pub open spec fn entries_view(es: Seq<YamlEntry>) -> Seq<EntryView>
    decreases es,
{
    if es.len() == 0 {
        seq![]
    } else {
        entries_view(es.drop_last()).push(
            EntryView { key: yaml_view(es.last().key), value: yaml_view(es.last().value) },
        )
    }
}

/// The data of one mapping entry.
pub open spec fn entry_view(e: YamlEntry) -> EntryView {
    EntryView { key: yaml_view(e.key), value: yaml_view(e.value) }
}

/// The data of a list of entries, entry by entry.
pub proof fn lemma_entries_view(es: Seq<YamlEntry>)
    ensures
        entries_view(es).len() == es.len(),
        forall|i: int| 0 <= i < es.len() ==> #[trigger] entries_view(es)[i] == entry_view(es[i]),
    decreases es.len(),
{
    if es.len() > 0 {
        lemma_entries_view(es.drop_last());
        assert forall|i: int| 0 <= i < es.len() implies #[trigger] entries_view(es)[i] == entry_view(
            es[i],
        ) by {
            if i < es.len() - 1 {
                assert(es.drop_last()[i] == es[i]);
            }
        }
    }
}

/// What `serde_yaml::from_str::<serde_yaml::Value>` makes of a text, as
/// data, or `None` where it reports an error.
pub uninterp spec fn yaml_parsed(text: Seq<char>) -> Option<YamlView>;

/// The text that `serde_yaml::to_string` prints for a document given as
/// data, or `None` where it reports an error.
pub uninterp spec fn yaml_rendered(doc: YamlView) -> Option<Seq<char>>;

/// Copies a `serde_yaml::Value` into the model, node for node.
#[verifier::external_body]
fn yaml_from_value(v: serde_yaml::Value) -> YamlValue {
    match v {
        V::Null => YamlValue::Null,
        V::Bool(b) => YamlValue::Bool(b),
        V::Number(n) => YamlValue::Number(n),
        V::String(s) => YamlValue::String(s),
        V::Sequence(xs) => YamlValue::Sequence(xs.into_iter().map(yaml_from_value).collect()),
        V::Mapping(m) => YamlValue::Mapping(m.into_iter().map(|(k, v)| YamlEntry { key: yaml_from_value(k), value: yaml_from_value(v) }).collect()),
        V::Tagged(t) => YamlValue::Tagged(t.tag, Box::new(yaml_from_value(t.value))),
    }
}

/// Copies a model value back into a `serde_yaml::Value`, node for node.
#[verifier::external_body]
fn yaml_to_value(v: YamlValue) -> serde_yaml::Value {
    match v {
        YamlValue::Null => V::Null,
        YamlValue::Bool(b) => V::Bool(b),
        YamlValue::Number(n) => V::Number(n),
        YamlValue::String(s) => V::String(s),
        YamlValue::Sequence(xs) => V::Sequence(xs.into_iter().map(yaml_to_value).collect()),
        YamlValue::Mapping(m) => V::Mapping(m.into_iter().map(|e| (yaml_to_value(e.key), yaml_to_value(e.value))).collect()),
        YamlValue::Tagged(t, x) => V::Tagged(Box::new(serde_yaml::value::TaggedValue { tag: t, value: yaml_to_value(*x) })),
    }
}

/// `serde_yaml::from_str` into a `serde_yaml::Value`: the parsed document,
/// or the parser's error. Both depend on the text alone.
#[verifier::external_body]
pub(crate) fn parse_yaml(text: &str) -> (r: Result<YamlValue, serde_yaml::Error>)
    ensures
        match r {
            Ok(doc) => yaml_parsed(text@) == Some(yaml_view(doc)),
            Err(_) => yaml_parsed(text@) is None,
        },
{
    serde_yaml::from_str::<serde_yaml::Value>(text).map(yaml_from_value)
}

/// `serde_yaml::to_string` of a document: its YAML text, or the printer's
/// error. Both depend on the document alone.
#[verifier::external_body]
pub(crate) fn render_yaml(doc: YamlValue) -> (r: Result<String, serde_yaml::Error>)
    ensures
        match r {
            Ok(s) => yaml_rendered(yaml_view(doc)) == Some(s@),
            Err(_) => yaml_rendered(yaml_view(doc)) is None,
        },
{
    serde_yaml::to_string(&yaml_to_value(doc))
}


/// `v` with every tag layer removed (`serde_yaml::Value::untag_ref`).
pub open spec fn untag(v: YamlView) -> YamlView
    decreases v,
{
    match v {
        YamlView::Tagged(_, inner) => untag(*inner),
        _ => v,
    }
}

/// `Value::as_str`: the string under any tags.
pub open spec fn yaml_str(v: YamlView) -> Option<Seq<char>> {
    match untag(v) {
        YamlView::String(s) => Some(s),
        _ => None,
    }
}

/// `Value::as_mapping`: the entries of the mapping under any tags.
pub open spec fn yaml_entries(v: YamlView) -> Option<Seq<EntryView>> {
    match untag(v) {
        YamlView::Mapping(m) => Some(m),
        _ => None,
    }
}

/// `k` is the plain (untagged) string key `name`.
pub open spec fn is_key(k: YamlView, name: Seq<char>) -> bool {
    k == YamlView::String(name)
}

/// Index of the first entry from `i` on whose key is `name`, or -1.
pub open spec fn key_index_from(es: Seq<EntryView>, name: Seq<char>, i: int) -> int
    decreases es.len() - i,
{
    if i < 0 || i >= es.len() {
        -1
    } else if is_key(es[i].key, name) {
        i
    } else {
        key_index_from(es, name, i + 1)
    }
}

/// Index of the entry whose key is the string `name` (`Mapping::get`), or -1.
pub open spec fn key_index(es: Seq<EntryView>, name: Seq<char>) -> int {
    key_index_from(es, name, 0)
}

/// The image of a compose service entry: the string under the `image` key
/// of the mapping that the entry's value holds.
pub open spec fn service_image(e: EntryView) -> Option<Seq<char>> {
    match yaml_entries(e.value) {
        Some(m) => {
            let k = key_index(m, "image"@);
            if k >= 0 {
                yaml_str(m[k].value)
            } else {
                None
            }
        },
        None => None,
    }
}

/// The services mapping of a compose document: the mapping under the
/// `services` key of the top-level mapping.
pub open spec fn compose_services(doc: YamlView) -> Option<Seq<EntryView>> {
    match yaml_entries(doc) {
        Some(r) => {
            let k = key_index(r, "services"@);
            if k >= 0 {
                yaml_entries(r[k].value)
            } else {
                None
            }
        },
        None => None,
    }
}

/// Whether an update to image `to`, limited to the service named `service`
/// and to the current image `from` where these are given, changes the
/// service entry `e`: its name and image are strings, both filters match,
/// and its image is not already `to`.
pub open spec fn selects(
    e: EntryView,
    service: Option<Seq<char>>,
    from: Option<Seq<char>>,
    to: Seq<char>,
) -> bool {
    &&& yaml_str(e.key) is Some
    &&& (service is Some ==> yaml_str(e.key)->0 == service->0)
    &&& service_image(e) is Some
    &&& (from is Some ==> service_image(e)->0 == from->0)
    &&& service_image(e)->0 != to
}

/// The changes, as (service, old image, new image), that the update makes
/// to the services `es`, in document order.
pub open spec fn planned_changes(
    es: Seq<EntryView>,
    service: Option<Seq<char>>,
    from: Option<Seq<char>>,
    to: Seq<char>,
) -> Seq<(Seq<char>, Seq<char>, Seq<char>)>
    decreases es.len(),
{
    if es.len() == 0 {
        seq![]
    } else {
        let r = planned_changes(es.drop_last(), service, from, to);
        if selects(es.last(), service, from, to) {
            r.push((yaml_str(es.last().key)->0, service_image(es.last())->0, to))
        } else {
            r
        }
    }
}

/// The service value `v` with the value under its `image` key (under any
/// tags) replaced by the plain string `to`.
pub open spec fn with_image(v: YamlView, to: Seq<char>) -> YamlView
    decreases v,
{
    match v {
        YamlView::Tagged(t, inner) => YamlView::Tagged(t, Box::new(with_image(*inner, to))),
        YamlView::Mapping(m) => {
            let k = key_index(m, "image"@);
            if k >= 0 {
                YamlView::Mapping(m.update(k, EntryView { key: m[k].key, value: YamlView::String(to) }))
            } else {
                v
            }
        },
        _ => v,
    }
}

/// The services `es` after the update: each selected service gets image
/// `to`; every other entry stays as it is.
pub open spec fn updated_services(
    es: Seq<EntryView>,
    service: Option<Seq<char>>,
    from: Option<Seq<char>>,
    to: Seq<char>,
) -> Seq<EntryView> {
    Seq::new(
        es.len(),
        |i: int|
            if selects(es[i], service, from, to) {
                EntryView { key: es[i].key, value: with_image(es[i].value, to) }
            } else {
                es[i]
            },
    )
}

/// The services value (a mapping under any tags) after the update.
pub open spec fn updated_services_value(
    v: YamlView,
    service: Option<Seq<char>>,
    from: Option<Seq<char>>,
    to: Seq<char>,
) -> YamlView
    decreases v,
{
    match v {
        YamlView::Tagged(t, inner) => YamlView::Tagged(
            t,
            Box::new(updated_services_value(*inner, service, from, to)),
        ),
        YamlView::Mapping(es) => YamlView::Mapping(updated_services(es, service, from, to)),
        _ => v,
    }
}

/// The compose document `doc` after the update: the services mapping
/// updated as `updated_services` says, everything else as it was.
pub open spec fn updated_document(
    doc: YamlView,
    service: Option<Seq<char>>,
    from: Option<Seq<char>>,
    to: Seq<char>,
) -> YamlView
    decreases doc,
{
    match doc {
        YamlView::Tagged(t, inner) => YamlView::Tagged(
            t,
            Box::new(updated_document(*inner, service, from, to)),
        ),
        YamlView::Mapping(r) => {
            let k = key_index(r, "services"@);
            if k >= 0 {
                YamlView::Mapping(
                    r.update(
                        k,
                        EntryView {
                            key: r[k].key,
                            value: updated_services_value(r[k].value, service, from, to),
                        },
                    ),
                )
            } else {
                doc
            }
        },
        _ => doc,
    }
}

/// The view of an optional string.
pub open spec fn opt_view(o: Option<String>) -> Option<Seq<char>> {
    match o {
        Some(s) => Some(s@),
        None => None,
    }
}

proof fn lemma_key_index_from(es: Seq<EntryView>, name: Seq<char>, i: int)
    requires
        0 <= i,
    ensures
        key_index_from(es, name, i) == -1 || (i <= key_index_from(es, name, i) < es.len()
            && is_key(es[key_index_from(es, name, i)].key, name)),
    decreases es.len() - i,
{
    if i < es.len() && !is_key(es[i].key, name) {
        lemma_key_index_from(es, name, i + 1);
    }
}

/// When two entry lists have the same keys at every position, a key is
/// found at the same position in both.
pub proof fn lemma_same_keys_same_index(a: Seq<EntryView>, b: Seq<EntryView>, name: Seq<char>, i: int)
    requires
        a.len() == b.len(),
        forall|j: int| 0 <= j < a.len() ==> #[trigger] a[j].key == b[j].key,
        0 <= i,
    ensures
        key_index_from(a, name, i) == key_index_from(b, name, i),
    decreases a.len() - i,
{
    if i < a.len() {
        lemma_same_keys_same_index(a, b, name, i + 1);
    }
}

/// Replacing an entry by one with the same key moves no key.
proof fn lemma_update_keeps_index(r: Seq<EntryView>, k: int, e: EntryView, name: Seq<char>)
    requires
        0 <= k < r.len(),
        e.key == r[k].key,
    ensures
        key_index(r.update(k, e), name) == key_index(r, name),
{
    lemma_same_keys_same_index(r, r.update(k, e), name, 0);
}

/// After `with_image`, the service's image is `to`.
pub proof fn lemma_with_image(key: YamlView, v: YamlView, to: Seq<char>)
    requires
        yaml_entries(v) is Some,
        key_index(yaml_entries(v)->0, "image"@) >= 0,
    ensures
        service_image(EntryView { key, value: with_image(v, to) }) == Some(to),
    decreases v,
{
    match v {
        YamlView::Tagged(t, inner) => {
            lemma_with_image(key, *inner, to);
        },
        YamlView::Mapping(m) => {
            let k = key_index(m, "image"@);
            lemma_key_index_from(m, "image"@, 0);
            lemma_update_keeps_index(m, k, EntryView { key: m[k].key, value: YamlView::String(to) }, "image"@);
        },
        _ => {},
    }
}

/// The services value after the update holds the updated services.
proof fn lemma_updated_services_value(
    v: YamlView,
    service: Option<Seq<char>>,
    from: Option<Seq<char>>,
    to: Seq<char>,
)
    requires
        yaml_entries(v) is Some,
    ensures
        yaml_entries(updated_services_value(v, service, from, to)) == Some(
            updated_services(yaml_entries(v)->0, service, from, to),
        ),
    decreases v,
{
    match v {
        YamlView::Tagged(t, inner) => lemma_updated_services_value(*inner, service, from, to),
        _ => {},
    }
}

/// The services of a document after the update are the updated services.
pub proof fn lemma_updated_document_services(
    doc: YamlView,
    service: Option<Seq<char>>,
    from: Option<Seq<char>>,
    to: Seq<char>,
)
    requires
        compose_services(doc) is Some,
    ensures
        compose_services(updated_document(doc, service, from, to)) == Some(
            updated_services(compose_services(doc)->0, service, from, to),
        ),
    decreases doc,
{
    match doc {
        YamlView::Tagged(t, inner) => lemma_updated_document_services(*inner, service, from, to),
        YamlView::Mapping(r) => {
            let k = key_index(r, "services"@);
            lemma_key_index_from(r, "services"@, 0);
            let e = EntryView {
                key: r[k].key,
                value: updated_services_value(r[k].value, service, from, to),
            };
            lemma_update_keeps_index(r, k, e, "services"@);
            lemma_updated_services_value(r[k].value, service, from, to);
        },
        _ => {},
    }
}

/// The value under any tags.
fn untag_ref(v: &YamlValue) -> (r: &YamlValue)
    ensures
        yaml_view(*r) == untag(yaml_view(*v)),
    decreases v,
{
    match v {
        YamlValue::Tagged(_, inner) => untag_ref(&**inner),
        _ => v,
    }
}

/// `Value::as_str`.
fn yaml_str_exec(v: &YamlValue) -> (r: Option<&String>)
    ensures
        match r {
            Some(s) => yaml_str(yaml_view(*v)) == Some(s@),
            None => yaml_str(yaml_view(*v)) is None,
        },
{
    match untag_ref(v) {
        YamlValue::String(s) => Some(s),
        _ => None,
    }
}

/// Index of the entry whose key is the plain string `name`.
fn key_index_exec(es: &Vec<YamlEntry>, name: &str) -> (r: Option<usize>)
    ensures
        match r {
            Some(k) => k < es@.len() && key_index(entries_view(es@), name@) == k as int,
            None => key_index(entries_view(es@), name@) == -1,
        },
{
    let ghost ev = entries_view(es@);
    proof {
        lemma_entries_view(es@);
    }
    let mut i: usize = 0;
    while i < es.len()
        invariant
            i <= es@.len(),
            ev == entries_view(es@),
            ev.len() == es@.len(),
            forall|j: int| 0 <= j < es@.len() ==> #[trigger] ev[j] == entry_view(es@[j]),
            key_index(ev, name@) == key_index_from(ev, name@, i as int),
        decreases es@.len() - i,
    {
        assert(ev[i as int] == entry_view(es@[i as int]));
        if let YamlValue::String(s) = &es[i].key {
            if str_eq(s.as_str(), name) {
                return Some(i);
            }
        }
        i += 1;
    }
    None
}

/// The image of a service entry.
fn service_image_exec(e: &YamlEntry) -> (r: Option<&String>)
    ensures
        match r {
            Some(s) => service_image(entry_view(*e)) == Some(s@),
            None => service_image(entry_view(*e)) is None,
        },
{
    match untag_ref(&e.value) {
        YamlValue::Mapping(m) => match key_index_exec(m, "image") {
            Some(k) => {
                proof {
                    lemma_entries_view(m@);
                }
                yaml_str_exec(&m[k].value)
            },
            None => None,
        },
        _ => None,
    }
}

/// Sets the value under the `image` key of a service mapping to `to`.
fn set_image(v: YamlValue, to: &String) -> (r: YamlValue)
    requires
        yaml_entries(yaml_view(v)) is Some,
        key_index(yaml_entries(yaml_view(v))->0, "image"@) >= 0,
    ensures
        yaml_view(r) == with_image(yaml_view(v), to@),
    decreases v,
{
    match v {
        YamlValue::Tagged(t, inner) => {
            let x = set_image(*inner, to);
            YamlValue::Tagged(t, Box::new(x))
        },
        YamlValue::Mapping(m) => {
            let mut m = m;
            let ghost m1 = m@;
            let ghost ev1 = entries_view(m1);
            proof {
                lemma_entries_view(m1);
            }
            let k = match key_index_exec(&m, "image") {
                Some(k) => k,
                None => {
                    proof {
                        assert(false);
                    }
                    0
                },
            };
            let e = m.remove(k);
            m.insert(k, YamlEntry { key: e.key, value: YamlValue::String(to.clone()) });
            proof {
                assert(m@ =~= m1.update(k as int, m@[k as int]));
                lemma_entries_view(m@);
                assert(entries_view(m@) =~= ev1.update(
                    k as int,
                    EntryView { key: ev1[k as int].key, value: YamlView::String(to@) },
                ));
            }
            YamlValue::Mapping(m)
        },
        _ => {
            proof {
                assert(false);
            }
            v
        },
    }
}

/// Sets the image of every selected service in a services mapping, and
/// lists the changes in document order.
fn update_services(
    v: YamlValue,
    service: &Option<String>,
    from: &Option<String>,
    to: &String,
) -> (r: Result<(YamlValue, Vec<ImageChange>), CliError>)
    ensures
        match r {
            Ok((nv, ch)) => {
                &&& yaml_entries(yaml_view(v)) is Some
                &&& yaml_view(nv) == updated_services_value(
                    yaml_view(v),
                    opt_view(*service),
                    opt_view(*from),
                    to@,
                )
                &&& change_views(ch@) == planned_changes(
                    yaml_entries(yaml_view(v))->0,
                    opt_view(*service),
                    opt_view(*from),
                    to@,
                )
            },
            Err(e) => yaml_entries(yaml_view(v)) is None && e is MissingServices,
        },
    decreases v,
{
    match v {
        YamlValue::Tagged(t, inner) => match update_services(*inner, service, from, to) {
            Ok((x, ch)) => Ok((YamlValue::Tagged(t, Box::new(x)), ch)),
            Err(e) => Err(e),
        },
        YamlValue::Mapping(m) => {
            let mut m = m;
            let ghost s1 = m@;
            let ghost ev1 = entries_view(s1);
            let ghost sv = opt_view(*service);
            let ghost fv = opt_view(*from);
            let ghost target = updated_services(ev1, sv, fv, to@);
            let mut changes: Vec<ImageChange> = Vec::new();
            let mut i: usize = 0;
            proof {
                lemma_entries_view(s1);
                assert(ev1.take(0) =~= Seq::<EntryView>::empty());
                assert(change_views(changes@) =~= Seq::empty());
            }
            while i < m.len()
                invariant
                    m@.len() == s1.len(),
                    ev1.len() == s1.len(),
                    i <= s1.len(),
                    sv == opt_view(*service),
                    fv == opt_view(*from),
                    target == updated_services(ev1, sv, fv, to@),
                    forall|j: int| 0 <= j < s1.len() ==> #[trigger] ev1[j] == entry_view(s1[j]),
                    forall|j: int| 0 <= j < i ==> #[trigger] entry_view(m@[j]) == target[j],
                    forall|j: int| i <= j < s1.len() ==> #[trigger] m@[j] == s1[j],
                    change_views(changes@) == planned_changes(ev1.take(i as int), sv, fv, to@),
                decreases s1.len() - i,
            {
                proof {
                    assert(m@[i as int] == s1[i as int]);
                    assert(ev1[i as int] == entry_view(s1[i as int]));
                }
                let picked: Option<(String, String)> = match yaml_str_exec(&m[i].key) {
                    Some(name) => {
                        let name_ok = match service {
                            Some(want) => str_eq(name.as_str(), want.as_str()),
                            None => true,
                        };
                        if name_ok {
                            match service_image_exec(&m[i]) {
                                Some(img) => {
                                    let from_ok = match from {
                                        Some(f) => str_eq(img.as_str(), f.as_str()),
                                        None => true,
                                    };
                                    if from_ok && !str_eq(img.as_str(), to.as_str()) {
                                        Some((name.clone(), img.clone()))
                                    } else {
                                        None
                                    }
                                },
                                None => None,
                            }
                        } else {
                            None
                        }
                    },
                    None => None,
                };
                proof {
                    assert(picked is Some <==> selects(ev1[i as int], sv, fv, to@));
                }
                let ghost before = changes@;
                let ghost m_before = m@;
                if let Some((name_c, img_c)) = picked {
                    let YamlEntry { key, value } = m.remove(i);
                    let nv = set_image(value, to);
                    m.insert(i, YamlEntry { key, value: nv });
                    changes.push(ImageChange { service: name_c, from: img_c, to: to.clone() });
                    proof {
                        assert(m@ =~= m_before.update(i as int, m@[i as int]));
                        assert(entry_view(m@[i as int]) == target[i as int]);
                        assert(change_views(changes@) =~= change_views(before).push(
                            (yaml_str(ev1[i as int].key)->0, service_image(ev1[i as int])->0, to@),
                        ));
                    }
                }
                proof {
                    let t = ev1.take(i + 1);
                    assert(t.drop_last() =~= ev1.take(i as int));
                    assert(t.last() == ev1[i as int]);
                    assert(entry_view(m@[i as int]) == target[i as int]);
                }
                i += 1;
            }
            proof {
                assert(ev1.take(s1.len() as int) =~= ev1);
                lemma_entries_view(m@);
                assert(entries_view(m@) =~= target);
            }
            Ok((YamlValue::Mapping(m), changes))
        },
        _ => Err(CliError::MissingServices),
    }
}

/// `e` reports that `doc` has no top-level mapping, or no services mapping.
pub open spec fn structure_refused(doc: YamlView, e: CliError) -> bool {
    ||| yaml_entries(doc) is None && e is NotYamlObject
    ||| yaml_entries(doc) is Some && compose_services(doc) is None && e is MissingServices
}

/// Sets the images that one update selects in a compose document (see
/// `selects`): the updated document and the changes in document order,
/// possibly none. Fails only when the document has no top-level mapping or
/// no services mapping.
pub fn apply_image_update(
    doc: YamlValue,
    service: &Option<String>,
    from: &Option<String>,
    to: &String,
) -> (r: Result<(YamlValue, Vec<ImageChange>), CliError>)
    ensures
        match r {
            Ok((nd, ch)) => {
                &&& compose_services(yaml_view(doc)) is Some
                &&& yaml_view(nd) == updated_document(
                    yaml_view(doc),
                    opt_view(*service),
                    opt_view(*from),
                    to@,
                )
                &&& change_views(ch@) == planned_changes(
                    compose_services(yaml_view(doc))->0,
                    opt_view(*service),
                    opt_view(*from),
                    to@,
                )
            },
            Err(e) => structure_refused(yaml_view(doc), e),
        },
    decreases doc,
{
    match doc {
        YamlValue::Tagged(t, inner) => match apply_image_update(*inner, service, from, to) {
            Ok((x, ch)) => Ok((YamlValue::Tagged(t, Box::new(x)), ch)),
            Err(e) => Err(e),
        },
        YamlValue::Mapping(m) => {
            let mut m = m;
            let ghost r1 = m@;
            let ghost er1 = entries_view(r1);
            proof {
                lemma_entries_view(r1);
                lemma_key_index_from(er1, "services"@, 0);
            }
            match key_index_exec(&m, "services") {
                None => Err(CliError::MissingServices),
                Some(k) => {
                    proof {
                        assert(er1[k as int] == entry_view(r1[k as int]));
                    }
                    let YamlEntry { key, value } = m.remove(k);
                    match update_services(value, service, from, to) {
                        Ok((sv, ch)) => {
                            m.insert(k, YamlEntry { key, value: sv });
                            proof {
                                assert(m@ =~= r1.update(k as int, m@[k as int]));
                                lemma_entries_view(m@);
                                assert(entries_view(m@) =~= er1.update(
                                    k as int,
                                    EntryView {
                                        key: er1[k as int].key,
                                        value: updated_services_value(
                                            er1[k as int].value,
                                            opt_view(*service),
                                            opt_view(*from),
                                            to@,
                                        ),
                                    },
                                ));
                            }
                            Ok((YamlValue::Mapping(m), ch))
                        },
                        Err(e) => Err(e),
                    }
                },
            }
        },
        _ => Err(CliError::NotYamlObject),
    }
}

/// Updates the service images of a compose document: each service whose
/// name is `service` (when given) and whose image is `from` (when given) and
/// not already `to` gets image `to`. Returns the updated document and the
/// changes in document order; fails when no service is selected.
pub fn update_compose_document(
    doc: YamlValue,
    service: &Option<String>,
    from: &Option<String>,
    to: &String,
) -> (r: Result<(YamlValue, Vec<ImageChange>), CliError>)
    ensures
        match r {
            Ok((nd, ch)) => {
                &&& compose_services(yaml_view(doc)) is Some
                &&& yaml_view(nd) == updated_document(
                    yaml_view(doc),
                    opt_view(*service),
                    opt_view(*from),
                    to@,
                )
                &&& change_views(ch@) == planned_changes(
                    compose_services(yaml_view(doc))->0,
                    opt_view(*service),
                    opt_view(*from),
                    to@,
                )
                &&& ch@.len() > 0
            },
            Err(e) => compose_refused(yaml_view(doc), e, opt_view(*service), opt_view(*from), to@),
        },
{
    match apply_image_update(doc, service, from, to) {
        Ok((nd, ch)) => if ch.len() == 0 {
            Err(CliError::NoImageMatched)
        } else {
            Ok((nd, ch))
        },
        Err(e) => Err(e),
    }
}

/// Why a compose update of `doc` fails with `e`: the top level is not a
/// mapping, there is no services mapping, or no service is selected.
pub open spec fn compose_refused(
    doc: YamlView,
    e: CliError,
    service: Option<Seq<char>>,
    from: Option<Seq<char>>,
    to: Seq<char>,
) -> bool {
    ||| structure_refused(doc, e)
    ||| compose_services(doc) is Some && planned_changes(compose_services(doc)->0, service, from, to).len()
        == 0 && e is NoImageMatched
}

/// The document after the updates `ups`, applied one after another, each
/// to the service it names.
pub open spec fn chain_document(doc: YamlView, ups: Seq<ImageUpdate>) -> YamlView
    decreases ups.len(),
{
    if ups.len() == 0 {
        doc
    } else {
        updated_document(
            chain_document(doc, ups.drop_last()),
            Some(ups.last().service@),
            None,
            ups.last().image@,
        )
    }
}

/// The changes that the updates `ups` make, in order.
pub open spec fn chain_changes(doc: YamlView, ups: Seq<ImageUpdate>) -> Seq<
    (Seq<char>, Seq<char>, Seq<char>),
>
    decreases ups.len(),
{
    if ups.len() == 0 {
        seq![]
    } else {
        chain_changes(doc, ups.drop_last()) + planned_changes(
            compose_services(chain_document(doc, ups.drop_last()))->0,
            Some(ups.last().service@),
            None,
            ups.last().image@,
        )
    }
}

/// Applies the updates one after another, each to the service it names.
/// Returns the final document and all changes in order (possibly none).
/// Fails only when there is an update and the document has no top-level
/// mapping or no services mapping.
pub fn apply_image_updates(doc: YamlValue, updates: &Vec<ImageUpdate>) -> (r: Result<
    (YamlValue, Vec<ImageChange>),
    CliError,
>)
    ensures
        match r {
            Ok((nd, ch)) => {
                &&& updates@.len() > 0 ==> compose_services(yaml_view(doc)) is Some
                &&& yaml_view(nd) == chain_document(yaml_view(doc), updates@)
                &&& change_views(ch@) == chain_changes(yaml_view(doc), updates@)
            },
            Err(e) => updates@.len() > 0 && structure_refused(yaml_view(doc), e),
        },
{
    let ghost d0 = yaml_view(doc);
    let mut cur = doc;
    let mut all: Vec<ImageChange> = Vec::new();
    let mut i: usize = 0;
    proof {
        assert(updates@.take(0) =~= Seq::<ImageUpdate>::empty());
        assert(change_views(all@) =~= Seq::empty());
    }
    while i < updates.len()
        invariant
            i <= updates@.len(),
            d0 == yaml_view(doc),
            yaml_view(cur) == chain_document(d0, updates@.take(i as int)),
            change_views(all@) == chain_changes(d0, updates@.take(i as int)),
            i > 0 ==> compose_services(d0) is Some && compose_services(yaml_view(cur)) is Some,
        decreases updates@.len() - i,
    {
        let u = &updates[i];
        let service = Some(u.service.clone());
        let from: Option<String> = None;
        let ghost prev = yaml_view(cur);
        proof {
            let t = updates@.take(i + 1);
            assert(t.drop_last() =~= updates@.take(i as int));
            assert(t.last() == updates@[i as int]);
        }
        match apply_image_update(cur, &service, &from, &u.image) {
            Ok((nd, ch)) => {
                let ghost before = all@;
                proof {
                    assert(opt_view(service) == Some(u.service@));
                    lemma_updated_document_services(prev, Some(u.service@), None, u.image@);
                }
                cur = nd;
                let mut ch = ch;
                all.append(&mut ch);
                proof {
                    assert(change_views(all@) =~= change_views(before) + planned_changes(
                        compose_services(prev)->0,
                        Some(u.service@),
                        None,
                        u.image@,
                    ));
                }
            },
            Err(e) => {
                proof {
                    if i > 0 {
                        assert(compose_services(prev) is Some);
                        assert(false);
                    } else {
                        assert(updates@.take(0) =~= Seq::<ImageUpdate>::empty());
                        assert(prev == d0);
                    }
                }
                return Err(e);
            },
        }
        i += 1;
    }
    proof {
        assert(updates@.take(updates@.len() as int) =~= updates@);
    }
    Ok((cur, all))
}

} // verus!
