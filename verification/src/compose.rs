//! Compose names, compose-update planning and the small decisions around the
//! image pipeline (export, upload, load).

use vstd::prelude::*;
use crate::error::CliError;
use crate::yaml::{
    apply_image_updates, chain_changes, chain_document, compose_refused, compose_services, opt_view,
    parse_yaml, planned_changes, render_yaml, structure_refused, update_compose_document,
    updated_document, yaml_parsed, yaml_rendered,
};
use crate::text::{chars_of, push_char, string_of, trim, trim_range};
use crate::api::index_of_from;

verus! {

/// One image reference that a compose update changes.
#[derive(Debug, Clone)]
pub struct ImageChange {
    pub service: String,
    pub from: String,
    pub to: String,
}

/// One service's new image, as a repeated `SERVICE=IMAGE` update gives it.
#[derive(Debug, Clone)]
pub struct ImageUpdate {
    pub service: String,
    pub image: String,
}

/// What a compose update does and where.
#[derive(Debug, Clone)]
pub struct ComposeUpdateOpts {
    pub compose_name: String,
    pub compose_path: String,
    pub service: Option<String>,
    pub from_image: Option<String>,
    pub to_image: String,
    pub dry_run: bool,
    pub apply: bool,
}

/// An image change as (service, old image, new image).
pub open spec fn change_view(c: ImageChange) -> (Seq<char>, Seq<char>, Seq<char>) {
    (c.service@, c.from@, c.to@)
}

/// The views of a list of image changes.
pub open spec fn change_views(s: Seq<ImageChange>) -> Seq<(Seq<char>, Seq<char>, Seq<char>)> {
    s.map_values(|c: ImageChange| change_view(c))
}

/// The parts of `s` between `/` separators, in order (`str::split('/')`).
pub open spec fn segments(s: Seq<char>) -> Seq<Seq<char>>
    decreases s.len(),
{
    if s.len() == 0 {
        seq![seq![]]
    } else {
        let prev = segments(s.drop_last());
        if s.last() == '/' {
            prev.push(seq![])
        } else {
            prev.update(prev.len() - 1, prev.last().push(s.last()))
        }
    }
}

/// A path segment that names a component: neither empty nor `.`.
pub open spec fn is_component(p: Seq<char>) -> bool {
    p.len() > 0 && p != seq!['.']
}

/// The segments of `ps` that name components, in order.
pub open spec fn components_of(ps: Seq<Seq<char>>) -> Seq<Seq<char>>
    decreases ps.len(),
{
    if ps.len() == 0 {
        seq![]
    } else {
        let r = components_of(ps.drop_last());
        if is_component(ps.last()) {
            r.push(ps.last())
        } else {
            r
        }
    }
}

/// The non-root components of a Unix path, as `std::path::Path::components`
/// yields them on Unix (repeated separators and `.` segments dropped, `..`
/// kept). A compose path names a file on the 1Panel server, a Unix system,
/// so only `/` separates components, whatever system the client runs on.
pub open spec fn path_components(path: Seq<char>) -> Seq<Seq<char>> {
    components_of(segments(path))
}

/// `..`
pub open spec fn dot_dot() -> Seq<char> {
    seq!['.', '.']
}

/// `path.parent().and_then(Path::file_name)`: the component before the last,
/// unless it is `..` or there is none.
pub open spec fn parent_dir_name(path: Seq<char>) -> Option<Seq<char>> {
    let c = path_components(path);
    if c.len() >= 2 && c[c.len() - 2] != dot_dot() {
        Some(c[c.len() - 2])
    } else {
        None
    }
}

/// `path.file_name()`: the last component, unless it is `..` or there is none.
pub open spec fn file_name(path: Seq<char>) -> Option<Seq<char>> {
    let c = path_components(path);
    if c.len() >= 1 && c.last() != dot_dot() {
        Some(c.last())
    } else {
        None
    }
}

/// Position of the last `.` in `n`, or -1.
pub open spec fn last_dot(n: Seq<char>) -> int
    decreases n.len(),
{
    if n.len() == 0 {
        -1
    } else if n.last() == '.' {
        n.len() - 1
    } else {
        last_dot(n.drop_last())
    }
}

/// `Path::file_stem` of a file name: the part before the last `.`, or the
/// whole name when it has no `.` or its only `.` leads.
pub open spec fn file_stem(name: Seq<char>) -> Seq<char> {
    let k = last_dot(name);
    if k <= 0 {
        name
    } else {
        name.take(k)
    }
}

/// The compose name that a compose path implies: the trimmed name of the
/// directory that holds the file, else the trimmed stem of the file name.
pub open spec fn inferred_compose_name(path: Seq<char>) -> Option<Seq<char>> {
    if parent_dir_name(path) is Some && trim(parent_dir_name(path)->0).len() > 0 {
        Some(trim(parent_dir_name(path)->0))
    } else if file_name(path) is Some && trim(file_stem(file_name(path)->0)).len() > 0 {
        Some(trim(file_stem(file_name(path)->0)))
    } else {
        None
    }
}

/// The compose name in use: the trimmed explicit name when it is not blank,
/// else the one the path implies.
pub open spec fn resolved_compose_name(name: Option<Seq<char>>, path: Seq<char>) -> Option<
    Seq<char>,
> {
    if name is Some && trim(name->0).len() > 0 {
        Some(trim(name->0))
    } else {
        inferred_compose_name(path)
    }
}

/// The views of a sequence of character vectors.
pub open spec fn views(v: Seq<Vec<char>>) -> Seq<Seq<char>> {
    v.map_values(|x: Vec<char>| x@)
}

/// A path has at least one segment.
pub proof fn lemma_segments_nonempty(s: Seq<char>)
    ensures
        segments(s).len() >= 1,
    decreases s.len(),
{
    if s.len() > 0 {
        lemma_segments_nonempty(s.drop_last());
    }
}

/// The components of a path, computed in one pass.
fn components_exec(v: &Vec<char>) -> (r: Vec<Vec<char>>)
    ensures
        views(r@) == path_components(v@),
{
    let mut parts: Vec<Vec<char>> = Vec::new();
    let mut cur: Vec<char> = Vec::new();
    let mut i: usize = 0;
    proof {
        assert(v@.take(0) =~= Seq::<char>::empty());
        assert(views(parts@) =~= Seq::<Seq<char>>::empty());
    }
    while i < v.len()
        invariant
            i <= v@.len(),
            segments(v@.take(i as int)).len() >= 1,
            views(parts@) == components_of(segments(v@.take(i as int)).drop_last()),
            cur@ == segments(v@.take(i as int)).last(),
        decreases v@.len() - i,
    {
        let c = v[i];
        let ghost segs = segments(v@.take(i as int));
        proof {
            assert(v@.take(i + 1).drop_last() =~= v@.take(i as int));
            assert(v@.take(i + 1).last() == c);
        }
        if c == '/' {
            let ghost before = views(parts@);
            if cur.len() > 0 && !(cur.len() == 1 && cur[0] == '.') {
                proof {
                    assert(cur@ != seq!['.'] ==> is_component(cur@));
                    if cur@ == seq!['.'] {
                        assert(cur@[0] == '.');
                    }
                }
                parts.push(cur);
                proof {
                    assert(views(parts@) =~= before.push(segs.last()));
                }
            } else {
                proof {
                    if cur@.len() == 1 && cur@[0] == '.' {
                        assert(cur@ =~= seq!['.']);
                    }
                }
            }
            cur = Vec::new();
            proof {
                assert(segments(v@.take(i + 1)) == segs.push(seq![]));
                assert(segs.push(seq![]).drop_last() =~= segs);
                assert(segs =~= segs.drop_last().push(segs.last()));
            }
        } else {
            cur.push(c);
            proof {
                let n = segs.update(segs.len() - 1, segs.last().push(c));
                assert(segments(v@.take(i + 1)) == n);
                assert(n.drop_last() =~= segs.drop_last());
            }
        }
        i += 1;
    }
    proof {
        assert(v@.take(v@.len() as int) =~= v@);
        let segs = segments(v@);
        assert(segs =~= segs.drop_last().push(segs.last()));
    }
    if cur.len() > 0 && !(cur.len() == 1 && cur[0] == '.') {
        let ghost before = views(parts@);
        parts.push(cur);
        proof {
            assert(views(parts@) =~= before.push(segments(v@).last()));
        }
    } else {
        proof {
            if cur@.len() == 1 && cur@[0] == '.' {
                assert(cur@ =~= seq!['.']);
            }
        }
    }
    parts
}


/// Whether `p` is `..`.
fn is_dot_dot(p: &Vec<char>) -> (r: bool)
    ensures
        r == (p@ == dot_dot()),
{
    let r = p.len() == 2 && p[0] == '.' && p[1] == '.';
    proof {
        if p@.len() == 2 && p@[0] == '.' && p@[1] == '.' {
            assert(p@ =~= dot_dot());
        }
    }
    r
}

/// Position of the last `.` in `v`, if any.
fn last_dot_exec(v: &Vec<char>) -> (r: Option<usize>)
    ensures
        match r {
            Some(k) => k < v@.len() && last_dot(v@) == k as int,
            None => last_dot(v@) == -1,
        },
{
    let mut j = v.len();
    proof {
        assert(v@.take(j as int) =~= v@);
    }
    while j > 0 && v[j - 1] != '.'
        invariant
            j <= v@.len(),
            last_dot(v@) == last_dot(v@.take(j as int)),
        decreases j,
    {
        proof {
            assert(v@.take(j as int).drop_last() =~= v@.take(j - 1));
        }
        j -= 1;
    }
    if j == 0 {
        None
    } else {
        Some(j - 1)
    }
}

/// Trimmed `v[..end]` when it is not blank.
fn trimmed_nonblank(v: &Vec<char>, end: usize) -> (r: Option<String>)
    requires
        end <= v@.len(),
    ensures
        match r {
            Some(s) => trim(v@.take(end as int)).len() > 0 && s@ == trim(v@.take(end as int)),
            None => trim(v@.take(end as int)).len() == 0,
        },
{
    let (a, b) = trim_range(v, 0, end);
    proof {
        assert(v@.subrange(0, end as int) =~= v@.take(end as int));
    }
    if a < b {
        Some(string_of(v, a, b))
    } else {
        None
    }
}

/// The compose name implied by a compose path: the name of the directory
/// that holds the file, else the file's stem, each trimmed.
pub fn infer_compose_name_from_path(compose_path: &str) -> (r: Result<String, CliError>)
    ensures
        match r {
            Ok(s) => inferred_compose_name(compose_path@) == Some(s@),
            Err(e) => inferred_compose_name(compose_path@) is None && (e matches CliError::ComposeNameNotInferred { compose_path: p } && p@ == compose_path@),
        },
{
    let v = chars_of(compose_path);
    let parts = components_exec(&v);
    let n = parts.len();
    proof {
        assert(views(parts@).len() == n);
    }
    if n >= 2 && !is_dot_dot(&parts[n - 2]) {
        let p = &parts[n - 2];
        proof {
            assert(views(parts@)[n - 2] == p@);
            assert(p@.take(p@.len() as int) =~= p@);
        }
        if let Some(name) = trimmed_nonblank(p, p.len()) {
            return Ok(name);
        }
    }
    if n >= 1 && !is_dot_dot(&parts[n - 1]) {
        let f = &parts[n - 1];
        proof {
            assert(views(parts@)[n - 1] == f@);
            assert(views(parts@).last() == f@);
        }
        let end = match last_dot_exec(f) {
            Some(k) => if k > 0 {
                k
            } else {
                f.len()
            },
            None => f.len(),
        };
        proof {
            if end == f@.len() {
                assert(f@.take(end as int) =~= f@);
            }
            assert(f@.take(end as int) == file_stem(f@));
        }
        if let Some(name) = trimmed_nonblank(f, end) {
            return Ok(name);
        }
    }
    Err(CliError::ComposeNameNotInferred { compose_path: compose_path.to_owned() })
}

/// The compose name to use: the explicit name, trimmed, when it is not
/// blank; otherwise the one implied by the compose path.
pub fn resolve_compose_name(compose_name: Option<String>, compose_path: &str) -> (r: Result<
    String,
    CliError,
>)
    ensures
        match r {
            Ok(s) => resolved_compose_name(
                match compose_name {
                    Some(n) => Some(n@),
                    None => None,
                },
                compose_path@,
            ) == Some(s@),
            Err(e) => resolved_compose_name(
                match compose_name {
                    Some(n) => Some(n@),
                    None => None,
                },
                compose_path@,
            ) is None && (e matches CliError::ComposeNameNotInferred { compose_path: p } && p@ == compose_path@),
        },
{
    if let Some(name) = &compose_name {
        let v = chars_of(name.as_str());
        proof {
            assert(v@.take(v@.len() as int) =~= v@);
        }
        if let Some(t) = trimmed_nonblank(&v, v.len()) {
            return Ok(t);
        }
    }
    infer_compose_name_from_path(compose_path)
}


/// `text` and `changes` are what the compose update `opts` makes of the
/// compose file `content`: the changes in document order (at least one) and
/// the printed updated document.
pub open spec fn compose_text_updated(
    content: Seq<char>,
    opts: ComposeUpdateOpts,
    text: Seq<char>,
    changes: Seq<ImageChange>,
) -> bool {
    yaml_parsed(content) matches Some(doc) && {
        &&& compose_services(doc) is Some
        &&& change_views(changes) == planned_changes(
            compose_services(doc)->0,
            opt_view(opts.service),
            opt_view(opts.from_image),
            opts.to_image@,
        )
        &&& changes.len() > 0
        &&& yaml_rendered(
            updated_document(doc, opt_view(opts.service), opt_view(opts.from_image), opts.to_image@),
        ) == Some(text)
    }
}

/// The compose update `opts` of `content` fails with `e`: the text is not
/// YAML, the document is refused (see `compose_refused`), or the updated
/// document cannot be printed.
pub open spec fn compose_text_refused(content: Seq<char>, opts: ComposeUpdateOpts, e: CliError) -> bool {
    match yaml_parsed(content) {
        None => e is YamlParse,
        Some(doc) => {
            ||| compose_refused(
                doc,
                e,
                opt_view(opts.service),
                opt_view(opts.from_image),
                opts.to_image@,
            )
            ||| e is YamlRender && compose_services(doc) is Some && planned_changes(
                compose_services(doc)->0,
                opt_view(opts.service),
                opt_view(opts.from_image),
                opts.to_image@,
            ).len() > 0 && yaml_rendered(
                updated_document(
                    doc,
                    opt_view(opts.service),
                    opt_view(opts.from_image),
                    opts.to_image@,
                ),
            ) is None
        },
    }
}

/// Rewrites the image references of a compose file. Each service whose name
/// is `opts.service` (when given) and whose image is `opts.from_image` (when
/// given) and not already `opts.to_image` gets `opts.to_image`; the result is
/// the new YAML text and the changes in document order. Fails when the text
/// is not YAML, has no top-level mapping or no `services` mapping, when no
/// service matches, or when the new document cannot be printed.
pub fn update_compose_images(content: &str, opts: &ComposeUpdateOpts) -> (r: Result<
    (String, Vec<ImageChange>),
    CliError,
>)
    ensures
        match r {
            Ok((text, changes)) => compose_text_updated(content@, *opts, text@, changes@),
            Err(e) => compose_text_refused(content@, *opts, e),
        },
{
    let doc = match parse_yaml(content) {
        Ok(d) => d,
        Err(e) => return Err(CliError::YamlParse(e)),
    };
    let (nd, changes) = match update_compose_document(
        doc,
        &opts.service,
        &opts.from_image,
        &opts.to_image,
    ) {
        Ok(x) => x,
        Err(e) => return Err(e),
    };
    match render_yaml(nd) {
        Ok(text) => Ok((text, changes)),
        Err(e) => Err(CliError::YamlRender(e)),
    }
}


/// What a finished compose update reports.
#[derive(Debug, Clone)]
pub struct ComposeUpdateResult {
    pub changed: usize,
    pub changes: Vec<ImageChange>,
    pub dry_run: bool,
}

/// The path of an exported image archive.
#[derive(Debug, Clone)]
pub struct ExportResult {
    pub tar_path: String,
}

/// Where an uploaded file landed on the server.
#[derive(Debug, Clone)]
pub struct UploadResult {
    pub remote_path: String,
}

/// What remains to be done after the compose file has been read: the text to
/// save, whether to save it, whether to bring the compose project up, and the
/// report.
#[derive(Debug, Clone)]
pub struct ComposeUpdatePlan {
    pub updated: String,
    pub save: bool,
    pub bring_up: bool,
    pub result: ComposeUpdateResult,
}

/// Decides a compose update once the current compose text is known: the
/// updated text is saved unless this is a dry run, and the project is brought
/// up only when it is saved and `apply` is set.
pub fn plan_compose_update(current: &str, opts: &ComposeUpdateOpts) -> (r: Result<
    ComposeUpdatePlan,
    CliError,
>)
    ensures
        match r {
            Ok(p) => {
                &&& compose_text_updated(current@, *opts, p.updated@, p.result.changes@)
                &&& p.save == !opts.dry_run
                &&& p.bring_up == (!opts.dry_run && opts.apply)
                &&& p.result.changed == p.result.changes@.len()
                &&& p.result.dry_run == opts.dry_run
            },
            Err(e) => compose_text_refused(current@, *opts, e),
        },
{
    let (updated, changes) = match update_compose_images(current, opts) {
        Ok(x) => x,
        Err(e) => return Err(e),
    };
    let save = !opts.dry_run;
    let bring_up = save && opts.apply;
    Ok(ComposeUpdatePlan {
        updated,
        save,
        bring_up,
        result: ComposeUpdateResult { changed: changes.len(), changes, dry_run: opts.dry_run },
    })
}

/// The target image of a combined deploy: the given one, or the deployed
/// image tag when the given one is blank.
pub fn default_to_image(opts: &mut ComposeUpdateOpts, image_tag: &str)
    ensures
        final(opts).to_image@ == if trim(old(opts).to_image@).len() == 0 {
            image_tag@
        } else {
            old(opts).to_image@
        },
        final(opts).compose_name == old(opts).compose_name,
        final(opts).compose_path == old(opts).compose_path,
        final(opts).service == old(opts).service,
        final(opts).from_image == old(opts).from_image,
        final(opts).dry_run == old(opts).dry_run,
        final(opts).apply == old(opts).apply,
{
    let v = chars_of(opts.to_image.as_str());
    let (a, b) = trim_range(&v, 0, v.len());
    proof {
        assert(v@.subrange(0, v@.len() as int) =~= v@);
    }
    if a == b {
        opts.to_image = image_tag.to_owned();
    }
}

/// The characters that an image tag may not carry into a file name.
pub open spec fn is_tag_separator(c: char) -> bool {
    c == '/' || c == ':' || c == '@'
}

/// The file name of the archive that an image is exported to: the tag with
/// `/`, `:` and `@` replaced by `_`, then `_image.tar`.
pub open spec fn tar_file_name(image_tag: Seq<char>) -> Seq<char> {
    image_tag.map_values(|c: char| if is_tag_separator(c) { '_' } else { c }) + "_image.tar"@
}

/// The file name of the archive that `image_tag` is exported to.
pub fn temp_tar_file_name(image_tag: &str) -> (r: String)
    ensures
        r@ == tar_file_name(image_tag@),
{
    let v = chars_of(image_tag);
    let mut r = String::new();
    let mut i: usize = 0;
    while i < v.len()
        invariant
            i <= v@.len(),
            v@ == image_tag@,
            r@ == v@.take(i as int).map_values(|c: char| if is_tag_separator(c) { '_' } else { c }),
        decreases v@.len() - i,
    {
        let c = v[i];
        let d = if c == '/' || c == ':' || c == '@' {
            '_'
        } else {
            c
        };
        push_char(&mut r, d);
        proof {
            assert(v@.take(i + 1).map_values(|c: char| if is_tag_separator(c) { '_' } else { c })
                =~= v@.take(i as int).map_values(|c: char| if is_tag_separator(c) { '_' } else { c }).push(d));
        }
        i += 1;
    }
    proof {
        assert(v@.take(v@.len() as int) =~= v@);
    }
    r.append("_image.tar");
    r
}

/// Fails with the step's name and exit code unless the step succeeded.
pub fn ensure_success(success: bool, code: Option<i32>, step: &str) -> (r: Result<(), CliError>)
    ensures
        success <==> r is Ok,
        r matches Err(e) ==> e matches CliError::StepFailed { step: s, exit_code: c } && s@ == step@ && c == code,
{
    if success {
        Ok(())
    } else {
        Err(CliError::StepFailed { step: step.to_owned(), exit_code: code })
    }
}


/// What a `SERVICE=IMAGE` argument names: the trimmed text before its first
/// `=` and the trimmed text after it, both non-empty.
pub open spec fn image_update_parts(arg: Seq<char>) -> Option<(Seq<char>, Seq<char>)> {
    let k = index_of_from(arg, '=', 0);
    if k < 0 {
        None
    } else {
        let service = trim(arg.take(k));
        let image = trim(arg.skip(k + 1));
        if service.len() > 0 && image.len() > 0 {
            Some((service, image))
        } else {
            None
        }
    }
}

/// Reads a `SERVICE=IMAGE` argument (see `image_update_parts`).
pub fn parse_image_update(arg: &str) -> (r: Result<ImageUpdate, CliError>)
    ensures
        match r {
            Ok(u) => image_update_parts(arg@) == Some((u.service@, u.image@)),
            Err(e) => image_update_parts(arg@) is None && (e matches CliError::InvalidImageUpdate { arg: a } && a@ == arg@),
        },
{
    let v = chars_of(arg);
    let mut k: usize = 0;
    while k < v.len() && v[k] != '='
        invariant
            k <= v@.len(),
            v@ == arg@,
            index_of_from(arg@, '=', 0) == index_of_from(arg@, '=', k as int),
        decreases v@.len() - k,
    {
        k += 1;
    }
    if k == v.len() {
        return Err(CliError::InvalidImageUpdate { arg: arg.to_owned() });
    }
    proof {
        assert(index_of_from(arg@, '=', k as int) == k);
    }
    let (a, b) = trim_range(&v, 0, k);
    let (c, d) = trim_range(&v, k + 1, v.len());
    proof {
        assert(v@.subrange(0, k as int) =~= v@.take(k as int));
        assert(v@.subrange(k + 1, v@.len() as int) =~= v@.skip(k + 1));
    }
    if a == b || c == d {
        return Err(CliError::InvalidImageUpdate { arg: arg.to_owned() });
    }
    Ok(ImageUpdate { service: string_of(&v, a, b), image: string_of(&v, c, d) })
}

/// `text` and `changes` are what the updates `ups` make of the compose file
/// `content`, applied one after another: all changes in order (at least one)
/// and the printed final document.
pub open spec fn compose_text_updated_by(
    content: Seq<char>,
    ups: Seq<ImageUpdate>,
    text: Seq<char>,
    changes: Seq<ImageChange>,
) -> bool {
    yaml_parsed(content) matches Some(doc) && {
        &&& compose_services(doc) is Some
        &&& change_views(changes) == chain_changes(doc, ups)
        &&& changes.len() > 0
        &&& yaml_rendered(chain_document(doc, ups)) == Some(text)
    }
}

/// The updates `ups` of `content` fail with `e`: the text is not YAML, the
/// document lacks its top-level or services mapping, no service changes, or
/// the final document cannot be printed.
pub open spec fn compose_text_refused_by(content: Seq<char>, ups: Seq<ImageUpdate>, e: CliError) -> bool {
    match yaml_parsed(content) {
        None => e is YamlParse,
        Some(doc) => {
            ||| ups.len() > 0 && structure_refused(doc, e)
            ||| e is NoImageMatched && (ups.len() == 0 || compose_services(doc) is Some)
                && chain_changes(doc, ups).len() == 0
            ||| e is YamlRender && compose_services(doc) is Some && chain_changes(doc, ups).len() > 0
                && yaml_rendered(chain_document(doc, ups)) is None
        },
    }
}

/// Rewrites a compose file with several per-service image updates at once,
/// applied in order; the file is printed once. Fails as
/// `compose_text_refused_by` says, in particular when nothing changes.
pub fn update_compose_image_map(content: &str, updates: &Vec<ImageUpdate>) -> (r: Result<
    (String, Vec<ImageChange>),
    CliError,
>)
    ensures
        match r {
            Ok((text, changes)) => compose_text_updated_by(content@, updates@, text@, changes@),
            Err(e) => compose_text_refused_by(content@, updates@, e),
        },
{
    let doc = match parse_yaml(content) {
        Ok(d) => d,
        Err(e) => return Err(CliError::YamlParse(e)),
    };
    let (nd, changes) = match apply_image_updates(doc, updates) {
        Ok(x) => x,
        Err(e) => return Err(e),
    };
    if changes.len() == 0 {
        return Err(CliError::NoImageMatched);
    }
    proof {
        if updates@.len() == 0 {
            assert(change_views(changes@).len() == 0);
        }
    }
    match render_yaml(nd) {
        Ok(text) => Ok((text, changes)),
        Err(e) => Err(CliError::YamlRender(e)),
    }
}

/// Decides a multi-image compose update once the current compose text is
/// known; saving and bringing up follow `dry_run` and `apply` as in
/// `plan_compose_update`.
pub fn plan_compose_image_map(
    current: &str,
    updates: &Vec<ImageUpdate>,
    dry_run: bool,
    apply: bool,
) -> (r: Result<ComposeUpdatePlan, CliError>)
    ensures
        match r {
            Ok(p) => {
                &&& compose_text_updated_by(current@, updates@, p.updated@, p.result.changes@)
                &&& p.save == !dry_run
                &&& p.bring_up == (!dry_run && apply)
                &&& p.result.changed == p.result.changes@.len()
                &&& p.result.dry_run == dry_run
            },
            Err(e) => compose_text_refused_by(current@, updates@, e),
        },
{
    let (updated, changes) = match update_compose_image_map(current, updates) {
        Ok(x) => x,
        Err(e) => return Err(e),
    };
    let save = !dry_run;
    let bring_up = save && apply;
    Ok(ComposeUpdatePlan {
        updated,
        save,
        bring_up,
        result: ComposeUpdateResult { changed: changes.len(), changes, dry_run },
    })
}


/// How a compose update names its new images.
#[derive(Debug, Clone)]
pub enum ComposeChange {
    /// One target image, limited by the service and image filters.
    Single { to_image: String },
    /// Per-service images, applied in order.
    PerService(Vec<ImageUpdate>),
}

/// Chooses how a compose update names its images: per-service updates when
/// any are given (and then no target image or filter may be), else the
/// target image, which is then required.
pub fn compose_change(
    to_image: Option<String>,
    service: &Option<String>,
    from_image: &Option<String>,
    updates: Vec<ImageUpdate>,
) -> (r: Result<ComposeChange, CliError>)
    ensures
        updates@.len() > 0 ==> match r {
            Ok(ComposeChange::PerService(u)) => u@ == updates@ && to_image is None && service is None
                && from_image is None,
            Ok(_) => false,
            Err(e) => (to_image is Some || service is Some || from_image is Some) && e is ImageUpdateConflict,
        },
        updates@.len() == 0 ==> match r {
            Ok(ComposeChange::Single { to_image: t }) => to_image == Some(t),
            Ok(_) => false,
            Err(e) => to_image is None && e is MissingTargetImage,
        },
{
    if updates.len() > 0 {
        if to_image.is_some() || service.is_some() || from_image.is_some() {
            return Err(CliError::ImageUpdateConflict);
        }
        return Ok(ComposeChange::PerService(updates));
    }
    match to_image {
        Some(t) => Ok(ComposeChange::Single { to_image: t }),
        None => Err(CliError::MissingTargetImage),
    }
}

} // verus!
