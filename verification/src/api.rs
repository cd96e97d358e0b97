//! Reading 1Panel API answers: status and code checks, the `data` envelope,
//! and the values that single requests extract.

use vstd::prelude::*;
use vstd::string::StrSliceExecFns;
use crate::error::CliError;
use crate::json::{
    JsonValue, JsonView, as_array, as_i64, as_str, get, get_str, get_str_exec, json_array,
    json_display, json_get, json_i64, json_parsed, json_str, json_text, json_view, lemma_values_view,
    parse_json, values_view,
};
use crate::text::{chars_of, string_of, strip_trailing, strip_trailing_range};

verus! {

/// Index of the first `c` in `s` from position `i` on, or -1.
pub open spec fn index_of_from(s: Seq<char>, c: char, i: int) -> int
    decreases s.len() - i,
{
    if i < 0 || i >= s.len() {
        -1
    } else if s[i] == c {
        i
    } else {
        index_of_from(s, c, i + 1)
    }
}

/// The JSON value read from the first `{` at position `i` or later from
/// which the rest of `body` parses, if there is one.
pub open spec fn json_from_brace(body: Seq<char>, i: int) -> Option<JsonView>
    decreases body.len() - i,
{
    if i < 0 || i >= body.len() {
        None
    } else if body[i] == '{' && json_parsed(body.skip(i)) is Some {
        json_parsed(body.skip(i))
    } else {
        json_from_brace(body, i + 1)
    }
}

/// The JSON value of a response body. A body that is not JSON as a whole is
/// read from the first `{` after its start from which the rest parses, so
/// that text before the JSON (an HTML page, with styles or scripts that hold
/// braces of their own) is skipped.
pub open spec fn response_json(body: Seq<char>) -> Option<JsonView> {
    match json_parsed(body) {
        Some(v) => Some(v),
        None => json_from_brace(body, 1),
    }
}

/// Parses a response body as JSON (see `response_json`); on failure, the
/// parser's error for the whole body.
pub fn parse_response(body: &str) -> (r: Result<JsonValue, serde_json::Error>)
    ensures
        match r {
            Ok(v) => response_json(body@) == Some(json_view(v)),
            Err(_) => response_json(body@) is None,
        },
{
    let first_err = match parse_json(body) {
        Ok(v) => return Ok(v),
        Err(e) => e,
    };
    let v = chars_of(body);
    let mut k: usize = 1;
    while k < v.len()
        invariant
            1 <= k,
            v@ == body@,
            json_parsed(body@) is None,
            json_from_brace(body@, 1) == json_from_brace(body@, k as int),
        decreases v@.len() - k,
    {
        if v[k] == '{' {
            let rest = body.substring_char(k, v.len());
            proof {
                assert(body@.subrange(k as int, body@.len() as int) =~= body@.skip(k as int));
            }
            if let Ok(j) = parse_json(rest) {
                return Ok(j);
            }
        }
        k += 1;
    }
    Err(first_err)
}

/// The API code of an answer: its integer member `code`.
pub open spec fn api_code(j: JsonView) -> Option<i64> {
    match json_get(j, "code"@) {
        Some(c) => json_i64(c),
        None => None,
    }
}

/// The API message of an answer: its string member `message`, else
/// `Unknown error`.
pub open spec fn api_message(j: JsonView) -> Seq<char> {
    match json_get(j, "message"@) {
        Some(m) => match json_str(m) {
            Some(s) => s,
            None => "Unknown error"@,
        },
        None => "Unknown error"@,
    }
}

/// An answer is refused when it carries an API code other than 200.
pub open spec fn api_refuses(j: JsonView) -> bool {
    api_code(j) is Some && api_code(j)->0 != 200
}

/// `e` reports that the answer `j` to `action` was refused.
pub open spec fn api_refusal(j: JsonView, action: Seq<char>, e: CliError) -> bool {
    e matches CliError::Api { action: a, code, message } && a@ == action && code == api_code(j)->0
        && message@ == api_message(j)
}

/// Accepts an answer unless it carries an API code other than 200; then
/// fails with the code and the answer's message.
pub fn check_api(json: JsonValue, action: &str) -> (r: Result<JsonValue, CliError>)
    ensures
        match r {
            Ok(j) => j == json && !api_refuses(json_view(json)),
            Err(e) => api_refuses(json_view(json)) && api_refusal(json_view(json), action@, e),
        },
{
    let code = match get(&json, "code") {
        Some(c) => as_i64(c),
        None => None,
    };
    if let Some(c) = code {
        if c != 200 {
            let message = match get(&json, "message") {
                Some(m) => match as_str(m) {
                    Some(s) => s.clone(),
                    None => "Unknown error".to_owned(),
                },
                None => "Unknown error".to_owned(),
            };
            return Err(CliError::Api { action: action.to_owned(), code: c, message });
        }
    }
    Ok(json)
}

/// Checks a raw answer to `action`: its HTTP status, its JSON body (see
/// `response_json`), and its API code (see `check_api`).
pub fn check_api_code(status_ok: bool, status: &str, body: String, action: &str) -> (r: Result<
    JsonValue,
    CliError,
>)
    ensures
        match r {
            Ok(j) => status_ok && response_json(body@) == Some(json_view(j)) && !api_refuses(
                json_view(j),
            ),
            Err(e) => {
                ||| !status_ok && (e matches CliError::HttpStatus { action: a, status: s, body: b }
                    && a@ == action@ && s@ == status@ && b@ == body@)
                ||| status_ok && response_json(body@) is None && (e matches CliError::ResponseParse {
                    action: a,
                    body: b,
                    ..
                } && a@ == action@ && b@ == body@)
                ||| status_ok && (response_json(body@) matches Some(j) && api_refuses(j)
                    && api_refusal(j, action@, e))
            },
        },
{
    if !status_ok {
        return Err(
            CliError::HttpStatus { action: action.to_owned(), status: status.to_owned(), body },
        );
    }
    match parse_response(body.as_str()) {
        Ok(j) => check_api(j, action),
        Err(e) => Err(CliError::ResponseParse { action: action.to_owned(), error: e, body }),
    }
}

/// The `data` member of an answer, or the answer itself when it has none.
pub open spec fn data_of(j: JsonView) -> JsonView {
    match json_get(j, "data"@) {
        Some(d) => d,
        None => j,
    }
}

/// The `data` member of an answer, or the answer itself.
pub fn unwrap_data(json: &JsonValue) -> (r: &JsonValue)
    ensures
        json_view(*r) == data_of(json_view(*json)),
{
    match get(json, "data") {
        Some(d) => d,
        None => json,
    }
}

/// The `data.content` string of a file-content answer.
pub open spec fn file_content_of(j: JsonView) -> Option<Seq<char>> {
    match json_get(j, "data"@) {
        Some(d) => get_str(d, "content"@),
        None => None,
    }
}

/// The content of a file-content answer.
pub fn file_content(json: &JsonValue) -> (r: Result<String, CliError>)
    ensures
        match r {
            Ok(s) => file_content_of(json_view(*json)) == Some(s@),
            Err(e) => file_content_of(json_view(*json)) is None && e is MissingFileContent,
        },
{
    match get(json, "data") {
        Some(d) => match get_str_exec(d, "content") {
            Some(s) => Ok(s.clone()),
            None => Err(CliError::MissingFileContent),
        },
        None => Err(CliError::MissingFileContent),
    }
}

/// Where an upload landed: the answer's `data` string, else `remote_dir`
/// without trailing `/`, then `/` and the file name.
pub open spec fn uploaded_path_of(j: JsonView, remote_dir: Seq<char>, file_name: Seq<char>) -> Seq<
    char,
> {
    match json_get(j, "data"@) {
        Some(d) if json_str(d) is Some => json_str(d)->0,
        _ => strip_trailing(remote_dir, '/') + "/"@ + file_name,
    }
}

/// Where an upload landed (see `uploaded_path_of`).
pub fn uploaded_path(json: &JsonValue, remote_dir: &str, file_name: &str) -> (r: String)
    ensures
        r@ == uploaded_path_of(json_view(*json), remote_dir@, file_name@),
{
    if let Some(d) = get(json, "data") {
        if let Some(s) = as_str(d) {
            return s.clone();
        }
    }
    let v = chars_of(remote_dir);
    let b = strip_trailing_range(&v, 0, v.len(), '/');
    proof {
        assert(v@.subrange(0, v@.len() as int) =~= v@);
    }
    let mut r = string_of(&v, 0, b);
    r.append("/");
    r.append(file_name);
    r
}

/// One compose project that the server lists.
#[derive(Debug, Clone)]
pub struct ComposeInfo {
    pub name: String,
    pub path: String,
    pub status: Option<String>,
}

/// The listed items of a compose-search answer: its `data.items` array.
pub open spec fn compose_items(j: JsonView) -> Seq<JsonView> {
    match json_get(j, "data"@) {
        Some(d) => match json_get(d, "items"@) {
            Some(items) => match json_array(items) {
                Some(xs) => xs,
                None => seq![],
            },
            None => seq![],
        },
        None => seq![],
    }
}

/// The compose project that an item describes, as (name, path, status): its
/// `name` and `path` strings, both non-empty, and the JSON text of its
/// `status` member.
pub open spec fn compose_entry(item: JsonView) -> Option<(Seq<char>, Seq<char>, Option<Seq<char>>)> {
    let name = match get_str(item, "name"@) {
        Some(s) => s,
        None => seq![],
    };
    let path = match get_str(item, "path"@) {
        Some(s) => s,
        None => seq![],
    };
    if name.len() == 0 || path.len() == 0 {
        None
    } else {
        Some(
            (
                name,
                path,
                match json_get(item, "status"@) {
                    Some(s) => Some(json_display(s)),
                    None => None,
                },
            ),
        )
    }
}

/// The compose projects that the items describe, in order, skipping items
/// without a name or a path.
pub open spec fn compose_entries(items: Seq<JsonView>) -> Seq<
    (Seq<char>, Seq<char>, Option<Seq<char>>),
>
    decreases items.len(),
{
    if items.len() == 0 {
        seq![]
    } else {
        let r = compose_entries(items.drop_last());
        match compose_entry(items.last()) {
            Some(e) => r.push(e),
            None => r,
        }
    }
}

/// A listed compose project as (name, path, status).
pub open spec fn compose_info_view(c: ComposeInfo) -> (Seq<char>, Seq<char>, Option<Seq<char>>) {
    (
        c.name@,
        c.path@,
        match c.status {
            Some(s) => Some(s@),
            None => None,
        },
    )
}

/// The compose projects of a compose-search answer.
pub fn composes_from_response(json: &JsonValue) -> (r: Vec<ComposeInfo>)
    ensures
        r@.map_values(|c: ComposeInfo| compose_info_view(c)) == compose_entries(
            compose_items(json_view(*json)),
        ),
{
    let empty: Vec<JsonValue> = Vec::new();
    let items: &Vec<JsonValue> = match get(json, "data") {
        Some(d) => match get(d, "items") {
            Some(x) => match as_array(x) {
                Some(xs) => xs,
                None => &empty,
            },
            None => &empty,
        },
        None => &empty,
    };
    let ghost all = compose_items(json_view(*json));
    proof {
        lemma_values_view(items@);
        assert(values_view(items@) =~= all);
    }
    let mut out: Vec<ComposeInfo> = Vec::new();
    let mut i: usize = 0;
    proof {
        assert(all.take(0) =~= Seq::<JsonView>::empty());
        assert(out@.map_values(|c: ComposeInfo| compose_info_view(c)) =~= Seq::empty());
    }
    while i < items.len()
        invariant
            i <= items@.len(),
            all.len() == items@.len(),
            forall|j: int| 0 <= j < items@.len() ==> #[trigger] all[j] == json_view(items@[j]),
            out@.map_values(|c: ComposeInfo| compose_info_view(c)) == compose_entries(all.take(i as int)),
        decreases items@.len() - i,
    {
        let item = &items[i];
        proof {
            assert(all[i as int] == json_view(*item));
        }
        let name: String = match get_str_exec(item, "name") {
            Some(s) => s.clone(),
            None => String::new(),
        };
        let path: String = match get_str_exec(item, "path") {
            Some(s) => s.clone(),
            None => String::new(),
        };
        let ghost before = out@;
        if name.as_str().unicode_len() != 0 && path.as_str().unicode_len() != 0 {
            let status = match get(item, "status") {
                Some(s) => Some(json_text(s)),
                None => None,
            };
            out.push(ComposeInfo { name, path, status });
            proof {
                assert(out@.map_values(|c: ComposeInfo| compose_info_view(c)) =~= before.map_values(
                    |c: ComposeInfo| compose_info_view(c),
                ).push(compose_entry(all[i as int])->0));
            }
        }
        proof {
            let t = all.take(i + 1);
            assert(t.drop_last() =~= all.take(i as int));
            assert(t.last() == all[i as int]);
        }
        i += 1;
    }
    proof {
        assert(all.take(all.len() as int) =~= all);
    }
    out
}

} // verus!
