//! What the preview server answers: the routes, and the decisions each
//! request makes on the open files.

use vstd::prelude::*;
use crate::ids::{
    candidate_spec, display_name_of, display_name_spec, file_id_spec, file_name_lossy_of, file_name_of,
    free_id_spec, path_display, path_display_of, sanitize_id, sanitize_spec, unique_file_id,
};
use std::path::PathBuf;
use crate::renderer::{app_page_spec, escape_json, escape_json_spec, preview_html, render_app_page, render_content};
use crate::store::{EntrySpec, FileStore, opt_view};
use crate::text::{decimal, decimal_spec, str_eq};
use crate::url::{decodes_to, parse_url, query_lookup, url_path_spec, url_query_raw, url_query_spec};

pub use crate::clock::current_timestamp;
pub use crate::ids::make_file_id;
pub use crate::store::FileEntry;

verus! {

/// The routes of the server.
#[derive(PartialEq, Eq, Structural, Clone, Copy, Debug)]
pub enum Route {
    /// `GET /`: the application page.
    AppPage,
    /// `GET /content?id=..`: a file's rendered markdown.
    Content,
    /// `GET /check?id=..`: a file's version, for polling.
    Check,
    /// `POST /close?id=..`: closes a file.
    Close,
    /// `POST /open`: opens a file from a path in the body.
    Open,
    /// `POST /upload`: opens content sent in the body.
    Upload,
    /// `GET /info`: the open files as JSON.
    Info,
    /// `POST /clear-all`: closes every file.
    ClearAll,
    /// Anything else.
    NotFound,
}

/// The route of a request method and path.
pub open spec fn route_spec(method: Seq<char>, path: Seq<char>) -> Route {
    if method == "GET"@ && path == "/"@ {
        Route::AppPage
    } else if method == "GET"@ && path == "/content"@ {
        Route::Content
    } else if method == "GET"@ && path == "/check"@ {
        Route::Check
    } else if method == "POST"@ && path == "/close"@ {
        Route::Close
    } else if method == "POST"@ && path == "/open"@ {
        Route::Open
    } else if method == "POST"@ && path == "/upload"@ {
        Route::Upload
    } else if method == "GET"@ && path == "/info"@ {
        Route::Info
    } else if method == "POST"@ && path == "/clear-all"@ {
        Route::ClearAll
    } else {
        Route::NotFound
    }
}

/// The route of a request.
pub fn route(method: &str, path: &str) -> (r: Route)
    ensures
        r == route_spec(method@, path@),
{
    let get = str_eq(method, "GET");
    let post = str_eq(method, "POST");
    if get && str_eq(path, "/") {
        Route::AppPage
    } else if get && str_eq(path, "/content") {
        Route::Content
    } else if get && str_eq(path, "/check") {
        Route::Check
    } else if post && str_eq(path, "/close") {
        Route::Close
    } else if post && str_eq(path, "/open") {
        Route::Open
    } else if post && str_eq(path, "/upload") {
        Route::Upload
    } else if get && str_eq(path, "/info") {
        Route::Info
    } else if post && str_eq(path, "/clear-all") {
        Route::ClearAll
    } else {
        Route::NotFound
    }
}

/// The kind of an answer, which sets its content type (or its status).
#[derive(PartialEq, Eq, Structural, Clone, Copy, Debug)]
pub enum ReplyKind {
    Html,
    Text,
    Json,
    NotFound,
}

/// An answer to a request.
pub struct Reply {
    pub kind: ReplyKind,
    pub body: String,
}

/// An answer as plain values.
pub struct ReplySpec {
    pub kind: ReplyKind,
    pub body: Seq<char>,
}

impl View for Reply {
    type V = ReplySpec;

    open spec fn view(&self) -> ReplySpec {
        ReplySpec { kind: self.kind, body: self.body@ }
    }
}

fn reply(kind: ReplyKind, body: &str) -> (r: Reply)
    ensures
        r@ == (ReplySpec { kind: kind, body: body@ }),
{
    Reply { kind, body: body.to_owned() }
}

/// The answer to `/content`.
pub open spec fn content_reply_spec(m: Map<Seq<char>, EntrySpec>, id: Option<Seq<char>>) -> ReplySpec {
    match id {
        Some(i) => if m.contains_key(i) {
            ReplySpec { kind: ReplyKind::Html, body: preview_html(m[i].content) }
        } else {
            ReplySpec { kind: ReplyKind::Text, body: "ERROR: file not found"@ }
        },
        None => ReplySpec { kind: ReplyKind::Text, body: "ERROR: missing id parameter"@ },
    }
}

/// `/content`: the rendered markdown of the file `id`.
pub fn content_reply(files: &FileStore, id: Option<&str>) -> (r: Reply)
    requires
        files.wf(),
    ensures
        r@ == content_reply_spec(files@, opt_str(id)),
{
    match id {
        Some(i) => match files.get(i) {
            Some(entry) => Reply { kind: ReplyKind::Html, body: render_content(entry.content.as_str()) },
            None => reply(ReplyKind::Text, "ERROR: file not found"),
        },
        None => reply(ReplyKind::Text, "ERROR: missing id parameter"),
    }
}

/// The answer to `/check`.
pub open spec fn check_reply_spec(m: Map<Seq<char>, EntrySpec>, id: Option<Seq<char>>) -> ReplySpec {
    match id {
        Some(i) if m.contains_key(i) => ReplySpec {
            kind: ReplyKind::Text,
            body: decimal_spec(m[i].version as nat),
        },
        _ => ReplySpec { kind: ReplyKind::Text, body: "0"@ },
    }
}

/// `/check`: the version of the file `id`, `0` for a file that is not open.
pub fn check_reply(files: &FileStore, id: Option<&str>) -> (r: Reply)
    requires
        files.wf(),
    ensures
        r@ == check_reply_spec(files@, opt_str(id)),
{
    match id {
        Some(i) => match files.get(i) {
            Some(entry) => Reply { kind: ReplyKind::Text, body: decimal(entry.version) },
            None => reply(ReplyKind::Text, "0"),
        },
        None => reply(ReplyKind::Text, "0"),
    }
}

/// The view of an optional string.
pub open spec fn opt_str(o: Option<&str>) -> Option<Seq<char>> {
    match o {
        Some(s) => Some(s@),
        None => None,
    }
}

/// A file's path as the info JSON writes it: escaped as a JSON string
/// (backslashes doubled, quotes preceded by a backslash), empty for a file
/// that has no path.
pub open spec fn path_text_spec(path: Option<Seq<char>>) -> Seq<char> {
    match path {
        Some(p) => escape_json_spec(p),
        None => Seq::empty(),
    }
}

/// One file in the info JSON.
pub open spec fn info_item_spec(id: Seq<char>, e: EntrySpec) -> Seq<char> {
    "{\"id\":\""@ + id + "\",\"name\":\""@ + escape_json_spec(e.display_name) + "\",\"path\":\""@
        + path_text_spec(e.path) + "\"}"@
}

/// The first `n` files of the info JSON, separated by commas.
pub open spec fn info_list_spec(ids: Seq<Seq<char>>, m: Map<Seq<char>, EntrySpec>, n: nat) -> Seq<char>
    decreases n,
{
    if n == 0 {
        Seq::empty()
    } else if n == 1 {
        info_item_spec(ids[0], m[ids[0]])
    } else {
        info_list_spec(ids, m, (n - 1) as nat) + ","@ + info_item_spec(ids[n - 1], m[ids[n - 1]])
    }
}

/// The info JSON: `{"files":[..]}` with one object per open file, in order.
pub open spec fn info_json_spec(ids: Seq<Seq<char>>, m: Map<Seq<char>, EntrySpec>) -> Seq<char> {
    "{\"files\":["@ + info_list_spec(ids, m, ids.len()) + "]}"@
}

fn info_item(id: &str, entry: &FileEntry) -> (r: String)
    ensures
        r@ == info_item_spec(id@, entry@),
{
    let path_text = match &entry.path {
        Some(p) => escape_json(p.as_str()),
        None => String::new(),
    };
    let mut r = String::new();
    r.append("{\"id\":\"");
    r.append(id);
    r.append("\",\"name\":\"");
    let name = escape_json(entry.display_name.as_str());
    r.append(name.as_str());
    r.append("\",\"path\":\"");
    r.append(path_text.as_str());
    r.append("\"}");
    r
}

/// `/info`: the open files as JSON, each with its id, name and path.
pub fn info_json(files: &FileStore) -> (r: String)
    requires
        files.wf(),
    ensures
        r@ == info_json_spec(files.order(), files@),
{
    let mut list = String::new();
    let mut i: usize = 0;
    while i < files.len()
        invariant
            files.wf(),
            i <= files.order().len(),
            list@ == info_list_spec(files.order(), files@, i as nat),
        decreases files.order().len() - i,
    {
        let item = info_item(files.id_at(i).as_str(), files.entry_at(i));
        if i > 0 {
            list.append(",");
        }
        list.append(item.as_str());
        i = i + 1;
    }
    let mut r = String::new();
    r.append("{\"files\":[");
    r.append(list.as_str());
    r.append("]}");
    r
}

/// What handling a request does, unless it needs the request's body: an
/// answer, and a line for the server's log.
pub enum Handled {
    Done(Reply, Option<String>),
    NeedsBody(Route),
}

/// The answer (and log line) to a request, none for the routes that read a body.
pub open spec fn handle_spec(
    ids: Seq<Seq<char>>,
    m: Map<Seq<char>, EntrySpec>,
    method: Seq<char>,
    url: Seq<char>,
    theme: Seq<char>,
    port: u16,
) -> Option<(ReplySpec, Option<Seq<char>>)> {
    let q = url_query_spec(url);
    let id = query_lookup(q, "id"@);
    match route_spec(method, url_path_spec(url)) {
        Route::AppPage => Some(
            (
                ReplySpec {
                    kind: ReplyKind::Html,
                    body: app_page_spec(ids, m, query_lookup(q, "active"@), theme, port),
                },
                None,
            ),
        ),
        Route::Content => Some((content_reply_spec(m, id), None)),
        Route::Check => Some((check_reply_spec(m, id), None)),
        Route::Close => Some(
            (
                ReplySpec { kind: ReplyKind::Text, body: "OK"@ },
                match id {
                    Some(i) if m.contains_key(i) => Some("  \u{2192} Closed file: "@ + i),
                    _ => None,
                },
            ),
        ),
        Route::Info => Some((ReplySpec { kind: ReplyKind::Json, body: info_json_spec(ids, m) }, None)),
        Route::ClearAll => Some(
            (
                ReplySpec { kind: ReplyKind::Text, body: "OK"@ },
                Some("  \u{2192} Cleared all files, reset to initial state"@),
            ),
        ),
        Route::NotFound => Some((ReplySpec { kind: ReplyKind::NotFound, body: "404 Not Found"@ }, None)),
        _ => None,
    }
}

/// The open files after a request that `handle_request` answers.
pub open spec fn handle_files_spec(
    m: Map<Seq<char>, EntrySpec>,
    method: Seq<char>,
    url: Seq<char>,
) -> Map<Seq<char>, EntrySpec> {
    let id = query_lookup(url_query_spec(url), "id"@);
    match route_spec(method, url_path_spec(url)) {
        Route::Close => match id {
            Some(i) => m.remove(i),
            None => m,
        },
        Route::ClearAll => Map::empty(),
        _ => m,
    }
}

/// Handles a request other than those that carry a body (`/open`, `/upload`):
/// decides the answer and changes the open files as the route says. Query
/// values are decoded as `parse_url` does them.
pub fn handle_request(files: &mut FileStore, method: &str, url: &str, theme: &str, port: u16) -> (h: Handled)
    requires
        old(files).wf(),
    ensures
        final(files).wf(),
        match h {
            Handled::Done(r, log) => handle_spec(old(files).order(), old(files)@, method@, url@, theme@, port)
                == Some((r@, opt_view(log))),
            Handled::NeedsBody(rt) => handle_spec(old(files).order(), old(files)@, method@, url@, theme@, port)
                is None && rt == route_spec(method@, url_path_spec(url@)),
        },
        final(files)@ == handle_files_spec(old(files)@, method@, url@),
        route_spec(method@, url_path_spec(url@)) == Route::ClearAll ==> final(files).order() == Seq::<Seq<char>>::empty(),
        route_spec(method@, url_path_spec(url@)) != Route::ClearAll && final(files)@ == old(files)@
            ==> final(files).order() == old(files).order(),
        forall|i: int|
            0 <= i < url_query_spec(url@).len() ==> decodes_to(
                #[trigger] url_query_raw(url@)[i],
                url_query_spec(url@)[i].1,
            ),        route_spec(method@, url_path_spec(url@)) == Route::Close ==> match query_lookup(url_query_spec(url@), "id"@) {
            Some(x) => !final(files)@.contains_key(x) && forall|k: Seq<char>|
                k != x ==> (#[trigger] final(files)@.contains_key(k) == old(files)@.contains_key(k)) && (
                old(files)@.contains_key(k) ==> final(files)@[k] == old(files)@[k]),
            None => final(files)@ == old(files)@,
        },
        route_spec(method@, url_path_spec(url@)) == Route::ClearAll ==> final(files)@.dom().is_empty(),
        route_spec(method@, url_path_spec(url@)) == Route::Content ==> (h matches Handled::Done(r, log) && log is None
            && r@ == content_reply_spec(old(files)@, query_lookup(url_query_spec(url@), "id"@))),
        route_spec(method@, url_path_spec(url@)) == Route::Check ==> (h matches Handled::Done(r, log) && log is None
            && r@ == check_reply_spec(old(files)@, query_lookup(url_query_spec(url@), "id"@))),
{
    let (path, query) = parse_url(url);
    let id = query.get("id");
    let id_ref: Option<&str> = match &id {
        Some(s) => Some(s.as_str()),
        None => None,
    };
    let rt = route(method, path.as_str());
    match rt {
        Route::AppPage => {
            let active = query.get("active");
            let active_ref: Option<&str> = match &active {
                Some(s) => Some(s.as_str()),
                None => None,
            };
            let page = render_app_page(files, active_ref, theme, port);
            Handled::Done(Reply { kind: ReplyKind::Html, body: page }, None)
        },
        Route::Content => Handled::Done(content_reply(files, id_ref), None),
        Route::Check => Handled::Done(check_reply(files, id_ref), None),
        Route::Close => {
            let mut log: Option<String> = None;
            match id_ref {
                Some(i) => {
                    if files.remove(i) {
                        let mut line = "  \u{2192} Closed file: ".to_owned();
                        line.append(i);
                        log = Some(line);
                    }
                },
                None => {},
            }
            Handled::Done(reply(ReplyKind::Text, "OK"), log)
        },
        Route::Info => Handled::Done(Reply { kind: ReplyKind::Json, body: info_json(files) }, None),
        Route::ClearAll => {
            files.clear();
            Handled::Done(
                reply(ReplyKind::Text, "OK"),
                Some("  \u{2192} Cleared all files, reset to initial state".to_owned()),
            )
        },
        Route::NotFound => Handled::Done(reply(ReplyKind::NotFound, "404 Not Found"), None),
        _ => Handled::NeedsBody(rt),
    }
}

/// The text of a request body: its bytes read as UTF-8, each invalid
/// sequence replaced by U+FFFD.
pub fn body_text(raw: &Vec<u8>) -> (text: String)
    ensures
        text@ == crate::unicode::utf8_lossy(raw@),
        forall|t: Seq<char>| #[trigger] crate::unicode::utf8_spec(t) == raw@ ==> text@ == t,
{
    crate::unicode::decode_utf8_lossy(raw)
}

/// `s` without any `"` at its start (as `trim_start_matches('"')`).
pub open spec fn strip_leading_quotes(s: Seq<char>) -> Seq<char>
    decreases s.len(),
{
    if s.len() > 0 && s[0] == '"' {
        strip_leading_quotes(s.skip(1))
    } else {
        s
    }
}

/// `s` without any `"` at its end (as `trim_end_matches('"')`).
pub open spec fn strip_trailing_quotes(s: Seq<char>) -> Seq<char>
    decreases s.len(),
{
    if s.len() > 0 && s.last() == '"' {
        strip_trailing_quotes(s.drop_last())
    } else {
        s
    }
}

/// `s` without the `"` at either end (as `trim_matches('"')`).
pub open spec fn strip_quotes_spec(s: Seq<char>) -> Seq<char> {
    strip_trailing_quotes(strip_leading_quotes(s))
}

/// Removes every `"` at the start and at the end of a string.
pub fn strip_quotes(s: &str) -> (r: String)
    ensures
        r@ == strip_quotes_spec(s@),
{
    let v = crate::text::chars_of(s);
    let mut lo: usize = 0;
    assert(v@.skip(0) =~= v@);
    while lo < v.len() && v[lo] == '"'
        invariant
            lo <= v.len(),
            strip_leading_quotes(v@) == strip_leading_quotes(v@.skip(lo as int)),
        decreases v.len() - lo,
    {
        assert(v@.skip(lo as int).skip(1) =~= v@.skip(lo + 1));
        lo = lo + 1;
    }
    let mut hi: usize = v.len();
    assert(v@.skip(lo as int) =~= v@.subrange(lo as int, hi as int));
    while hi > lo && v[hi - 1] == '"'
        invariant
            lo <= hi <= v.len(),
            strip_trailing_quotes(v@.skip(lo as int)) == strip_trailing_quotes(v@.subrange(lo as int, hi as int)),
        decreases hi - lo,
    {
        assert(v@.subrange(lo as int, hi as int).drop_last() =~= v@.subrange(lo as int, hi - 1));
        hi = hi - 1;
    }
    crate::text::string_from_range(&v, lo, hi)
}

/// The path that a `/open` body names: the `path` field of its JSON when it
/// parsed, else the body trimmed and stripped of quotes; none if that is empty.
pub open spec fn open_path_spec(body: Seq<char>, parsed: Option<Seq<char>>) -> Option<Seq<char>> {
    match parsed {
        Some(p) => Some(p),
        None => {
            let p = strip_quotes_spec(crate::unicode::trimmed(body));
            if p.len() == 0 {
                None
            } else {
                Some(p)
            }
        },
    }
}

/// The path of a `/open` request, from its body and the body's JSON `path`
/// field when the body parsed as `{"path": ..}`.
pub fn open_request_path(body: &str, parsed: Option<String>) -> (r: Option<String>)
    ensures
        opt_view(r) == open_path_spec(body@, opt_view(parsed)),
{
    match parsed {
        Some(p) => Some(p),
        None => {
            let t = crate::unicode::trim(body);
            let p = strip_quotes(t.as_str());
            if p.as_str().is_empty() {
                None
            } else {
                Some(p)
            }
        },
    }
}

/// Some open file has this path.
pub open spec fn has_path(s: FileStore, path: Seq<char>) -> bool {
    exists|i: int| 0 <= i < s.order().len() && #[trigger] s@[s.order()[i]].path == Some(path)
}

/// `id` is the first open file, in opening order, with this path.
pub open spec fn first_with_path(s: FileStore, path: Seq<char>, id: Seq<char>) -> bool {
    exists|i: int|
        0 <= i < s.order().len() && s.order()[i] == id && s@[id].path == Some(path)
            && forall|j: int| 0 <= j < i ==> #[trigger] s@[s.order()[j]].path != Some(path)
}

/// What opening `path` does: a path already open gives the id of its first
/// file and changes nothing; else the file is added under the first free id
/// after `base` (or, when none of those is free, under a free `base_` and a
/// stamp), at the end of the opening order.
pub open spec fn open_post(
    pre: FileStore,
    post: FileStore,
    path: Seq<char>,
    base: Seq<char>,
    display_name: Seq<char>,
    content: Seq<char>,
    version: u64,
    id: Seq<char>,
    existed: bool,
) -> bool {
    &&& existed == has_path(pre, path)
    &&& existed ==> post@ == pre@ && post.order() == pre.order() && first_with_path(pre, path, id)
    &&& !existed ==> match free_id_spec(base, pre@) {
        Some(x) => id == x,
        None => exists|t: u64| id == candidate_spec(base, t as nat),
    }
    &&& !existed ==> post@ == pre@.insert(
        id,
        EntrySpec { content: content, version: version, path: Some(path), display_name: display_name },
    )
    &&& !existed ==> !pre@.contains_key(id) && post.order() == pre.order().push(id)
}

/// Opens the file read from `path` (a canonical path), unless it is open
/// already. Returns its id, and whether it was open already; a new file gets
/// the first free id after `base_id`.
pub fn open_file(
    files: &mut FileStore,
    path: String,
    base_id: &str,
    display_name: String,
    content: String,
    version: u64,
) -> (r: (String, bool))
    requires
        old(files).wf(),
    ensures
        final(files).wf(),
        open_post(*old(files), *final(files), path@, base_id@, display_name@, content@, version, r.0@, r.1),
{
    match files.find_by_path(path.as_str()) {
        Some(id) => (id, true),
        None => {
            let id = unique_file_id(base_id, files);
            let entry = FileEntry { content, version, path: Some(path), display_name };
            files.insert(id.clone(), entry);
            (id, false)
        },
    }
}

/// Opens the file at `path` (a canonical path) with the content read from
/// it: the path is kept as its text, the id is made from its file name and
/// the tab shows its file name. Returns the id, and whether it was open
/// already.
pub fn open_path(files: &mut FileStore, path: &PathBuf, content: String, version: u64) -> (r: (String, bool))
    requires
        old(files).wf(),
    ensures
        final(files).wf(),
        open_post(
            *old(files),
            *final(files),
            path_display_of(*path),
            file_id_spec(file_name_of(*path)),
            display_name_spec(file_name_lossy_of(*path)),
            content@,
            version,
            r.0@,
            r.1,
        ),
{
    let text = path_display(path);
    let base_id = make_file_id(path);
    let display_name = display_name_of(path);
    open_file(files, text, base_id.as_str(), display_name, content, version)
}

/// Opens a file named on the command line: the entry for `path` goes in
/// under the id made from its file name, replacing a file with that id.
/// Returns the id.
pub fn add_cli_file(files: &mut FileStore, path: &PathBuf, content: String, version: u64) -> (id: String)
    requires
        old(files).wf(),
    ensures
        final(files).wf(),
        id@ == file_id_spec(file_name_of(*path)),
        final(files)@ == old(files)@.insert(
            id@,
            EntrySpec {
                content: content@,
                version: version,
                path: Some(path_display_of(*path)),
                display_name: display_name_spec(file_name_lossy_of(*path)),
            },
        ),
        final(files).order() == if old(files)@.contains_key(id@) {
            old(files).order()
        } else {
            old(files).order().push(id@)
        },
{
    let id = make_file_id(path);
    let entry = FileEntry {
        content,
        version,
        path: Some(path_display(path)),
        display_name: display_name_of(path),
    };
    files.insert(id.clone(), entry);
    id
}

/// Law: opening a path that is open already gives the same id and changes
/// nothing; in particular opening a file twice yields one tab.
pub proof fn law_open_twice(
    s0: FileStore,
    s1: FileStore,
    s2: FileStore,
    path: Seq<char>,
    base1: Seq<char>,
    name1: Seq<char>,
    content1: Seq<char>,
    version1: u64,
    id1: Seq<char>,
    existed1: bool,
    base2: Seq<char>,
    name2: Seq<char>,
    content2: Seq<char>,
    version2: u64,
    id2: Seq<char>,
    existed2: bool,
)
    requires
        s0.wf(),
        s1.wf(),
        open_post(s0, s1, path, base1, name1, content1, version1, id1, existed1),
        open_post(s1, s2, path, base2, name2, content2, version2, id2, existed2),
    ensures
        existed2,
        id2 == id1,
        s2@ == s1@,
        s2.order() == s1.order(),
{
    s0.lemma_order_is_keys();
    s1.lemma_order_is_keys();
    if existed1 {
        let i1 = choose|i: int|
            0 <= i < s0.order().len() && s0.order()[i] == id1 && s0@[id1].path == Some(path)
                && forall|j: int| 0 <= j < i ==> #[trigger] s0@[s0.order()[j]].path != Some(path);
        assert(s1@[s1.order()[i1]].path == Some(path));
        let i2 = choose|i: int|
            0 <= i < s1.order().len() && s1.order()[i] == id2 && s1@[id2].path == Some(path)
                && forall|j: int| 0 <= j < i ==> #[trigger] s1@[s1.order()[j]].path != Some(path);
        if i2 < i1 {
            assert(s0@[s0.order()[i2]].path != Some(path));
        } else if i1 < i2 {
            assert(s1@[s1.order()[i1]].path != Some(path));
        }
    } else {
        assert(s1@.contains_key(id1));
        assert(s1.order().contains(id1));
        let k = choose|k: int| 0 <= k < s1.order().len() && s1.order()[k] == id1;
        assert(s1@[s1.order()[k]].path == Some(path));
        let i2 = choose|i: int|
            0 <= i < s1.order().len() && s1.order()[i] == id2 && s1@[id2].path == Some(path)
                && forall|j: int| 0 <= j < i ==> #[trigger] s1@[s1.order()[j]].path != Some(path);
        if id2 != id1 {
            assert(s1@.contains_key(id2));
            assert(s0@.contains_key(id2));
            assert(s0.order().contains(id2));
            let m = choose|m: int| 0 <= m < s0.order().len() && s0.order()[m] == id2;
            assert(s0@[s0.order()[m]].path == Some(path));
        }
    }
}

/// Why an upload is refused.
#[derive(PartialEq, Eq, Structural, Clone, Copy, Debug)]
pub enum UploadError {
    /// The request had no body.
    EmptyBody,
    /// The content to open is empty.
    EmptyContent,
}

impl UploadError {
    /// The answer the server sends for this error.
    pub fn message(&self) -> (m: &'static str)
        ensures
            m@ == upload_error_text(*self),
    {
        match self {
            UploadError::EmptyBody => "ERROR: empty body",
            UploadError::EmptyContent => "ERROR: empty content",
        }
    }
}

/// The answer to a refused upload.
pub open spec fn upload_error_text(e: UploadError) -> Seq<char> {
    match e {
        UploadError::EmptyBody => "ERROR: empty body"@,
        UploadError::EmptyContent => "ERROR: empty content"@,
    }
}

/// The fields of an upload's JSON body `{"content": .., "name": ..}`.
pub struct UploadRequest {
    pub content: String,
    pub name: Option<String>,
}

/// The content and name that an upload opens: those of its JSON when the
/// body parsed, else the whole body trimmed and no name. An empty body, or
/// empty content, is refused.
pub open spec fn upload_fields_spec(
    body: Seq<char>,
    parsed: Option<(Seq<char>, Option<Seq<char>>)>,
) -> Result<(Seq<char>, Option<Seq<char>>), UploadError> {
    if body.len() == 0 {
        Err(UploadError::EmptyBody)
    } else {
        let (content, name) = match parsed {
            Some(p) => p,
            None => (crate::unicode::trimmed(body), None),
        };
        if content.len() == 0 {
            Err(UploadError::EmptyContent)
        } else {
            Ok((content, name))
        }
    }
}

/// The content and name of a `/upload` request, from its body and the
/// body's JSON fields when it parsed.
pub fn upload_fields(body: &str, parsed: Option<UploadRequest>) -> (r: Result<(String, Option<String>), UploadError>)
    ensures
        upload_fields_spec(body@, match parsed {
            Some(p) => Some((p.content@, opt_view(p.name))),
            None => None,
        }) == match r {
            Ok((c, n)) => Ok((c@, opt_view(n))),
            Err(e) => Err::<(Seq<char>, Option<Seq<char>>), UploadError>(e),
        },
{
    if body.is_empty() {
        return Err(UploadError::EmptyBody);
    }
    let (content, name) = match parsed {
        Some(p) => (p.content, p.name),
        None => (crate::unicode::trim(body), None),
    };
    if content.as_str().is_empty() {
        Err(UploadError::EmptyContent)
    } else {
        Ok((content, name))
    }
}

/// The name shown for uploaded content: its own, or `untitled.md`.
pub open spec fn upload_name_spec(name: Option<Seq<char>>) -> Seq<char> {
    match name {
        Some(n) => n,
        None => "untitled.md"@,
    }
}

/// Some open file is shown under this name.
pub open spec fn has_name(s: FileStore, name: Seq<char>) -> bool {
    exists|i: int| 0 <= i < s.order().len() && #[trigger] s@[s.order()[i]].display_name == name
}

/// `id` is the first open file, in opening order, shown under this name.
pub open spec fn first_with_name(s: FileStore, name: Seq<char>, id: Seq<char>) -> bool {
    exists|i: int|
        0 <= i < s.order().len() && s.order()[i] == id && s@[id].display_name == name
            && forall|j: int| 0 <= j < i ==> #[trigger] s@[s.order()[j]].display_name != name
}

/// What uploading `content` under `name` does: the first file shown under
/// that name gets the new content, its version moves on to `next_version`
/// of the old one, and it keeps its id; else a new
/// file without a path is added under the first free id after the sanitized
/// name (or, when none is free, under a free one made of that id, `_` and a
/// stamp), at the end of the opening order.
pub open spec fn upload_post(
    pre: FileStore,
    post: FileStore,
    content: Seq<char>,
    name: Seq<char>,
    version: u64,
    id: Seq<char>,
    replaced: bool,
) -> bool {
    &&& replaced == has_name(pre, name)
    &&& replaced ==> post.order() == pre.order() && first_with_name(pre, name, id) && post@ == pre@.insert(
        id,
        EntrySpec {
            content: content,
            version: next_version(pre@[id].version, version),
            path: pre@[id].path,
            display_name: pre@[id].display_name,
        },
    )
    &&& !replaced ==> match free_id_spec(sanitize_spec(name), pre@) {
        Some(x) => id == x,
        None => exists|t: u64| id == candidate_spec(sanitize_spec(name), t as nat),
    }
    &&& !replaced ==> post@ == pre@.insert(
        id,
        EntrySpec { content: content, version: version, path: None, display_name: name },
    )
    &&& !replaced ==> !pre@.contains_key(id) && post.order() == pre.order().push(id)
}

/// Opens uploaded content under its name, `untitled.md` when it has none.
/// If a file with the same display name is open, its content is replaced,
/// its version raised, and its id returned with `true`; else a new file without a path
/// is opened under the first free id after the sanitized name.
pub fn upload_file(files: &mut FileStore, content: String, name: Option<String>, version: u64) -> (r: (
    String,
    bool,
))
    requires
        old(files).wf(),
    ensures
        final(files).wf(),
        upload_post(*old(files), *final(files), content@, upload_name_spec(opt_view(name)), version, r.0@, r.1),
        r.1 && old(files)@[r.0@].version < u64::MAX ==> final(files)@[r.0@].version > old(files)@[r.0@].version,
{
    let display_name = match name {
        Some(n) => n,
        None => "untitled.md".to_owned(),
    };
    let base_id = sanitize_id(display_name.as_str());
    proof { files.lemma_order_is_keys(); }
    match files.find_by_display_name(display_name.as_str()) {
        Some(id) => {
            proof {
                let i = choose|i: int| 0 <= i < files.order().len() && files.order()[i] == id@;
                assert(files.order().contains(id@));
            }
            let old_version: u64 = match files.get(id.as_str()) {
                Some(entry) => entry.version,
                None => version,
            };
            files.update_content(id.as_str(), content, bump_version(old_version, version));
            (id, true)
        },
        None => {
            let id = unique_file_id(base_id.as_str(), files);
            let entry = FileEntry { content, version, path: None, display_name };
            files.insert(id.clone(), entry);
            (id, false)
        },
    }
}

/// Law: uploading twice under one name keeps one file: the second upload
/// replaces the first one's content under the same id and moves its version
/// on.
pub proof fn law_upload_twice(
    s0: FileStore,
    s1: FileStore,
    s2: FileStore,
    name: Seq<char>,
    content1: Seq<char>,
    version1: u64,
    id1: Seq<char>,
    replaced1: bool,
    content2: Seq<char>,
    version2: u64,
    id2: Seq<char>,
    replaced2: bool,
)
    requires
        s0.wf(),
        s1.wf(),
        upload_post(s0, s1, content1, name, version1, id1, replaced1),
        upload_post(s1, s2, content2, name, version2, id2, replaced2),
    ensures
        replaced2,
        id2 == id1,
        s2.order() == s1.order(),
        s2@.contains_key(id1),
        s2@[id1].content == content2,
        s2@[id1].version == next_version(s1@[id1].version, version2),
        s2@[id1].display_name == name,
{
    s0.lemma_order_is_keys();
    s1.lemma_order_is_keys();
    if replaced1 {
        let i1 = choose|i: int|
            0 <= i < s0.order().len() && s0.order()[i] == id1 && s0@[id1].display_name == name
                && forall|j: int| 0 <= j < i ==> #[trigger] s0@[s0.order()[j]].display_name != name;
        assert(s1@[s1.order()[i1]].display_name == name);
        assert forall|j: int| 0 <= j < s1.order().len() implies #[trigger] s1@[s1.order()[j]].display_name
            == s0@[s0.order()[j]].display_name by {
            assert(s0.order().contains(s0.order()[j]));
        }
        let i2 = choose|i: int|
            0 <= i < s1.order().len() && s1.order()[i] == id2 && s1@[id2].display_name == name
                && forall|j: int| 0 <= j < i ==> #[trigger] s1@[s1.order()[j]].display_name != name;
        if i2 < i1 {
            assert(s0@[s0.order()[i2]].display_name != name);
        } else if i1 < i2 {
            assert(s1@[s1.order()[i1]].display_name != name);
        }
    } else {
        assert(s1@.contains_key(id1));
        assert(s1.order().contains(id1));
        let k = choose|k: int| 0 <= k < s1.order().len() && s1.order()[k] == id1;
        assert(s1@[s1.order()[k]].display_name == name);
        let i2 = choose|i: int|
            0 <= i < s1.order().len() && s1.order()[i] == id2 && s1@[id2].display_name == name
                && forall|j: int| 0 <= j < i ==> #[trigger] s1@[s1.order()[j]].display_name != name;
        if id2 != id1 {
            assert(s1@.contains_key(id2));
            assert(s0@.contains_key(id2));
            assert(s0.order().contains(id2));
            let m = choose|m: int| 0 <= m < s0.order().len() && s0.order()[m] == id2;
            assert(s0@[s0.order()[m]].display_name == name);
        }
    }
}

/// The version a file gets when its content changes: the new stamp if it is
/// later than the old version, else the old version plus one (the old one
/// kept only at `u64::MAX`), so that a page that polls the version sees it
/// grow.
pub open spec fn next_version(old: u64, stamp: u64) -> u64 {
    if stamp > old {
        stamp
    } else if old < u64::MAX {
        (old + 1) as u64
    } else {
        old
    }
}

/// The version that follows `old` for a change stamped `stamp`.
fn bump_version(old: u64, stamp: u64) -> (v: u64)
    ensures
        v == next_version(old, stamp),
        old < u64::MAX ==> v > old,
{
    if stamp > old {
        stamp
    } else if old < u64::MAX {
        old + 1
    } else {
        old
    }
}

/// What taking new content for a watched file does: if the file `id` is open
/// and its content differs, the content is replaced and the version moves on
/// to `next_version` of the old one; else nothing changes.
pub open spec fn refresh_post(pre: FileStore, post: FileStore, id: Seq<char>, content: Seq<char>, stamp: u64, changed: bool) -> bool {
    &&& post.order() == pre.order()
    &&& changed == (pre@.contains_key(id) && pre@[id].content != content)
    &&& changed ==> post@ == pre@.insert(
        id,
        EntrySpec {
            content: content,
            version: next_version(pre@[id].version, stamp),
            path: pre@[id].path,
            display_name: pre@[id].display_name,
        },
    )
    &&& !changed ==> post@ == pre@
}

/// Takes new content read from a watched file: if the file `id` is still
/// open and its content differs, the content is replaced and the version
/// raised (to `stamp` when that is later). Returns whether they were.
pub fn refresh_file(files: &mut FileStore, id: &str, new_content: String, stamp: u64) -> (changed: bool)
    requires
        old(files).wf(),
    ensures
        final(files).wf(),
        refresh_post(*old(files), *final(files), id@, new_content@, stamp, changed),
        changed && old(files)@[id@].version < u64::MAX ==> final(files)@[id@].version > old(files)@[id@].version,
{
    let old_version: Option<u64> = match files.get(id) {
        Some(entry) => if entry.content != new_content {
            Some(entry.version)
        } else {
            None
        },
        None => None,
    };
    match old_version {
        Some(v) => {
            let version = bump_version(v, stamp);
            files.update_content(id, new_content, version);
            true
        },
        None => false,
    }
}

/// Law: a second event with the same content changes nothing, so saving a
/// file without changes does not bump its version.
pub proof fn law_refresh_idempotent(
    s0: FileStore,
    s1: FileStore,
    s2: FileStore,
    id: Seq<char>,
    content: Seq<char>,
    version1: u64,
    version2: u64,
    changed1: bool,
    changed2: bool,
)
    requires
        refresh_post(s0, s1, id, content, version1, changed1),
        refresh_post(s1, s2, id, content, version2, changed2),
    ensures
        !changed2,
        s2@ == s1@,
        s2.order() == s1.order(),
{
}

/// Whether a file system event should reload the watched file `target`: it
/// is a modification or a creation, and one of its paths has that file name.
pub open spec fn is_reload_event_spec(names: Seq<Option<Seq<char>>>, target: Seq<char>, modifies: bool) -> bool {
    modifies && exists|i: int| 0 <= i < names.len() && names[i] == Some(target)
}

/// Decides whether an event reloads the watched file; `names` are the file
/// names of the event's paths.
pub fn is_reload_event(names: &Vec<Option<String>>, target: &str, modifies: bool) -> (b: bool)
    ensures
        b == is_reload_event_spec(names@.map_values(|n: Option<String>| opt_view(n)), target@, modifies),
{
    let ghost nv = names@.map_values(|n: Option<String>| opt_view(n));
    if !modifies {
        return false;
    }
    let mut i: usize = 0;
    while i < names.len()
        invariant
            modifies,
            i <= names.len(),
            nv == names@.map_values(|n: Option<String>| opt_view(n)),
            forall|j: int| 0 <= j < i ==> nv[j] != Some(target@),
        decreases names.len() - i,
    {
        let hit = match &names[i] {
            Some(n) => str_eq(n.as_str(), target),
            None => false,
        };
        if hit {
            assert(nv[i as int] == Some(target@));
            assert(is_reload_event_spec(nv, target@, modifies));
            return true;
        }
        i = i + 1;
    }
    false
}

/// Law: what `strip_quotes_spec` leaves neither starts nor ends with `"`.
pub proof fn law_strip_quotes(s: Seq<char>)
    ensures
        strip_quotes_spec(s).len() > 0 ==> strip_quotes_spec(s)[0] != '"',
        strip_quotes_spec(s).len() > 0 ==> strip_quotes_spec(s).last() != '"',
{
    lemma_strip_leading(s);
    lemma_strip_trailing(strip_leading_quotes(s));
}

proof fn lemma_strip_leading(s: Seq<char>)
    ensures
        strip_leading_quotes(s).len() > 0 ==> strip_leading_quotes(s)[0] != '"',
    decreases s.len(),
{
    if s.len() > 0 && s[0] == '"' {
        lemma_strip_leading(s.skip(1));
    }
}

/// Stripping trailing quotes keeps a prefix, so a first character that is
/// not a quote stays first.
proof fn lemma_strip_trailing(s: Seq<char>)
    ensures
        strip_trailing_quotes(s).len() > 0 ==> strip_trailing_quotes(s).last() != '"',
        strip_trailing_quotes(s).len() <= s.len(),
        strip_trailing_quotes(s) == s.take(strip_trailing_quotes(s).len() as int),
    decreases s.len(),
{
    if s.len() > 0 && s.last() == '"' {
        lemma_strip_trailing(s.drop_last());
        let r = strip_trailing_quotes(s.drop_last());
        assert(s.drop_last().take(r.len() as int) =~= s.take(r.len() as int));
    } else {
        assert(s.take(s.len() as int) =~= s);
    }
}

/// Law: closing a file removes exactly that file: the one named by the `id`
/// parameter is no longer open, and every other file is open afterwards
/// exactly when it was before, with the same entry.
pub proof fn law_close_removes_only_that_file(
    m: Map<Seq<char>, EntrySpec>,
    method: Seq<char>,
    url: Seq<char>,
    x: Seq<char>,
)
    requires
        route_spec(method, url_path_spec(url)) == Route::Close,
        query_lookup(url_query_spec(url), "id"@) == Some(x),
    ensures
        !handle_files_spec(m, method, url).contains_key(x),
        forall|k: Seq<char>|
            k != x ==> (#[trigger] handle_files_spec(m, method, url).contains_key(k) <==> m.contains_key(k)),
        forall|k: Seq<char>|
            k != x && m.contains_key(k) ==> #[trigger] handle_files_spec(m, method, url)[k] == m[k],
{
}

/// Law: of the requests without a body only `/close` and `/clear-all`
/// change the open files: `/clear-all` closes all of them, `/close` without
/// an `id` closes none, and every other route leaves them as they are.
pub proof fn law_request_changes_files(m: Map<Seq<char>, EntrySpec>, method: Seq<char>, url: Seq<char>)
    ensures
        route_spec(method, url_path_spec(url)) == Route::ClearAll ==> handle_files_spec(
            m,
            method,
            url,
        ).dom().is_empty(),
        route_spec(method, url_path_spec(url)) == Route::Close && query_lookup(url_query_spec(url), "id"@) is None
            ==> handle_files_spec(m, method, url) == m,
        route_spec(method, url_path_spec(url)) != Route::Close && route_spec(method, url_path_spec(url))
            != Route::ClearAll ==> handle_files_spec(m, method, url) == m,
{
}

/// Law: `/content` answers with the rendered markdown of the file named by
/// the `id` parameter, and `/check` with that file's version in decimal;
/// a file that is not open, or a missing `id`, gets the error text (for
/// `/check`: `0`). Neither writes a log line.
pub proof fn law_content_and_check_follow_id(
    ids: Seq<Seq<char>>,
    m: Map<Seq<char>, EntrySpec>,
    method: Seq<char>,
    url: Seq<char>,
    theme: Seq<char>,
    port: u16,
)
    ensures
        route_spec(method, url_path_spec(url)) == Route::Content ==> handle_spec(ids, m, method, url, theme, port)
            == Some(
            (
                match query_lookup(url_query_spec(url), "id"@) {
                    Some(i) => if m.contains_key(i) {
                        ReplySpec { kind: ReplyKind::Html, body: preview_html(m[i].content) }
                    } else {
                        ReplySpec { kind: ReplyKind::Text, body: "ERROR: file not found"@ }
                    },
                    None => ReplySpec { kind: ReplyKind::Text, body: "ERROR: missing id parameter"@ },
                },
                None::<Seq<char>>,
            ),
        ),
        route_spec(method, url_path_spec(url)) == Route::Check ==> handle_spec(ids, m, method, url, theme, port)
            == Some(
            (
                match query_lookup(url_query_spec(url), "id"@) {
                    Some(i) => if m.contains_key(i) {
                        ReplySpec { kind: ReplyKind::Text, body: decimal_spec(m[i].version as nat) }
                    } else {
                        ReplySpec { kind: ReplyKind::Text, body: "0"@ }
                    },
                    None => ReplySpec { kind: ReplyKind::Text, body: "0"@ },
                },
                None::<Seq<char>>,
            ),
        ),
{
}

/// Law: an upload leaves the uploaded content, under its name, in the file
/// whose id it returns. A new file has the given version and no path and
/// takes an id that was free; a replaced file keeps its id and path and its
/// version moves on. Every other file stays as it was.
pub proof fn law_upload_keeps_content(
    pre: FileStore,
    post: FileStore,
    content: Seq<char>,
    name: Seq<char>,
    version: u64,
    id: Seq<char>,
    replaced: bool,
)
    requires
        pre.wf(),
        upload_post(pre, post, content, name, version, id, replaced),
    ensures
        post@.contains_key(id),
        post@[id].content == content,
        post@[id].display_name == name,
        !replaced ==> !pre@.contains_key(id) && post@[id].version == version && post@[id].path is None,
        replaced ==> pre@.contains_key(id) && post@[id].path == pre@[id].path && post@[id].version == next_version(
            pre@[id].version,
            version,
        ),
        forall|k: Seq<char>| k != id ==> (#[trigger] post@.contains_key(k) <==> pre@.contains_key(k)),
        forall|k: Seq<char>| k != id && pre@.contains_key(k) ==> #[trigger] post@[k] == pre@[k],
{
    pre.lemma_order_is_keys();
    if replaced {
        let i = choose|i: int|
            0 <= i < pre.order().len() && pre.order()[i] == id && pre@[id].display_name == name
                && forall|j: int| 0 <= j < i ==> #[trigger] pre@[pre.order()[j]].display_name != name;
        assert(pre.order().contains(id));
    }
}

/// Law: opening a path leaves a file with that path open under the id it
/// returns. A new file has the given content, version and display name and
/// takes an id that was free; a path already open changes nothing. Every
/// other file stays as it was.
pub proof fn law_open_keeps_content(
    pre: FileStore,
    post: FileStore,
    path: Seq<char>,
    base: Seq<char>,
    display_name: Seq<char>,
    content: Seq<char>,
    version: u64,
    id: Seq<char>,
    existed: bool,
)
    requires
        pre.wf(),
        open_post(pre, post, path, base, display_name, content, version, id, existed),
    ensures
        post@.contains_key(id),
        post@[id].path == Some(path),
        !existed ==> !pre@.contains_key(id) && post@[id] == (EntrySpec {
            content: content,
            version: version,
            path: Some(path),
            display_name: display_name,
        }),
        existed ==> pre@.contains_key(id) && post@ == pre@,
        forall|k: Seq<char>| k != id ==> (#[trigger] post@.contains_key(k) <==> pre@.contains_key(k)),
        forall|k: Seq<char>| k != id && pre@.contains_key(k) ==> #[trigger] post@[k] == pre@[k],
{
    pre.lemma_order_is_keys();
    if existed {
        let i = choose|i: int|
            0 <= i < pre.order().len() && pre.order()[i] == id && pre@[id].path == Some(path)
                && forall|j: int| 0 <= j < i ==> #[trigger] pre@[pre.order()[j]].path != Some(path);
        assert(pre.order().contains(id));
    }
}

/// Law: each route is served at exactly one method and path, and every
/// other request is not found.
pub proof fn law_routes(method: Seq<char>, path: Seq<char>)
    ensures
        (route_spec(method, path) == Route::AppPage) == (method == "GET"@ && path == "/"@),
        (route_spec(method, path) == Route::Content) == (method == "GET"@ && path == "/content"@),
        (route_spec(method, path) == Route::Check) == (method == "GET"@ && path == "/check"@),
        (route_spec(method, path) == Route::Close) == (method == "POST"@ && path == "/close"@),
        (route_spec(method, path) == Route::Open) == (method == "POST"@ && path == "/open"@),
        (route_spec(method, path) == Route::Upload) == (method == "POST"@ && path == "/upload"@),
        (route_spec(method, path) == Route::Info) == (method == "GET"@ && path == "/info"@),
        (route_spec(method, path) == Route::ClearAll) == (method == "POST"@ && path == "/clear-all"@),
{
    reveal_strlit("/");
    reveal_strlit("/check");
    reveal_strlit("/clear-all");
    reveal_strlit("/close");
    reveal_strlit("/content");
    reveal_strlit("/info");
    reveal_strlit("/open");
    reveal_strlit("/upload");
    reveal_strlit("GET");
    reveal_strlit("POST");
    if path == "/content"@ || path == "/check"@ || path == "/close"@ || path == "/clear-all"@ {
        assert(path.len() > 1);
    }
    if path == "/check"@ || path == "/close"@ || path == "/clear-all"@ {
        assert(path[1] == 'c');
    }
    if path == "/close"@ || path == "/clear-all"@ {
        assert(path[2] == 'l');
    }
    if path == "/clear-all"@ {
        assert(path[3] == 'e');
    }
    if method == "POST"@ {
        assert(method[0] == 'P');
    }
    if path == "/upload"@ || path == "/open"@ || path == "/info"@ {
        assert(path.len() > 1 && path[1] != 'c');
    }
    if path == "/info"@ {
        assert(path[1] == 'i');
    }
    if path == "/open"@ {
        assert(path[1] == 'o');
    }
}

/// Law: the page is rendered for the `active` parameter; `/info` lists the
/// open files; `/close` and `/clear-all` answer `OK`, with a log line when a
/// file was closed; anything else is `404 Not Found`; and `/open` and
/// `/upload` are left to the handlers that read the body.
pub proof fn law_other_answers(
    ids: Seq<Seq<char>>,
    m: Map<Seq<char>, EntrySpec>,
    method: Seq<char>,
    url: Seq<char>,
    theme: Seq<char>,
    port: u16,
)
    ensures
        route_spec(method, url_path_spec(url)) == Route::AppPage ==> handle_spec(ids, m, method, url, theme, port)
            == Some(
            (
                ReplySpec {
                    kind: ReplyKind::Html,
                    body: app_page_spec(ids, m, query_lookup(url_query_spec(url), "active"@), theme, port),
                },
                None::<Seq<char>>,
            ),
        ),
        route_spec(method, url_path_spec(url)) == Route::Info ==> handle_spec(ids, m, method, url, theme, port)
            == Some((ReplySpec { kind: ReplyKind::Json, body: info_json_spec(ids, m) }, None::<Seq<char>>)),
        route_spec(method, url_path_spec(url)) == Route::Close ==> (handle_spec(ids, m, method, url, theme, port)
            matches Some((r, log)) && r == (ReplySpec { kind: ReplyKind::Text, body: "OK"@ }) && (log is Some
            <==> (query_lookup(url_query_spec(url), "id"@) matches Some(x) && m.contains_key(x)))),
        route_spec(method, url_path_spec(url)) == Route::ClearAll ==> (handle_spec(ids, m, method, url, theme, port)
            matches Some((r, log)) && r == (ReplySpec { kind: ReplyKind::Text, body: "OK"@ }) && log is Some),
        route_spec(method, url_path_spec(url)) == Route::NotFound ==> handle_spec(ids, m, method, url, theme, port)
            == Some((ReplySpec { kind: ReplyKind::NotFound, body: "404 Not Found"@ }, None::<Seq<char>>)),
        (route_spec(method, url_path_spec(url)) == Route::Open || route_spec(method, url_path_spec(url))
            == Route::Upload) <==> handle_spec(ids, m, method, url, theme, port) is None,
{
}

/// Law: opening one more file adds its object, after a comma when it is not
/// the first, at the end of the info list; the info JSON wraps the list of
/// all open files.
pub proof fn law_info_adds_one_file(ids: Seq<Seq<char>>, m: Map<Seq<char>, EntrySpec>, n: nat)
    ensures
        info_list_spec(ids, m, n + 1) == info_list_spec(ids, m, n) + (if n == 0 {
            Seq::<char>::empty()
        } else {
            ","@
        }) + info_item_spec(ids[n as int], m[ids[n as int]]),
        info_list_spec(ids, m, 0) == Seq::<char>::empty(),
        info_json_spec(ids, m) == "{\"files\":["@ + info_list_spec(ids, m, ids.len()) + "]}"@,
{
    if n == 0 {
        assert(Seq::<char>::empty() + Seq::<char>::empty() + info_item_spec(ids[0], m[ids[0]])
            =~= info_item_spec(ids[0], m[ids[0]]));
    }
}

/// Law: an upload is refused as empty exactly when its body is empty, and
/// as having empty content exactly when the content it names is empty;
/// otherwise it opens the JSON fields when the body parsed, else the whole
/// body without surrounding white space and no name.
pub proof fn law_upload_fields(body: Seq<char>, parsed: Option<(Seq<char>, Option<Seq<char>>)>)
    ensures
        (upload_fields_spec(body, parsed) == Err::<(Seq<char>, Option<Seq<char>>), UploadError>(UploadError::EmptyBody))
            <==> body.len() == 0,
        body.len() > 0 ==> match parsed {
            Some((c, n)) => upload_fields_spec(body, parsed) == if c.len() == 0 {
                Err(UploadError::EmptyContent)
            } else {
                Ok((c, n))
            },
            None => upload_fields_spec(body, parsed) == if crate::unicode::trimmed(body).len() == 0 {
                Err(UploadError::EmptyContent)
            } else {
                Ok((crate::unicode::trimmed(body), None::<Seq<char>>))
            },
        },
{
}

} // verus!
