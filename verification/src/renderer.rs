//! Markdown to HTML, and the tabbed application page.

use vstd::prelude::*;
use pulldown_cmark::{html, Options, Parser};
use crate::store::{FileStore, EntrySpec};
use crate::template::APP_TEMPLATE;
use crate::text::{decimal, decimal_spec, fill_spec, fill_template, replace_all, replace_spec, str_eq};

verus! {

/// The markdown extensions, beyond CommonMark, that a rendering enables.
pub struct MarkdownOptions {
    pub tables: bool,
    pub strikethrough: bool,
    pub tasklists: bool,
    pub smart_punctuation: bool,
}

/// The HTML that pulldown-cmark makes of a markdown text with the given
/// extensions enabled.
pub uninterp spec fn markdown_html(
    input: Seq<char>,
    tables: bool,
    strikethrough: bool,
    tasklists: bool,
    smart_punctuation: bool,
) -> Seq<char>;

/// `pulldown_cmark::Parser::new_ext` followed by `pulldown_cmark::html::push_html`
/// into an empty string. Claimed: the HTML is `markdown_html` of the text and
/// the four extension switches; the rendering depends on nothing else.
#[verifier::external_body]
fn markdown_to_html(input: &str, options: &MarkdownOptions) -> (out: String)
    ensures
        out@ == markdown_html(
            input@,
            options.tables,
            options.strikethrough,
            options.tasklists,
            options.smart_punctuation,
        ),
{
    let mut flags = Options::empty();
    flags.set(Options::ENABLE_TABLES, options.tables);
    flags.set(Options::ENABLE_STRIKETHROUGH, options.strikethrough);
    flags.set(Options::ENABLE_TASKLISTS, options.tasklists);
    flags.set(Options::ENABLE_SMART_PUNCTUATION, options.smart_punctuation);
    let parser = Parser::new_ext(input, flags);
    let mut out = String::new();
    html::push_html(&mut out, parser);
    out
}

/// The HTML of a markdown text as the preview shows it: tables,
/// strikethrough, task lists and smart punctuation enabled.
pub open spec fn preview_html(input: Seq<char>) -> Seq<char> {
    markdown_html(input, true, true, true, true)
}

/// Render markdown text to HTML content (no wrapper).
pub fn render_content(input: &str) -> (out: String)
    ensures
        out@ == preview_html(input@),
{
    let options = MarkdownOptions {
        tables: true,
        strikethrough: true,
        tasklists: true,
        smart_punctuation: true,
    };
    markdown_to_html(input, &options)
}

/// A name made safe for HTML text and attribute values: `&`, `<`, `>` and
/// `"` replaced by their entities, `&` first.
pub open spec fn escape_html_spec(s: Seq<char>) -> Seq<char> {
    replace_spec(
        replace_spec(
            replace_spec(replace_spec(s, "&"@, "&amp;"@), "<"@, "&lt;"@),
            ">"@,
            "&gt;"@,
        ),
        "\""@,
        "&quot;"@,
    )
}

/// Escapes a name for HTML.
pub fn escape_html(s: &str) -> (r: String)
    ensures
        r@ == escape_html_spec(s@),
{
    proof {
        reveal_strlit("&");
        reveal_strlit("<");
        reveal_strlit(">");
        reveal_strlit("\"");
    }
    let a = replace_all(s, "&", "&amp;");
    let b = replace_all(a.as_str(), "<", "&lt;");
    let c = replace_all(b.as_str(), ">", "&gt;");
    replace_all(c.as_str(), "\"", "&quot;")
}

/// A name made safe inside a JSON string: backslashes doubled, then quotes
/// preceded by a backslash.
pub open spec fn escape_json_spec(s: Seq<char>) -> Seq<char> {
    replace_spec(replace_spec(s, "\\"@, "\\\\"@), "\""@, "\\\""@)
}

/// Escapes a name for a JSON string.
pub fn escape_json(s: &str) -> (r: String)
    ensures
        r@ == escape_json_spec(s@),
{
    proof {
        reveal_strlit("\\");
        reveal_strlit("\"");
    }
    let a = replace_all(s, "\\", "\\\\");
    replace_all(a.as_str(), "\"", "\\\"")
}

/// Law: an escaped name holds no `<`, `>` or `"`, so it cannot open or
/// close a tag or an attribute value.
pub proof fn lemma_escape_html_safe(s: Seq<char>)
    ensures
        !escape_html_spec(s).contains('<'),
        !escape_html_spec(s).contains('>'),
        !escape_html_spec(s).contains('"'),
{
    reveal_strlit("&");
    reveal_strlit("<");
    reveal_strlit(">");
    reveal_strlit("\"");
    reveal_strlit("&amp;");
    reveal_strlit("&lt;");
    reveal_strlit("&gt;");
    reveal_strlit("&quot;");
    assert("&"@ =~= seq!['&']);
    assert("<"@ =~= seq!['<']);
    assert(">"@ =~= seq!['>']);
    assert("\""@ =~= seq!['"']);
    let a = replace_spec(s, "&"@, "&amp;"@);
    let b = replace_spec(a, "<"@, "&lt;"@);
    let c = replace_spec(b, ">"@, "&gt;"@);
    let d = replace_spec(c, "\""@, "&quot;"@);
    let amp = "&amp;"@;
    let lt = "&lt;"@;
    let gt = "&gt;"@;
    let quot = "&quot;"@;
    assert(!lt.contains('<')) by {
        if lt.contains('<') {
            let j = choose|j: int| 0 <= j < lt.len() && lt[j] == '<';
        }
    }
    assert(!gt.contains('<') && !gt.contains('>')) by {
        if gt.contains('<') || gt.contains('>') {
            let j = choose|j: int| 0 <= j < gt.len() && (gt[j] == '<' || gt[j] == '>');
        }
    }
    assert(!quot.contains('<') && !quot.contains('>') && !quot.contains('"')) by {
        if quot.contains('<') || quot.contains('>') || quot.contains('"') {
            let j = choose|j: int| 0 <= j < quot.len() && (quot[j] == '<' || quot[j] == '>' || quot[j] == '"');
        }
    }
    crate::text::lemma_replace_char(b, '>', gt, '<');
    crate::text::lemma_replace_char(a, '<', lt, '<');
    crate::text::lemma_replace_char(c, '"', quot, '<');
    crate::text::lemma_replace_char(b, '>', gt, '>');
    crate::text::lemma_replace_char(c, '"', quot, '>');
    crate::text::lemma_replace_char(c, '"', quot, '"');
}

/// The tab of one open file.
pub open spec fn tab_spec(id: Seq<char>, name: Seq<char>, active: bool) -> Seq<char> {
    "<div class=\"tab "@ + (if active { "active"@ } else { ""@ }) + "\" data-id=\""@ + id
        + "\"><span class=\"tab-icon\">\u{1F4C4}</span><span class=\"tab-name\">"@
        + escape_html_spec(name) + "</span><span class=\"tab-close\" data-id=\""@ + id
        + "\">\u{2715}</span></div>"@
}

/// The tabs of the first `n` files in opening order; the tab whose id is the
/// requested active id is marked active.
pub open spec fn tabs_spec(
    ids: Seq<Seq<char>>,
    m: Map<Seq<char>, EntrySpec>,
    active: Option<Seq<char>>,
    n: nat,
) -> Seq<char>
    decreases n,
{
    if n == 0 {
        Seq::empty()
    } else {
        let id = ids[n - 1];
        tabs_spec(ids, m, active, (n - 1) as nat) + tab_spec(id, m[id].display_name, active == Some(id))
    }
}

/// One file as a JSON object for the page's script.
pub open spec fn file_json_spec(id: Seq<char>, name: Seq<char>) -> Seq<char> {
    "{\"id\":\""@ + id + "\",\"name\":\""@ + escape_json_spec(name) + "\"}"@
}

/// The JSON objects of the first `n` files, separated by commas.
pub open spec fn file_list_spec(ids: Seq<Seq<char>>, m: Map<Seq<char>, EntrySpec>, n: nat) -> Seq<char>
    decreases n,
{
    if n == 0 {
        Seq::empty()
    } else if n == 1 {
        file_json_spec(ids[0], m[ids[0]].display_name)
    } else {
        file_list_spec(ids, m, (n - 1) as nat) + ","@ + file_json_spec(ids[n - 1], m[ids[n - 1]].display_name)
    }
}

/// The file shown when the page opens: the requested one if it is open,
/// else the first open file, else none.
pub open spec fn resolve_active(
    ids: Seq<Seq<char>>,
    m: Map<Seq<char>, EntrySpec>,
    active: Option<Seq<char>>,
) -> Option<Seq<char>> {
    match active {
        Some(a) if m.contains_key(a) => Some(a),
        _ => if ids.len() > 0 {
            Some(ids[0])
        } else {
            None
        },
    }
}

fn tab_html(id: &str, name: &str, active: bool) -> (r: String)
    ensures
        r@ == tab_spec(id@, name@, active),
{
    let mut r = String::new();
    r.append("<div class=\"tab ");
    if active {
        r.append("active");
    } else {
        r.append("");
    }
    r.append("\" data-id=\"");
    r.append(id);
    r.append("\"><span class=\"tab-icon\">\u{1F4C4}</span><span class=\"tab-name\">");
    let esc = escape_html(name);
    r.append(esc.as_str());
    r.append("</span><span class=\"tab-close\" data-id=\"");
    r.append(id);
    r.append("\">\u{2715}</span></div>");
    r
}

fn file_json(id: &str, name: &str) -> (r: String)
    ensures
        r@ == file_json_spec(id@, name@),
{
    let mut r = String::new();
    r.append("{\"id\":\"");
    r.append(id);
    r.append("\",\"name\":\"");
    let esc = escape_json(name);
    r.append(esc.as_str());
    r.append("\"}");
    r
}

fn opt_eq(a: Option<&str>, b: &str) -> (r: bool)
    ensures
        r == (a matches Some(x) && x@ == b@),
{
    match a {
        Some(x) => str_eq(x, b),
        None => false,
    }
}

/// The tab bar's HTML for all open files.
pub fn tabs_html(files: &FileStore, active_id: Option<&str>) -> (r: String)
    requires
        files.wf(),
    ensures
        r@ == tabs_spec(files.order(), files@, opt_str_view(active_id), files.order().len()),
{
    let mut r = String::new();
    let mut i: usize = 0;
    while i < files.len()
        invariant
            files.wf(),
            i <= files.order().len(),
            r@ == tabs_spec(files.order(), files@, opt_str_view(active_id), i as nat),
        decreases files.order().len() - i,
    {
        let id = files.id_at(i);
        let entry = files.entry_at(i);
        let active = opt_eq(active_id, id.as_str());
        let tab = tab_html(id.as_str(), entry.display_name.as_str(), active);
        r.append(tab.as_str());
        i = i + 1;
    }
    r
}

/// The open files as a JSON array of `{"id", "name"}` objects.
pub fn files_json(files: &FileStore) -> (r: String)
    requires
        files.wf(),
    ensures
        r@ == "["@ + file_list_spec(files.order(), files@, files.order().len()) + "]"@,
{
    let mut list = String::new();
    let mut i: usize = 0;
    while i < files.len()
        invariant
            files.wf(),
            i <= files.order().len(),
            list@ == file_list_spec(files.order(), files@, i as nat),
        decreases files.order().len() - i,
    {
        let id = files.id_at(i);
        let entry = files.entry_at(i);
        let item = file_json(id.as_str(), entry.display_name.as_str());
        if i > 0 {
            list.append(",");
        }
        list.append(item.as_str());
        i = i + 1;
    }
    let mut r = String::new();
    r.append("[");
    r.append(list.as_str());
    r.append("]");
    r
}

/// The view of an optional string.
pub open spec fn opt_str_view(o: Option<&str>) -> Option<Seq<char>> {
    match o {
        Some(s) => Some(s@),
        None => None,
    }
}

/// The version that the page shows.
pub const APP_VERSION: &'static str = "0.2.0";

/// The theme's colours, each paired with the placeholder it fills.
pub open spec fn color_fields(dark: bool) -> Seq<(Seq<char>, Seq<char>)> {
    if dark {
        seq![
            ("__BG__"@, "#0d1117"@),
            ("__FG__"@, "#e6edf3"@),
            ("__MUTED__"@, "#8b949e"@),
            ("__BORDER__"@, "#30363d"@),
            ("__ACCENT__"@, "#58a6ff"@),
            ("__CODE_BG__"@, "rgba(110,118,129,0.4)"@),
            ("__PRE_BG__"@, "#161b22"@),
            ("__TABLE_HDR__"@, "rgba(110,118,129,0.15)"@),
            ("__TABLE_ALT__"@, "rgba(110,118,129,0.06)"@),
            ("__TAB_BG__"@, "#161b22"@),
            ("__TAB_ACTIVE_BG__"@, "#0d1117"@),
            ("__TAB_HOVER_BG__"@, "rgba(110,118,129,0.15)"@),
            ("__TOOLBAR_BG__"@, "#161b22"@),
        ]
    } else {
        seq![
            ("__BG__"@, "#ffffff"@),
            ("__FG__"@, "#1f2328"@),
            ("__MUTED__"@, "#656d76"@),
            ("__BORDER__"@, "#d0d7de"@),
            ("__ACCENT__"@, "#0969da"@),
            ("__CODE_BG__"@, "rgba(175,184,193,0.2)"@),
            ("__PRE_BG__"@, "#f6f8fa"@),
            ("__TABLE_HDR__"@, "rgba(208,215,222,0.3)"@),
            ("__TABLE_ALT__"@, "#f6f8fa"@),
            ("__TAB_BG__"@, "#f6f8fa"@),
            ("__TAB_ACTIVE_BG__"@, "#ffffff"@),
            ("__TAB_HOVER_BG__"@, "rgba(208,215,222,0.3)"@),
            ("__TOOLBAR_BG__"@, "#f6f8fa"@),
        ]
    }
}

/// Every placeholder of the page with its value, in the order filled.
pub open spec fn page_fields(
    ids: Seq<Seq<char>>,
    m: Map<Seq<char>, EntrySpec>,
    active: Option<Seq<char>>,
    theme: Seq<char>,
    port: u16,
) -> Seq<(Seq<char>, Seq<char>)> {
    let resolved = resolve_active(ids, m, active);
    let content = match resolved {
        Some(id) => preview_html(m[id].content),
        None => Seq::empty(),
    };
    let active_str = match resolved {
        Some(id) => id,
        None => Seq::empty(),
    };
    seq![
        ("__TABS__"@, tabs_spec(ids, m, active, ids.len())),
        ("__CONTENT__"@, content),
        ("__FILES_JSON__"@, "["@ + file_list_spec(ids, m, ids.len()) + "]"@),
        ("__ACTIVE_ID__"@, active_str),
        ("__THEME__"@, theme),
        ("__VERSION__"@, APP_VERSION@),
        ("__PORT__"@, decimal_spec(port as nat)),
    ] + color_fields(theme == "dark"@)
}

/// The application page for the open files `ids` (in order) with entries `m`.
pub open spec fn app_page_spec(
    ids: Seq<Seq<char>>,
    m: Map<Seq<char>, EntrySpec>,
    active: Option<Seq<char>>,
    theme: Seq<char>,
    port: u16,
) -> Seq<char> {
    fill_spec(APP_TEMPLATE@, page_fields(ids, m, active, theme, port))
}

pub open spec fn fields_view(v: Seq<(String, String)>) -> Seq<(Seq<char>, Seq<char>)> {
    v.map_values(|f: (String, String)| (f.0@, f.1@))
}

fn push_field(fields: &mut Vec<(String, String)>, name: &str, value: &str)
    ensures
        fields_view(final(fields)@) == fields_view(old(fields)@).push((name@, value@)),
{
    fields.push((name.to_owned(), value.to_owned()));
    assert(fields_view(fields@) =~= fields_view(old(fields)@).push((name@, value@)));
}

fn push_colors(fields: &mut Vec<(String, String)>, dark: bool)
    ensures
        fields_view(final(fields)@) == fields_view(old(fields)@) + color_fields(dark),
{
    let ghost pre = fields_view(fields@);
    if dark {
        push_field(fields, "__BG__", "#0d1117");
        push_field(fields, "__FG__", "#e6edf3");
        push_field(fields, "__MUTED__", "#8b949e");
        push_field(fields, "__BORDER__", "#30363d");
        push_field(fields, "__ACCENT__", "#58a6ff");
        push_field(fields, "__CODE_BG__", "rgba(110,118,129,0.4)");
        push_field(fields, "__PRE_BG__", "#161b22");
        push_field(fields, "__TABLE_HDR__", "rgba(110,118,129,0.15)");
        push_field(fields, "__TABLE_ALT__", "rgba(110,118,129,0.06)");
        push_field(fields, "__TAB_BG__", "#161b22");
        push_field(fields, "__TAB_ACTIVE_BG__", "#0d1117");
        push_field(fields, "__TAB_HOVER_BG__", "rgba(110,118,129,0.15)");
        push_field(fields, "__TOOLBAR_BG__", "#161b22");
    } else {
        push_field(fields, "__BG__", "#ffffff");
        push_field(fields, "__FG__", "#1f2328");
        push_field(fields, "__MUTED__", "#656d76");
        push_field(fields, "__BORDER__", "#d0d7de");
        push_field(fields, "__ACCENT__", "#0969da");
        push_field(fields, "__CODE_BG__", "rgba(175,184,193,0.2)");
        push_field(fields, "__PRE_BG__", "#f6f8fa");
        push_field(fields, "__TABLE_HDR__", "rgba(208,215,222,0.3)");
        push_field(fields, "__TABLE_ALT__", "#f6f8fa");
        push_field(fields, "__TAB_BG__", "#f6f8fa");
        push_field(fields, "__TAB_ACTIVE_BG__", "#ffffff");
        push_field(fields, "__TAB_HOVER_BG__", "rgba(208,215,222,0.3)");
        push_field(fields, "__TOOLBAR_BG__", "#f6f8fa");
    }
    assert(fields_view(fields@) =~= pre + color_fields(dark));
}

/// Render the main application page with tabbed interface.
///
/// This is the single-page app that shows all open files as tabs, with a
/// content area showing the active tab's rendered markdown and live-reload
/// polling.
pub fn render_app_page(files: &FileStore, active_id: Option<&str>, theme: &str, port: u16) -> (page: String)
    requires
        files.wf(),
    ensures
        page@ == app_page_spec(files.order(), files@, opt_str_view(active_id), theme@, port),
{
    let ghost ids = files.order();
    let ghost m = files@;
    let ghost active = opt_str_view(active_id);
    let is_dark = str_eq(theme, "dark");
    let tabs = tabs_html(files, active_id);
    let list = files_json(files);
    let requested: Option<usize> = match active_id {
        Some(a) => files.position_of(a),
        None => None,
    };
    let resolved: Option<usize> = match requested {
        Some(i) => Some(i),
        None => if files.len() > 0 {
            Some(0)
        } else {
            None
        },
    };
    let empty = String::new();
    let (content, active_str) = match resolved {
        Some(i) => {
            let id = files.id_at(i);
            let e = files.entry_at(i);
            (render_content(e.content.as_str()), id.as_str())
        },
        None => (String::new(), empty.as_str()),
    };
    assert(match resolve_active(ids, m, active) {
        Some(id) => active_str@ == id && content@ == preview_html(m[id].content),
        None => active_str@ == Seq::<char>::empty() && content@ == Seq::<char>::empty(),
    });
    let mut fields: Vec<(String, String)> = Vec::new();
    push_field(&mut fields, "__TABS__", tabs.as_str());
    push_field(&mut fields, "__CONTENT__", content.as_str());
    push_field(&mut fields, "__FILES_JSON__", list.as_str());
    push_field(&mut fields, "__ACTIVE_ID__", active_str);
    push_field(&mut fields, "__THEME__", theme);
    push_field(&mut fields, "__VERSION__", APP_VERSION);
    let port_text = decimal(port as u64);
    push_field(&mut fields, "__PORT__", port_text.as_str());
    push_colors(&mut fields, is_dark);
    assert(fields_view(fields@) =~= page_fields(ids, m, active, theme@, port));
    fill_template(APP_TEMPLATE, &fields)
}

/// Law: the page shows an open file whenever one is open: the requested file
/// if it is open, else the first; and none only when no file is open.
pub proof fn law_page_shows_open_file(files: FileStore, active: Option<Seq<char>>)
    requires
        files.wf(),
    ensures
        resolve_active(files.order(), files@, active) matches Some(x) ==> files@.contains_key(x),
        resolve_active(files.order(), files@, active) is None <==> files.order().len() == 0,
        active matches Some(a) && files@.contains_key(a) ==> resolve_active(files.order(), files@, active) == active,
{
    files.lemma_order_is_keys();
    if files.order().len() > 0 {
        assert(files.order().contains(files.order()[0]));
    }
}

/// `fields` fills the placeholder `name`, every time it names it, with `value`.
pub open spec fn fills(fields: Seq<(Seq<char>, Seq<char>)>, name: Seq<char>, value: Seq<char>) -> bool {
    &&& exists|i: int| 0 <= i < fields.len() && #[trigger] fields[i].0 == name
    &&& forall|i: int| 0 <= i < fields.len() && #[trigger] fields[i].0 == name ==> fields[i].1 == value
}

/// Law: the page is filled with what the open files give: the tab bar of
/// every open file in tab order, the JSON list of every open file (one
/// `{id, name}` object each, in tab order) for the page's script, the
/// rendered markdown and id of the file shown (none when no file is open),
/// the theme and the port.
pub proof fn law_page_fields(
    ids: Seq<Seq<char>>,
    m: Map<Seq<char>, EntrySpec>,
    active: Option<Seq<char>>,
    theme: Seq<char>,
    port: u16,
)
    ensures
        fills(page_fields(ids, m, active, theme, port), "__TABS__"@, tabs_spec(ids, m, active, ids.len())),
        fills(
            page_fields(ids, m, active, theme, port),
            "__FILES_JSON__"@,
            "["@ + file_list_spec(ids, m, ids.len()) + "]"@,
        ),
        fills(
            page_fields(ids, m, active, theme, port),
            "__CONTENT__"@,
            match resolve_active(ids, m, active) {
                Some(id) => preview_html(m[id].content),
                None => Seq::empty(),
            },
        ),
        fills(
            page_fields(ids, m, active, theme, port),
            "__ACTIVE_ID__"@,
            match resolve_active(ids, m, active) {
                Some(id) => id,
                None => Seq::empty(),
            },
        ),
        fills(page_fields(ids, m, active, theme, port), "__THEME__"@, theme),
        fills(page_fields(ids, m, active, theme, port), "__PORT__"@, decimal_spec(port as nat)),
{
    let f = page_fields(ids, m, active, theme, port);
    reveal_strlit("__TABS__");
    reveal_strlit("__CONTENT__");
    reveal_strlit("__FILES_JSON__");
    reveal_strlit("__ACTIVE_ID__");
    reveal_strlit("__THEME__");
    reveal_strlit("__VERSION__");
    reveal_strlit("__PORT__");
    reveal_strlit("__BG__");
    reveal_strlit("__FG__");
    reveal_strlit("__MUTED__");
    reveal_strlit("__BORDER__");
    reveal_strlit("__ACCENT__");
    reveal_strlit("__CODE_BG__");
    reveal_strlit("__PRE_BG__");
    reveal_strlit("__TABLE_HDR__");
    reveal_strlit("__TABLE_ALT__");
    reveal_strlit("__TAB_BG__");
    reveal_strlit("__TAB_ACTIVE_BG__");
    reveal_strlit("__TAB_HOVER_BG__");
    reveal_strlit("__TOOLBAR_BG__");
    assert(f.len() == 20);
    assert(f[0].0 == "__TABS__"@ && f[1].0 == "__CONTENT__"@ && f[2].0 == "__FILES_JSON__"@);
    assert(f[3].0 == "__ACTIVE_ID__"@ && f[4].0 == "__THEME__"@ && f[6].0 == "__PORT__"@);
    assert forall|i: int| 0 <= i < 20 && i != 0 implies #[trigger] f[i].0 != "__TABS__"@ by {
        assert(f[i].0.len() != 8 || f[i].0[2] != 'T' || f[i].0[5] != 'S');
    }
    assert forall|i: int| 0 <= i < 20 && i != 1 implies #[trigger] f[i].0 != "__CONTENT__"@ by {
        assert(f[i].0.len() != 11 || f[i].0[2] != 'C' || f[i].0[4] != 'N');
    }
    assert forall|i: int| 0 <= i < 20 && i != 2 implies #[trigger] f[i].0 != "__FILES_JSON__"@ by {
        assert(f[i].0.len() != 14 || f[i].0[2] != 'F');
    }
    assert forall|i: int| 0 <= i < 20 && i != 3 implies #[trigger] f[i].0 != "__ACTIVE_ID__"@ by {
        assert(f[i].0.len() != 13 || f[i].0[2] != 'A');
    }
    assert forall|i: int| 0 <= i < 20 && i != 4 implies #[trigger] f[i].0 != "__THEME__"@ by {
        assert(f[i].0.len() != 9 || f[i].0[2] != 'T');
    }
    assert forall|i: int| 0 <= i < 20 && i != 6 implies #[trigger] f[i].0 != "__PORT__"@ by {
        assert(f[i].0.len() != 8 || f[i].0[2] != 'P');
    }
}

/// Law: opening one more file adds its tab at the end of the tab bar and
/// its `{id, name}` object, after a comma when it is not the first, at the
/// end of the files list; what the earlier files give is unchanged.
pub proof fn law_lists_add_one_file(
    ids: Seq<Seq<char>>,
    m: Map<Seq<char>, EntrySpec>,
    active: Option<Seq<char>>,
    n: nat,
)
    ensures
        tabs_spec(ids, m, active, n + 1) == tabs_spec(ids, m, active, n) + tab_spec(
            ids[n as int],
            m[ids[n as int]].display_name,
            active == Some(ids[n as int]),
        ),
        file_list_spec(ids, m, n + 1) == file_list_spec(ids, m, n) + (if n == 0 {
            Seq::<char>::empty()
        } else {
            ","@
        }) + file_json_spec(ids[n as int], m[ids[n as int]].display_name),
        tabs_spec(ids, m, active, 0) == Seq::<char>::empty(),
        file_list_spec(ids, m, 0) == Seq::<char>::empty(),
{
    if n == 0 {
        assert(Seq::<char>::empty() + Seq::<char>::empty() + file_json_spec(ids[0], m[ids[0]].display_name)
            =~= file_json_spec(ids[0], m[ids[0]].display_name));
    }
}

} // verus!
