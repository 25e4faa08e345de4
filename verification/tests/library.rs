//! Scenario tests for the verified core: text helpers, URLs, the file store,
//! ids, the server's decisions, the page and the icon.

use markdownpreview::cli::{banner_mode, validate_theme};
use markdownpreview::clock::{current_timestamp, timestamp_from_nanos};
use markdownpreview::icon::{is_m_pixel_32, is_rounded_corner, m_icon_ico};
use markdownpreview::ids::{
    display_name_of, file_id_from_name, free_file_id, make_file_id, sanitize_id, stamped_file_id, unique_file_id,
};
use markdownpreview::renderer::{escape_html, escape_json, files_json, render_app_page, render_content, tabs_html};
use markdownpreview::server::{
    add_cli_file, body_text, check_reply, content_reply, handle_request, info_json, is_reload_event, open_file,
    open_path, open_request_path, refresh_file, route, strip_quotes, upload_fields, upload_file, Handled, ReplyKind, Route, UploadError,
    UploadRequest,
};
use markdownpreview::text::{chars_of, decimal, fill_template, replace_all, str_eq, string_from_range};
use markdownpreview::unicode::{hex_digit, push_utf8, trim};
use markdownpreview::url::{parse_url, url_decode};
use markdownpreview::{FileEntry, FileStore};

fn entry(content: &str, version: u64, path: Option<&str>, name: &str) -> FileEntry {
    FileEntry {
        content: content.to_string(),
        version,
        path: path.map(|p| p.to_string()),
        display_name: name.to_string(),
    }
}

fn done(h: Handled) -> (ReplyKind, String, Option<String>) {
    match h {
        Handled::Done(r, log) => (r.kind, r.body, log),
        Handled::NeedsBody(_) => panic!("expected an answer"),
    }
}

// ── text ──────────────────────────────────────────────────────

#[test]
fn decimal_formats_numbers() {
    assert_eq!(decimal(0), "0");
    assert_eq!(decimal(7), "7");
    assert_eq!(decimal(8080), "8080");
    assert_eq!(decimal(u64::MAX), u64::MAX.to_string());
}

#[test]
fn replace_all_is_left_to_right_without_overlap() {
    assert_eq!(replace_all("aaaa", "aa", "b"), "bb");
    assert_eq!(replace_all("aaa", "aa", "b"), "ba");
    assert_eq!(replace_all("x__T__y__T__", "__T__", "1"), "x1y1");
    assert_eq!(replace_all("none here", "zz", "q"), "none here");
    assert_eq!(replace_all("", "a", "b"), "");
    assert_eq!(replace_all("黑风雷", "风", "-"), "黑-雷");
}

#[test]
fn fill_template_replaces_in_order() {
    let fields = vec![
        ("__A__".to_string(), "x__B__".to_string()),
        ("__B__".to_string(), "y".to_string()),
        ("".to_string(), "ignored".to_string()),
    ];
    assert_eq!(fill_template("[__A__][__B__]", &fields), "[xy][y]");
}

#[test]
fn chars_and_ranges() {
    let v = chars_of("héllo");
    assert_eq!(v.len(), 5);
    assert_eq!(string_from_range(&v, 1, 4), "éll");
    assert!(str_eq("abc", "abc"));
    assert!(!str_eq("abc", "abd"));
}

// ── unicode ───────────────────────────────────────────────────

#[test]
fn push_utf8_matches_std() {
    for c in ['a', '\u{7f}', '\u{80}', 'é', '\u{7ff}', '\u{800}', '风', '\u{ffff}', '\u{10000}', '👨', '\u{10ffff}'] {
        let mut out = Vec::new();
        push_utf8(&mut out, c);
        let mut buf = [0u8; 4];
        assert_eq!(out.as_slice(), c.encode_utf8(&mut buf).as_bytes(), "char {:?}", c);
    }
}

#[test]
fn lossy_decoding() {
    assert_eq!(body_text(&vec![104, 105]), "hi");
    assert_eq!(body_text(&vec![0xff]), "\u{fffd}");
    assert_eq!(body_text(&"产品".as_bytes().to_vec()), "产品");
}

#[test]
fn hex_digits() {
    assert_eq!(hex_digit('0'), Some(0));
    assert_eq!(hex_digit('9'), Some(9));
    assert_eq!(hex_digit('a'), Some(10));
    assert_eq!(hex_digit('F'), Some(15));
    assert_eq!(hex_digit('g'), None);
    assert_eq!(hex_digit('%'), None);
}

#[test]
fn lowercase_and_trim() {
    assert_eq!(validate_theme("DaRk"), Some("dark".to_string()));
    assert_eq!(upload_fields("  \n x y \t", None).unwrap(), ("x y".to_string(), None));
    assert_eq!(upload_fields("\u{3000}\u{85}x\u{a0}\u{2029}", None).unwrap(), ("x".to_string(), None));
    assert_eq!(upload_fields("\u{200b}x", None).unwrap(), ("\u{200b}x".to_string(), None));
    assert_eq!(trim(""), "");
    assert_eq!(trim(" \t\n"), "");
    assert_eq!(trim("a"), "a");
    assert_eq!(trim("\u{2000} a b \u{205f}"), "a b");
    assert_eq!(trim("\u{1680}x\u{180e}"), "x\u{180e}");
    for s in ["", " a ", "\u{a0}\u{85}q\u{2028}", "x\u{200a}y", "\u{feff}z\u{3000}"] {
        assert_eq!(trim(s), s.trim());
    }
}

// ── urls ──────────────────────────────────────────────────────

#[test]
fn url_decode_plus_and_percent() {
    assert_eq!(url_decode("a+b"), "a b");
    assert_eq!(url_decode("a%20b"), "a b");
    assert_eq!(url_decode("%E4%BA%A7%E5%93%81.md"), "产品.md");
    assert_eq!(url_decode("plain-text_1.md"), "plain-text_1.md");
    assert_eq!(url_decode("产品"), "产品");
}

#[test]
fn url_decode_bad_escapes() {
    assert_eq!(url_decode("%zz1"), "?1");
    assert_eq!(url_decode("%4"), "?");
    assert_eq!(url_decode("%"), "?");
    assert_eq!(url_decode("x%g1y"), "x?y");
    assert_eq!(url_decode("%ff"), "\u{fffd}");
}

#[test]
fn parse_url_path_and_query() {
    let (path, q) = parse_url("/content?id=hello_md&x=1");
    assert_eq!(path, "/content");
    assert_eq!(q.get("id"), Some("hello_md".to_string()));
    assert_eq!(q.get("x"), Some("1".to_string()));
    assert_eq!(q.get("y"), None);
    assert_eq!(q.len(), 2);

    let (path, q) = parse_url("/");
    assert_eq!(path, "/");
    assert_eq!(q.len(), 0);
}

#[test]
fn parse_url_repeated_and_odd_pieces() {
    let (path, q) = parse_url("/check?id=a&id=b&&flag&v=x%3Dy=z");
    assert_eq!(path, "/check");
    assert_eq!(q.get("id"), Some("b".to_string()), "the last value wins");
    assert_eq!(q.get("flag"), Some("".to_string()));
    assert_eq!(q.get(""), Some("".to_string()));
    assert_eq!(q.get("v"), Some("x=y=z".to_string()));
    assert_eq!(q.len(), 5);

    let (_, q) = parse_url("/content?id=%E4%BA%A7");
    assert_eq!(q.get("id"), Some("产".to_string()));

    let (path, q) = parse_url("/?active=%E4%BA%A7%E5%93%81_md?x");
    assert_eq!(path, "/");
    assert_eq!(q.get("active"), Some("产品_md?x".to_string()));
}

// ── store ─────────────────────────────────────────────────────

#[test]
fn store_insert_get_remove() {
    let mut s = FileStore::new();
    assert_eq!(s.len(), 0);
    s.insert("a".to_string(), entry("A", 1, None, "a.md"));
    s.insert("b".to_string(), entry("B", 2, Some("/x/b.md"), "b.md"));
    assert_eq!(s.len(), 2);
    assert_eq!(s.get("a").unwrap().content, "A");
    assert_eq!(s.get("b").unwrap().version, 2);
    assert!(s.get("c").is_none());
    assert!(s.contains_key("b"));

    // Replacing keeps the position.
    s.insert("a".to_string(), entry("A2", 3, None, "a.md"));
    assert_eq!(s.len(), 2);
    assert_eq!(s.id_at(0), "a");
    assert_eq!(s.entry_at(0).content, "A2");

    assert!(s.remove("a"));
    assert!(!s.remove("a"));
    assert_eq!(s.len(), 1);
    assert_eq!(s.id_at(0), "b");
    assert_eq!(s.position_of("b"), Some(0));

    s.clear();
    assert_eq!(s.len(), 0);
}

#[test]
fn store_finds_and_updates() {
    let mut s = FileStore::new();
    s.insert("a".to_string(), entry("A", 1, Some("/p/a.md"), "same.md"));
    s.insert("b".to_string(), entry("B", 1, Some("/p/b.md"), "same.md"));
    assert_eq!(s.find_by_path("/p/b.md"), Some("b".to_string()));
    assert_eq!(s.find_by_path("/p/c.md"), None);
    assert_eq!(s.find_by_display_name("same.md"), Some("a".to_string()));
    assert!(s.update_content("b", "B2".to_string(), 9));
    assert!(!s.update_content("z", "Z".to_string(), 9));
    let b = s.get("b").unwrap();
    assert_eq!((b.content.as_str(), b.version, b.display_name.as_str()), ("B2", 9, "same.md"));
    assert_eq!(b.path, Some("/p/b.md".to_string()));
}

// ── ids ───────────────────────────────────────────────────────

#[test]
fn sanitize_ids() {
    assert_eq!(sanitize_id("my file (1).md"), "my_file__1__md");
    assert_eq!(sanitize_id("a-b_c"), "a-b_c");
    assert_eq!(sanitize_id(""), "");
    assert_eq!(sanitize_id(&sanitize_id("x y.z")), "x_y_z");
    assert_eq!(file_id_from_name(None), "unknown");
    assert_eq!(file_id_from_name(Some("r.md")), "r_md");
}

#[test]
fn make_file_id_without_file_name() {
    assert_eq!(make_file_id(&std::path::PathBuf::from("/")), "unknown");
    assert_eq!(make_file_id(&std::path::PathBuf::from("docs/..")), "unknown");
    assert_eq!(make_file_id(&std::path::PathBuf::from("/tmp/notes.txt")), "notes_txt");
    assert_eq!(display_name_of(&std::path::PathBuf::from("/tmp/my notes.md")), "my notes.md");
    assert_eq!(display_name_of(&std::path::PathBuf::from("/")), "unknown");
}

#[test]
fn unique_ids_count_up() {
    let mut s = FileStore::new();
    assert_eq!(unique_file_id("a_md", &s), "a_md");
    s.insert("a_md".to_string(), entry("", 0, None, "a.md"));
    assert_eq!(unique_file_id("a_md", &s), "a_md_1");
    s.insert("a_md_1".to_string(), entry("", 0, None, "a.md"));
    s.insert("a_md_3".to_string(), entry("", 0, None, "a.md"));
    assert_eq!(unique_file_id("a_md", &s), "a_md_2");
}

#[test]
fn unique_ids_fall_back_to_a_stamp() {
    let mut s = FileStore::new();
    s.insert("x".to_string(), entry("", 0, None, "x"));
    for i in 1..100u64 {
        s.insert(format!("x_{}", i), entry("", 0, None, "x"));
    }
    assert_eq!(free_file_id("x", &s), None);
    let id = unique_file_id("x", &s);
    assert!(id.starts_with("x_"));
    assert!(id[2..].chars().all(|c| c.is_ascii_digit()));
    assert!(id.len() > 4);
    assert!(!s.contains_key(&id));
}

#[test]
fn stamped_ids_skip_taken_stamps() {
    let mut s = FileStore::new();
    assert_eq!(stamped_file_id("x", &s, 7), "x_7");
    s.insert("x_7".to_string(), entry("", 0, None, "x"));
    s.insert("x_8".to_string(), entry("", 0, None, "x"));
    assert_eq!(stamped_file_id("x", &s, 7), "x_9");
    assert_eq!(stamped_file_id("x", &s, 8), "x_9");
    assert_eq!(stamped_file_id("x", &s, 6), "x_6");
    s.insert(format!("x_{}", u64::MAX), entry("", 0, None, "x"));
    assert_eq!(stamped_file_id("x", &s, u64::MAX), "x_0");
}

// ── clock ─────────────────────────────────────────────────────

#[test]
fn timestamps() {
    assert_eq!(timestamp_from_nanos(None), 0);
    assert_eq!(timestamp_from_nanos(Some(5)), 5);
    assert_eq!(timestamp_from_nanos(Some((1u128 << 64) + 3)), 3);
    assert!(current_timestamp() > 0);
}

// ── page ──────────────────────────────────────────────────────

#[test]
fn escaping() {
    assert_eq!(escape_html("<a & \"b\">"), "&lt;a &amp; &quot;b&quot;&gt;");
    assert_eq!(escape_html("&lt;"), "&amp;lt;");
    assert_eq!(escape_json("a\\b\"c"), "a\\\\b\\\"c");
}

#[test]
fn tab_bar_and_files_json() {
    let mut s = FileStore::new();
    s.insert("a_md".to_string(), entry("# A", 1, None, "<a>.md"));
    s.insert("b_md".to_string(), entry("# B", 1, None, "b\".md"));
    let tabs = tabs_html(&s, Some("b_md"));
    assert_eq!(
        tabs,
        "<div class=\"tab \" data-id=\"a_md\"><span class=\"tab-icon\">\u{1F4C4}</span><span class=\"tab-name\">&lt;a&gt;.md</span><span class=\"tab-close\" data-id=\"a_md\">\u{2715}</span></div>\
         <div class=\"tab active\" data-id=\"b_md\"><span class=\"tab-icon\">\u{1F4C4}</span><span class=\"tab-name\">b&quot;.md</span><span class=\"tab-close\" data-id=\"b_md\">\u{2715}</span></div>"
    );
    assert_eq!(files_json(&s), "[{\"id\":\"a_md\",\"name\":\"<a>.md\"},{\"id\":\"b_md\",\"name\":\"b\\\".md\"}]");
    assert_eq!(files_json(&FileStore::new()), "[]");
}

#[test]
fn page_shows_requested_or_first_file() {
    let mut s = FileStore::new();
    s.insert("a_md".to_string(), entry("# Alpha", 1, None, "a.md"));
    s.insert("b_md".to_string(), entry("# Beta", 1, None, "b.md"));
    let page = render_app_page(&s, Some("b_md"), "light", 9000);
    assert!(page.contains("<h1>Beta</h1>"));
    assert!(!page.contains("<h1>Alpha</h1>"));
    assert!(page.contains("let activeId = \"b_md\";"));
    assert!(page.contains("const SERVER_PORT = 9000;"));
    assert!(page.contains("#ffffff"));
    assert!(!page.contains("__"), "every placeholder is filled");

    // An unknown active id shows the first file, and no tab is active.
    let page = render_app_page(&s, Some("zzz"), "light", 9000);
    assert!(page.contains("<h1>Alpha</h1>"));
    assert!(page.contains("let activeId = \"a_md\";"));
    assert!(!page.contains("tab active"));

    let page = render_app_page(&FileStore::new(), Some("zzz"), "dark", 1);
    assert!(page.contains("let activeId = \"\";"));
    assert!(page.contains("let files = [];"));
    assert!(page.contains("data-theme=\"dark\""));
}

#[test]
fn render_content_smart_punctuation() {
    let html = render_content("\"quoted\" -- dash");
    assert!(html.contains("\u{201c}quoted\u{201d}"));
    assert!(html.contains("\u{2013}"));
    assert_eq!(render_content(""), "");
}

// ── server ────────────────────────────────────────────────────

#[test]
fn routes() {
    assert_eq!(route("GET", "/"), Route::AppPage);
    assert_eq!(route("GET", "/content"), Route::Content);
    assert_eq!(route("GET", "/check"), Route::Check);
    assert_eq!(route("POST", "/close"), Route::Close);
    assert_eq!(route("POST", "/open"), Route::Open);
    assert_eq!(route("POST", "/upload"), Route::Upload);
    assert_eq!(route("GET", "/info"), Route::Info);
    assert_eq!(route("POST", "/clear-all"), Route::ClearAll);
    assert_eq!(route("POST", "/"), Route::NotFound);
    assert_eq!(route("GET", "/close"), Route::NotFound);
    assert_eq!(route("GET", "/favicon.ico"), Route::NotFound);
}

#[test]
fn content_and_check_replies() {
    let mut s = FileStore::new();
    s.insert("a".to_string(), entry("*x*", 42, None, "a.md"));
    let r = content_reply(&s, Some("a"));
    assert_eq!((r.kind, r.body.as_str()), (ReplyKind::Html, "<p><em>x</em></p>\n"));
    let r = content_reply(&s, Some("b"));
    assert_eq!((r.kind, r.body.as_str()), (ReplyKind::Text, "ERROR: file not found"));
    let r = content_reply(&s, None);
    assert_eq!((r.kind, r.body.as_str()), (ReplyKind::Text, "ERROR: missing id parameter"));
    assert_eq!(check_reply(&s, Some("a")).body, "42");
    assert_eq!(check_reply(&s, Some("b")).body, "0");
    assert_eq!(check_reply(&s, None).body, "0");
}

#[test]
fn handle_requests() {
    let mut s = FileStore::new();
    s.insert("a".to_string(), entry("# A", 7, Some("C:\\docs\\a.md"), "a\".md"));
    s.insert("b".to_string(), entry("# B", 8, None, "b.md"));

    let (kind, body, _) = done(handle_request(&mut s, "GET", "/check?id=b", "light", 8080));
    assert_eq!((kind, body.as_str()), (ReplyKind::Text, "8"));

    let (kind, body, _) = done(handle_request(&mut s, "GET", "/info", "light", 8080));
    assert_eq!(kind, ReplyKind::Json);
    assert_eq!(
        body,
        "{\"files\":[{\"id\":\"a\",\"name\":\"a\\\".md\",\"path\":\"C:\\\\docs\\\\a.md\"},{\"id\":\"b\",\"name\":\"b.md\",\"path\":\"\"}]}"
    );
    assert_eq!(info_json(&FileStore::new()), "{\"files\":[]}");
    let mut q = FileStore::new();
    q.insert("k".to_string(), entry("", 0, Some("a\"b"), "n"));
    assert_eq!(info_json(&q), "{\"files\":[{\"id\":\"k\",\"name\":\"n\",\"path\":\"a\\\"b\"}]}");

    let (kind, body, _) = done(handle_request(&mut s, "GET", "/?active=b", "dark", 8080));
    assert_eq!(kind, ReplyKind::Html);
    assert!(body.contains("<h1>B</h1>"));

    let (kind, body, log) = done(handle_request(&mut s, "POST", "/close?id=a", "light", 8080));
    assert_eq!((kind, body.as_str()), (ReplyKind::Text, "OK"));
    assert_eq!(log, Some("  \u{2192} Closed file: a".to_string()));
    assert!(!s.contains_key("a"));
    let (_, body, log) = done(handle_request(&mut s, "POST", "/close?id=a", "light", 8080));
    assert_eq!((body.as_str(), log), ("OK", None));

    let (kind, body, _) = done(handle_request(&mut s, "GET", "/nope", "light", 8080));
    assert_eq!((kind, body.as_str()), (ReplyKind::NotFound, "404 Not Found"));

    match handle_request(&mut s, "POST", "/upload", "light", 8080) {
        Handled::NeedsBody(r) => assert_eq!(r, Route::Upload),
        Handled::Done(..) => panic!("upload reads its body"),
    }

    let (_, body, log) = done(handle_request(&mut s, "POST", "/clear-all", "light", 8080));
    assert_eq!(body, "OK");
    assert!(log.is_some());
    assert_eq!(s.len(), 0);
}

#[test]
fn open_requests() {
    assert_eq!(open_request_path("{...}", Some("/a.md".to_string())), Some("/a.md".to_string()));
    assert_eq!(open_request_path("  \"/x/y.md\"\n", None), Some("/x/y.md".to_string()));
    assert_eq!(open_request_path("  \"\" ", None), None);
    assert_eq!(open_request_path("", None), None);
    assert_eq!(strip_quotes("\"\"a\"b\""), "a\"b");
    assert_eq!(strip_quotes("\"\"\""), "");
}

#[test]
fn opening_a_path_twice_gives_one_tab() {
    let mut s = FileStore::new();
    let (id, existed) = open_file(&mut s, "/d/a.md".to_string(), "a_md", "a.md".to_string(), "A".to_string(), 1);
    assert_eq!((id.as_str(), existed), ("a_md", false));
    let (id2, existed2) = open_file(&mut s, "/d/a.md".to_string(), "a_md", "a.md".to_string(), "A2".to_string(), 2);
    assert_eq!((id2.as_str(), existed2), ("a_md", true));
    assert_eq!(s.len(), 1);
    assert_eq!(s.get("a_md").unwrap().content, "A");
    let (id3, existed3) = open_file(&mut s, "/e/a.md".to_string(), "a_md", "a.md".to_string(), "B".to_string(), 3);
    assert_eq!((id3.as_str(), existed3), ("a_md_1", false));
    assert_eq!(s.len(), 2);
}

#[test]
fn opening_by_path() {
    let p = std::path::PathBuf::from("/docs/my notes.md");
    let mut s = FileStore::new();
    let (id, existed) = open_path(&mut s, &p, "# A".to_string(), 4);
    assert_eq!((id.as_str(), existed), ("my_notes_md", false));
    let e = s.get("my_notes_md").unwrap();
    assert_eq!(e.path.as_deref(), Some("/docs/my notes.md"));
    assert_eq!((e.display_name.as_str(), e.content.as_str(), e.version), ("my notes.md", "# A", 4));
    let (id2, existed2) = open_path(&mut s, &p, "# B".to_string(), 5);
    assert_eq!((id2.as_str(), existed2), ("my_notes_md", true));
    let (id3, _) = open_path(&mut s, &std::path::PathBuf::from("/other/my notes.md"), "C".to_string(), 6);
    assert_eq!(id3, "my_notes_md_1");

    let mut c = FileStore::new();
    let id = add_cli_file(&mut c, &std::path::PathBuf::from("/r/产品说明书.md"), "x".to_string(), 9);
    assert_eq!(id, "产品说明书_md");
    let e = c.get(&id).unwrap();
    assert_eq!((e.path.as_deref(), e.display_name.as_str()), (Some("/r/产品说明书.md"), "产品说明书.md"));
    let again = add_cli_file(&mut c, &std::path::PathBuf::from("/s/产品说明书.md"), "y".to_string(), 10);
    assert_eq!(again, id);
    assert_eq!(c.len(), 1);
    assert_eq!(c.get(&id).unwrap().content, "y");
}

#[test]
fn uploads() {
    assert_eq!(upload_fields("", None).unwrap_err(), UploadError::EmptyBody);
    assert_eq!(UploadError::EmptyBody.message(), "ERROR: empty body");
    assert_eq!(upload_fields("   ", None).unwrap_err(), UploadError::EmptyContent);
    assert_eq!(UploadError::EmptyContent.message(), "ERROR: empty content");
    let req = UploadRequest { content: "".to_string(), name: Some("n.md".to_string()) };
    assert_eq!(upload_fields("{}", Some(req)).unwrap_err(), UploadError::EmptyContent);
    assert_eq!(upload_fields("  # raw \n", None).unwrap(), ("# raw".to_string(), None));
    let req = UploadRequest { content: "# J".to_string(), name: Some("j.md".to_string()) };
    assert_eq!(upload_fields("{..}", Some(req)).unwrap(), ("# J".to_string(), Some("j.md".to_string())));

    let mut s = FileStore::new();
    let (id, replaced) = upload_file(&mut s, "one".to_string(), Some("my notes.md".to_string()), 1);
    assert_eq!((id.as_str(), replaced), ("my_notes_md", false));
    let (id2, replaced2) = upload_file(&mut s, "two".to_string(), Some("my notes.md".to_string()), 2);
    assert_eq!((id2.as_str(), replaced2), ("my_notes_md", true));
    assert_eq!(s.len(), 1);
    let e = s.get("my_notes_md").unwrap();
    assert_eq!((e.content.as_str(), e.version, e.path.clone()), ("two", 2, None));
    let (id3, _) = upload_file(&mut s, "three".to_string(), None, 3);
    assert_eq!(id3, "untitled_md");
    assert_eq!(s.get("untitled_md").unwrap().display_name, "untitled.md");

    // A replacement stamped earlier than the file's version still raises it.
    let (_, replaced4) = upload_file(&mut s, "four".to_string(), Some("my notes.md".to_string()), 1);
    assert!(replaced4);
    assert_eq!(s.get("my_notes_md").unwrap().version, 3);
}

#[test]
fn refresh_and_reload_events() {
    let mut s = FileStore::new();
    s.insert("a".to_string(), entry("old", 1, Some("/a.md"), "a.md"));
    assert!(refresh_file(&mut s, "a", "new".to_string(), 2));
    assert!(!refresh_file(&mut s, "a", "new".to_string(), 3));
    assert_eq!(s.get("a").unwrap().version, 2);
    assert!(!refresh_file(&mut s, "b", "x".to_string(), 4));
    // A stamp that is not later than the version still gives a newer one.
    assert!(refresh_file(&mut s, "a", "newer".to_string(), 2));
    assert_eq!(s.get("a").unwrap().version, 3);
    assert!(refresh_file(&mut s, "a", "newest".to_string(), 0));
    assert_eq!(s.get("a").unwrap().version, 4);
    assert!(refresh_file(&mut s, "a", "later".to_string(), 100));
    assert_eq!(s.get("a").unwrap().version, 100);
    s.insert("m".to_string(), entry("m", u64::MAX, None, "m.md"));
    assert!(refresh_file(&mut s, "m", "m2".to_string(), 5));
    assert_eq!(s.get("m").unwrap().version, u64::MAX);

    let names = vec![None, Some("other.md".to_string()), Some("a.md".to_string())];
    assert!(is_reload_event(&names, "a.md", true));
    assert!(!is_reload_event(&names, "a.md", false));
    assert!(!is_reload_event(&names, "b.md", true));
    assert!(!is_reload_event(&vec![], "a.md", true));
}

// ── cli ───────────────────────────────────────────────────────

#[test]
fn themes_and_banner() {
    assert_eq!(validate_theme("light"), Some("light".to_string()));
    assert_eq!(validate_theme("DARK"), Some("dark".to_string()));
    assert_eq!(validate_theme("blue"), None);
    assert_eq!(banner_mode(0), "file picker (open in browser)");
    assert_eq!(banner_mode(3), "3 file(s) loaded + auto-reload");
}

// ── icon ──────────────────────────────────────────────────────

fn m_pixel_by_float(x: i32, y: i32) -> bool {
    if x >= 5 && x <= 8 && y >= 6 && y <= 27 { return true; }
    if x >= 23 && x <= 26 && y >= 6 && y <= 27 { return true; }
    if x >= 8 && x <= 15 && y >= 6 && y <= 27 {
        if (y - (3 * (x - 8) + 6)).abs() <= 2 { return true; }
    }
    if x >= 15 && x <= 23 && y >= 6 && y <= 27 {
        let expected = ((-21.0 / 8.0) * (x - 15) as f64 + 27.0) as i32;
        if (y - expected).abs() <= 2 { return true; }
    }
    if x >= 9 && x <= 22 && y >= 6 && y <= 8 { return true; }
    false
}

#[test]
fn m_pixels_match_the_float_formula() {
    for x in -2..40 {
        for y in -2..40 {
            assert_eq!(is_m_pixel_32(x, y), m_pixel_by_float(x, y), "pixel ({}, {})", x, y);
        }
    }
}

#[test]
fn rounded_corners() {
    assert!(is_rounded_corner(0, 0, 32, 32));
    assert!(!is_rounded_corner(3, 3, 32, 32));
    // The right and bottom corner circles are centred on pixel 29, so their
    // outermost pixels stay.
    assert!(!is_rounded_corner(31, 31, 32, 32));
    assert!(!is_rounded_corner(31, 0, 32, 32));
    assert!(is_rounded_corner(31, -1, 32, 32));
    // Any arguments are accepted; far outside the square nothing overflows.
    assert!(is_rounded_corner(i32::MIN, i32::MIN, 32, 32));
    assert!(is_rounded_corner(i32::MAX, i32::MAX, i32::MIN, i32::MIN));
    assert!(!is_rounded_corner(100, 100, 1000, 1000));
    assert!(!is_rounded_corner(0, 1, 32, 32));
    assert!(!is_rounded_corner(16, 0, 32, 32));
    assert!(!is_rounded_corner(1, 3, 32, 32));
}

#[test]
fn icon_file_layout() {
    let ico = m_icon_ico();
    assert_eq!(ico.len(), 4286);
    assert_eq!(&ico[0..6], &[0, 0, 1, 0, 1, 0]);
    assert_eq!(u32::from_le_bytes([ico[14], ico[15], ico[16], ico[17]]), 40 + 32 * 32 * 4 + 4 * 32);
    assert_eq!(u32::from_le_bytes([ico[18], ico[19], ico[20], ico[21]]), 22);
    // The top-left pixel (x 0, y 0), stored in the last row, is cut away:
    // transparent, and its mask bit set.
    let i = 62 + 4 * (32 * 31);
    assert_eq!(&ico[i..i + 4], &[0, 0, 0, 0]);
    assert_eq!(ico[4158 + 4 * 31] & 0x80, 0x80);
    assert_eq!(ico[4158] & 0x80, 0);
    // A blue pixel, stored blue, green, red, alpha.
    let i = 62 + 4 * (32 * (31 - 2) + 16);
    assert_eq!(&ico[i..i + 4], &[0xE0, 0x6A, 0x4A, 0xFF]);
    // A white pixel of the "M" (x 6, y 10).
    let i = 62 + 4 * (32 * (31 - 10) + 6);
    assert_eq!(&ico[i..i + 4], &[0xFF, 0xFF, 0xFF, 0xFF]);
}
