use filehost::config::{load_rewrites, ConfigError};
use filehost::resolver::{path_from_req, resolve};
use filehost::responder::{plan_request, serve_file, Method, Reply, Step};
use filehost::rewrite::{replace_chars, RewriteTable};
use filehost::text::is_blank_str;

fn chars(s: &str) -> Vec<char> {
    s.chars().collect()
}

fn table(rules: &[(&str, &str)]) -> RewriteTable {
    let mut t = RewriteTable::new();
    for (from, to) in rules {
        assert!(t.add_rule(from.to_string(), to.to_string()));
    }
    t
}

#[test]
fn resolve_joins_root_and_path_without_rules() {
    let t = RewriteTable::new();
    assert_eq!(path_from_req("/index.html", "/srv/data", &t), Some("/srv/data/index.html".to_string()));
    assert_eq!(path_from_req("/a/b.txt", "data", &t), Some("data/a/b.txt".to_string()));
    assert_eq!(path_from_req("/", "data", &t), Some("data/".to_string()));
}

#[test]
fn resolve_adds_no_second_separator() {
    let t = RewriteTable::new();
    assert_eq!(path_from_req("/x", "data/", &t), Some("data/x".to_string()));
    assert_eq!(path_from_req("/x", "", &t), Some("x".to_string()));
}

#[test]
fn resolve_passes_parent_segments_and_unicode_through() {
    let t = RewriteTable::new();
    assert_eq!(path_from_req("/../etc/passwd", "data", &t), Some("data/../etc/passwd".to_string()));
    assert_eq!(path_from_req("/é ü.txt", "data", &t), Some("data/é ü.txt".to_string()));
}

#[test]
fn blank_paths_resolve_to_nothing() {
    let t = table(&[("a", "b")]);
    assert_eq!(path_from_req("", "data", &t), None);
    assert_eq!(path_from_req("   ", "data", &t), None);
    assert_eq!(path_from_req(" \t\n", "data", &RewriteTable::new()), None);
    assert_eq!(resolve("\u{a0}", "data", None), None);
    assert!(is_blank_str(""));
    assert!(is_blank_str(" \r\n"));
    assert!(!is_blank_str(" / "));
    assert!(is_blank_str("\u{3000}\u{2028}\u{85}"));
    assert!(!is_blank_str("\u{200b}"));
}

#[test]
fn empty_table_equals_no_table() {
    let t = RewriteTable::new();
    for p in ["/a.txt", "", "  ", "/x/y", "/"] {
        assert_eq!(resolve(p, "data", Some(&t)), resolve(p, "data", None));
    }
    assert_eq!(resolve("/a.txt", "data", None), Some("data/a.txt".to_string()));
}

#[test]
fn rewrite_replaces_every_occurrence() {
    let t = table(&[("a", "b")]);
    assert_eq!(path_from_req("/axa", "data", &t), Some("data/bxb".to_string()));
    assert_eq!(resolve("/axa", "data", Some(&t)), Some("data/bxb".to_string()));
}

#[test]
fn rewrite_rules_apply_in_order() {
    let t = table(&[("a", "b"), ("b", "c")]);
    assert_eq!(path_from_req("/ab", "d", &t), Some("d/cc".to_string()));
    let u = table(&[("b", "c"), ("a", "b")]);
    assert_eq!(path_from_req("/ab", "d", &u), Some("d/bc".to_string()));
}

#[test]
fn rewrite_matches_do_not_overlap() {
    assert_eq!(replace_chars(&chars("aaa"), &chars("aa"), &chars("b")), chars("ba"));
    assert_eq!(replace_chars(&chars("%20x%20"), &chars("%20"), &chars(" ")), chars(" x "));
    assert_eq!(replace_chars(&chars("abc"), &chars("abcd"), &chars("z")), chars("abc"));
}

#[test]
fn rewrite_with_empty_key_inserts_everywhere() {
    assert_eq!(replace_chars(&chars("ab"), &chars(""), &chars("x")), chars("xaxbx"));
    assert_eq!(replace_chars(&chars(""), &chars(""), &chars("x")), chars("x"));
}

#[test]
fn table_keeps_keys_unique() {
    let mut t = RewriteTable::new();
    assert!(t.add_rule("a".to_string(), "b".to_string()));
    assert!(!t.add_rule("a".to_string(), "c".to_string()));
    assert_eq!(t.len(), 1);
    assert!(t.has_key(&"a".to_string()));
    assert!(!t.has_key(&"c".to_string()));
    assert_eq!(path_from_req("/a", "d", &t), Some("d/b".to_string()));
}

#[test]
fn load_rewrites_reads_object_in_key_order() {
    let t = load_rewrites("{\"b\": \"c\", \"a\": \"b\"}").ok().unwrap();
    assert_eq!(t.len(), 2);
    assert_eq!(path_from_req("/a", "d", &t), Some("d/c".to_string()));
    let e = load_rewrites("{}").ok().unwrap();
    assert_eq!(e.len(), 0);
}

#[test]
fn load_rewrites_refuses_malformed_text() {
    for text in ["not json", "{\"a\": 1}", "[]", "{\"a\": \"b\"", ""] {
        assert!(matches!(load_rewrites(text), Err(ConfigError::Malformed)));
    }
}

#[test]
fn serving_existing_file_returns_its_bytes() {
    let r = serve_file("data/hello.txt", Some(b"hello".to_vec()));
    assert_eq!(r.body(), b"hello".to_vec());
    let empty = serve_file("data/empty.txt", Some(Vec::new()));
    assert_eq!(empty.body(), Vec::<u8>::new());
}

#[test]
fn missing_favicon_gets_empty_body() {
    let r = serve_file("data/favicon.ico", None);
    assert!(matches!(r, Reply::Silent));
    assert_eq!(r.body().len(), 0);
    assert!(matches!(serve_file("favicon.ico", None), Reply::Silent));
}

#[test]
fn missing_file_gets_not_found_text() {
    let r = serve_file("data/missing.txt", None);
    assert_eq!(r.body(), b"404 File not found".to_vec());
    assert!(matches!(serve_file("data/favicon.ico.bak", None), Reply::NotFound));
    assert!(matches!(serve_file("data/my-favicon.ico", None), Reply::NotFound));
}

#[test]
fn favicon_name_ignores_trailing_separators_and_dots() {
    assert!(matches!(serve_file("/srv/favicon.ico/", None), Reply::Silent));
    assert_eq!(serve_file("/srv/favicon.ico/", None).body().len(), 0);
    assert!(matches!(serve_file("data/favicon.ico//", None), Reply::Silent));
    assert!(matches!(serve_file("data/favicon.ico/.", None), Reply::Silent));
    assert!(matches!(serve_file("data/favicon.ico/./", None), Reply::Silent));
    assert!(matches!(serve_file("data/favicon.ico/..", None), Reply::NotFound));
    assert!(matches!(serve_file("data/.favicon.ico", None), Reply::NotFound));
    assert!(matches!(serve_file("/", None), Reply::NotFound));
    assert!(matches!(serve_file(".", None), Reply::NotFound));
}

#[test]
fn other_methods_are_refused_without_reading() {
    let t = RewriteTable::new();
    let s = plan_request(Method::Other, "/hello.txt", "data", &t);
    match s {
        Step::Respond(r) => assert_eq!(r.body(), b"Only GET-requests supported".to_vec()),
        Step::ReadFile(_) => panic!("a refused method must not read a file"),
    }
}

#[test]
fn get_reads_the_resolved_file() {
    let t = table(&[(".htm", ".html")]);
    match plan_request(Method::Get, "/a.htm", "data", &t) {
        Step::ReadFile(p) => assert_eq!(p, "data/a.html"),
        Step::Respond(_) => panic!("a GET on a path must read it"),
    }
    match plan_request(Method::Get, "  ", "data", &t) {
        Step::Respond(r) => assert_eq!(r.body(), b"404 File not found".to_vec()),
        Step::ReadFile(_) => panic!("a blank path must not be read"),
    }
}

#[test]
fn distinct_requests_get_their_own_contents() {
    let t = RewriteTable::new();
    let mut bodies = Vec::new();
    for (name, text) in [("a.txt", "first"), ("b.txt", "second"), ("c.txt", "third")] {
        let path = match plan_request(Method::Get, &format!("/{name}"), "data", &t) {
            Step::ReadFile(p) => p,
            Step::Respond(_) => panic!("expected a read"),
        };
        assert_eq!(path, format!("data/{name}"));
        bodies.push(serve_file(&path, Some(text.as_bytes().to_vec())).body());
    }
    assert_eq!(bodies, vec![b"first".to_vec(), b"second".to_vec(), b"third".to_vec()]);
}
