use tiny_serve::{build_reply, log_line, route, Reply, RouteEntry, RouteMatch, ServeContent};

fn file_route(route: &str, file: &str) -> RouteEntry {
    RouteEntry::FileRoute { route: route.to_string(), file: file.to_string(), content_type: None }
}

fn html() -> Option<String> {
    Some(String::from("text/html"))
}

#[test]
fn raw_content_for_every_path() {
    let content = ServeContent::RawContent(String::from("hello\nworld"));
    for path in ["/", "/a", "/deep/path.html", ""] {
        let m = route(&content, path);
        assert_eq!(RouteMatch::RawMatch(String::from("hello\nworld")), m);
        let r = build_reply(m, None);
        assert_eq!(Reply { status: 200, content_type: None, body: b"hello\nworld".to_vec() }, r);
        assert_eq!("text/plain; charset=UTF-8", r.header_content_type());
    }
}

#[test]
fn html_content_for_every_path() {
    let content = ServeContent::HtmlContent(String::from("<h1>é</h1>"));
    for path in ["/", "/x"] {
        let r = build_reply(route(&content, path), None);
        assert_eq!(200, r.status);
        assert_eq!(html(), r.content_type);
        assert_eq!("<h1>é</h1>".as_bytes().to_vec(), r.body);
        assert_eq!("text/html", r.header_content_type());
    }
}

#[test]
fn first_match_wins() {
    let content = ServeContent::RoutedContent(vec![file_route("/a", "a.html"), file_route(".", "")]);
    assert_eq!(RouteMatch::FileMatch(String::from("a.html")), route(&content, "/a"));
    assert_eq!(RouteMatch::FileMatch(String::from("b.html")), route(&content, "/b.html"));
}

#[test]
fn wildcard_shadows_later_routes() {
    let content = ServeContent::RoutedContent(vec![file_route(".", ""), file_route("/a", "a.html")]);
    assert_eq!(RouteMatch::FileMatch(String::from("a")), route(&content, "/a"));
}

#[test]
fn unmatched_path_is_not_found() {
    let content = ServeContent::RoutedContent(vec![file_route("/a", "a.html")]);
    let m = route(&content, "/b");
    assert_eq!(RouteMatch::NoMatch, m);
    let r = build_reply(m, Some(b"ignored".to_vec()));
    assert_eq!(Reply { status: 404, content_type: html(), body: vec![] }, r);
}

#[test]
fn empty_routes_not_found() {
    let content = ServeContent::RoutedContent(vec![]);
    assert_eq!(RouteMatch::NoMatch, route(&content, "/"));
    let content = ServeContent::PageContent(vec![]);
    assert_eq!(RouteMatch::NoMatch, route(&content, "/"));
}

#[test]
fn missing_wildcard_file_is_not_found() {
    let content = ServeContent::RoutedContent(vec![file_route(".", "")]);
    let m = route(&content, "/missing.html");
    assert_eq!(RouteMatch::FileMatch(String::from("missing.html")), m);
    let r = build_reply(m, None);
    assert_eq!(404, r.status);
    assert_eq!(html(), r.content_type);
    assert!(r.body.is_empty());
}

#[test]
fn file_bytes_served_as_html() {
    let m = RouteMatch::FileMatch(String::from("a.html"));
    let r = build_reply(m, Some(vec![0, 159, 146, 150]));
    assert_eq!(Reply { status: 200, content_type: html(), body: vec![0, 159, 146, 150] }, r);
}

#[test]
fn named_pages_match_exactly() {
    let content = ServeContent::PageContent(vec![String::from("chapter1.html"), String::from("chapter2.html")]);
    assert_eq!(RouteMatch::FileMatch(String::from("chapter2.html")), route(&content, "/chapter2.html"));
    assert_eq!(RouteMatch::NoMatch, route(&content, "/chapter3.html"));
    assert_eq!(RouteMatch::NoMatch, route(&content, "chapter1.htm"));
}

#[test]
fn wildcard_page_serves_any_file() {
    let content = ServeContent::PageContent(vec![String::from(".")]);
    assert_eq!(RouteMatch::FileMatch(String::from("dir/x.css")), route(&content, "/dir/x.css"));
}

#[test]
fn raw_route_defaults_and_overrides() {
    let content = ServeContent::RoutedContent(vec![
        RouteEntry::RawRoute {
            route: String::from("/plain"),
            content: String::from("text"),
            content_type: None,
            status: None,
        },
        RouteEntry::RawRoute {
            route: String::from("/gone"),
            content: String::from("bye"),
            content_type: Some(String::from("application/json")),
            status: Some(410),
        },
    ]);
    let r = build_reply(route(&content, "/plain"), None);
    assert_eq!(Reply { status: 200, content_type: None, body: b"text".to_vec() }, r);
    let r = build_reply(route(&content, "/gone"), None);
    assert_eq!(
        Reply { status: 410, content_type: Some(String::from("application/json")), body: b"bye".to_vec() },
        r
    );
    assert_eq!("application/json", r.header_content_type());
}

#[test]
fn request_log_line() {
    assert_eq!("200: GET /index.html", log_line(200, "GET", "/index.html"));
    assert_eq!("404: POST /", log_line(404, "POST", "/"));
    assert_eq!("7: HEAD /x", log_line(7, "HEAD", "/x"));
}
