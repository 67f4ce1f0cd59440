use hook::redirect::{location_or_error, redirect_to, serve_non_https, HookUrl, HookUrlError, UriParts};
use hook::reply::{empty_response, sent_status, serve_browser, serve_options, Reply};
use hook::request::{getter_type, request_getter, route, serve_app, GetterType, Request, Route};
use hook::text::{same_bytes, same_text, starts_with};
use hyper::header::{HeaderMap, HeaderName, HeaderValue};

fn request(method: &str, path: &str, fields: &[(&'static str, &'static str)]) -> Request {
    let mut headers = HeaderMap::new();
    for (name, value) in fields {
        headers.append(HeaderName::from_static(name), HeaderValue::from_static(value));
    }
    Request {
        method: method.to_string(),
        uri: path.to_string(),
        path: path.to_string(),
        target: Some(path.to_string()),
        headers,
    }
}

/// Where a plain request with the given path and query is sent.
fn redirected(hook: &HookUrl, target: Option<&str>) -> Reply {
    let mut plain = request("GET", "/", &[]);
    plain.target = target.map(|t| t.to_string());
    serve_non_https(hook, &plain)
}

fn location(reply: &Reply) -> String {
    assert_eq!(reply.head.status, 308);
    assert_eq!(reply.head.headers.len(), 1);
    assert_eq!(reply.head.headers[0].name, "location");
    assert_eq!(reply.body, b"Hint: add -L to your curl command\n");
    reply.head.headers[0].value.to_str().unwrap().to_string()
}

#[test]
fn requests_go_to_the_listeners() {
    for method in ["POST", "PUT", "PATCH", "DELETE", "HEAD", "PURGE", "post"] {
        assert_eq!(serve_app(&request(method, "/favicon.ico", &[("user-agent", "curl/8")])), Route::Post);
        assert_eq!(serve_app(&request(method, "/x", &[])), Route::Post);
    }
}

#[test]
fn options_are_answered() {
    assert_eq!(serve_app(&request("OPTIONS", "/x", &[("user-agent", "curl/8")])), Route::Options);
    let reply = serve_options(&request("OPTIONS", "/x", &[]).headers);
    assert_eq!(reply.head.status, 200);
    assert!(reply.head.headers.is_empty());
}

#[test]
fn the_icon_is_served_to_everyone() {
    assert_eq!(serve_app(&request("GET", "/favicon.ico", &[("user-agent", "curl/8")])), Route::Favicon);
    assert_eq!(route("GET", "/favicon.ico", GetterType::Other), Route::Favicon);
    assert_eq!(route("DELETE", "/favicon.ico", GetterType::Other), Route::Post);
}

#[test]
fn curl_and_event_streams_listen() {
    assert_eq!(
        serve_app(&request("GET", "/x", &[("user-agent", "curl/8.4.0")])),
        Route::Get(GetterType::Curl)
    );
    assert_eq!(
        serve_app(&request("GET", "/x", &[("accept", "text/event-stream"), ("user-agent", "curl/8")])),
        Route::Get(GetterType::EventStream)
    );
    assert_eq!(
        serve_app(&request("GET", "/x", &[("accept", "text/html"), ("accept", "text/event-stream")])),
        Route::Browser
    );
    assert_eq!(serve_app(&request("GET", "/x", &[("user-agent", "Mozilla/5.0 curl")])), Route::Browser);
    assert_eq!(request_getter(&request("GET", "/x", &[])), GetterType::Other);
}

#[test]
fn opaque_agents_are_not_curl() {
    let opaque = HeaderValue::from_bytes(b"curl\xff").unwrap();
    assert_eq!(getter_type(None, Some(&opaque)), GetterType::Other);
    assert_eq!(getter_type(None, Some(&HeaderValue::from_static("curl"))), GetterType::Curl);
    assert_eq!(getter_type(Some(&opaque), None), GetterType::Other);
    assert_eq!(
        getter_type(Some(&HeaderValue::from_static("text/event-stream, */*")), None),
        GetterType::Other
    );
}

#[test]
fn origin_is_allowed_as_it_came() {
    let mut headers = HeaderMap::new();
    headers.append("origin", HeaderValue::from_bytes(b"https://\xe9.test").unwrap());
    headers.append("origin", HeaderValue::from_static("https://second.test"));
    let reply = empty_response(&headers);
    assert_eq!(reply.head.headers.len(), 3);
    assert_eq!(reply.head.headers[0].value.as_bytes(), b"https://\xe9.test");
    assert_eq!(reply.head.headers[1].name, "access-control-allow-headers");
    assert_eq!(reply.head.headers[1].value, "snd-received, content-type");
    assert_eq!(reply.head.headers[2].name, "vary");
    assert_eq!(reply.head.headers[2].value, "Origin");
}

#[test]
fn browsers_get_the_page() {
    assert_eq!(serve_browser(Some("<p>\u{e9}</p>".to_string())), "<p>\u{e9}</p>".as_bytes());
    assert_eq!(serve_browser(None), b"<h1>error</h1>");
    assert_eq!(sent_status(true), 200);
    assert_eq!(sent_status(false), 500);
}

#[test]
fn plain_requests_are_redirected() {
    let hook = HookUrl::parse("https://hook.snd.one").ok().unwrap();
    assert_eq!(
        location(&redirected(&hook, Some("/my/hook?a=\"&b"))),
        "https://snd.one/error"
    );
    assert_eq!(
        location(&redirected(&hook, Some("/my/%20hook\"{}?a=1&b=?"))),
        "https://hook.snd.one/my/%20hook\"{}?a=1&b=?"
    );
    assert_eq!(location(&redirected(&hook, None)), "https://hook.snd.one/");
    assert_eq!(location(&redirected(&hook, Some("*"))), "https://hook.snd.one*");
    assert_eq!(location(&redirected(&hook, Some("/a#b"))), "https://hook.snd.one/a");
    assert_eq!(location(&redirected(&hook, Some("/a b"))), "https://snd.one/error");
}

#[test]
fn missing_path_is_the_root() {
    let hook = HookUrl::parse("https://h").ok().unwrap();
    assert_eq!(location(&redirected(&hook, Some("?x=1"))), "https://h/?x=1");
    assert_eq!(location(&redirected(&hook, Some("?"))), "https://h/?");
}

#[test]
fn only_path_and_query_count_for_the_redirection() {
    let hook = HookUrl::parse("https://h").ok().unwrap();
    let mut other = request("DELETE", "/p", &[("host", "evil.example")]);
    other.uri = "http://evil.example/p".to_string();
    assert_eq!(location(&serve_non_https(&hook, &other)), "https://h/p");
    assert_eq!(location(&serve_non_https(&hook, &request("GET", "/p", &[]))), "https://h/p");
}

#[test]
fn redirection_keeps_the_authority() {
    let hook = HookUrl::parse("http://user@localhost:3005/ignored").ok().unwrap();
    assert_eq!(
        location(&redirected(&hook, Some("/x"))),
        "https://user@localhost:3005/x"
    );
    assert_eq!(hook.url(), "http://user@localhost:3005/ignored");
}

#[test]
fn longest_target_is_redirected_whole() {
    let hook = HookUrl::parse("https://h").ok().unwrap();
    let target = format!("/{}?", "a".repeat(65_532));
    assert_eq!(location(&redirected(&hook, Some(&target))), format!("https://h{target}"));
}

#[test]
fn target_beyond_the_longest_may_be_answered_blank() {
    let hook = HookUrl::parse("https://h").ok().unwrap();
    let target = format!("/{}?\n", "a".repeat(65_534));
    let reply = redirected(&hook, Some(&target));
    assert_eq!(reply.head.status, 200);
    assert!(reply.head.headers.is_empty());
}

#[test]
fn location_must_fit_a_field() {
    let reply = redirect_to("https://a\n");
    assert_eq!(reply.head.status, 200);
    assert!(reply.head.headers.is_empty());
    assert!(reply.body.is_empty());
    assert_eq!(location(&redirect_to("https://a/")), "https://a/");
    assert_eq!(location_or_error(None), "https://snd.one/error");
    assert_eq!(location_or_error(Some("x".to_string())), "x");
}

#[test]
fn address_needs_an_authority() {
    assert!(matches!(HookUrl::parse("/only/a/path"), Err(HookUrlError::NoAuthority)));
    assert!(matches!(HookUrl::parse("http://a b"), Err(HookUrlError::Malformed(_))));
    assert!(matches!(HookUrl::parse(""), Err(HookUrlError::Malformed(_))));
    assert!(HookUrl::parse("localhost:3005").is_ok());
    let parts = UriParts { scheme: None, authority: Some("a:1".to_string()), host: None };
    assert!(matches!(HookUrl::from_parts("a:1", parts), Err(HookUrlError::NoAuthority)));
}

#[test]
fn https_address_has_a_certificate() {
    let path = |url: &str| HookUrl::parse(url).ok().unwrap().tls_config_path();
    assert_eq!(
        path("https://hook.snd.one:8443/x"),
        Some("/etc/letsencrypt/renewal/hook.snd.one.conf".to_string())
    );
    assert_eq!(path("http://hook.snd.one"), None);
    assert_eq!(path("hook.snd.one"), None);
}

#[test]
fn texts_are_compared() {
    assert!(same_text("\u{e9}", "\u{e9}"));
    assert!(!same_text("a", "ab"));
    assert!(same_bytes(b"", b""));
    assert!(!same_bytes(b"ab", b"ac"));
    assert!(starts_with(b"abc", b"ab"));
    assert!(!starts_with(b"a", b"ab"));
}
