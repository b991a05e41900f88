use trotter::error::ActorError;
use trotter::url::{with_scheme, GeminiUrl, UrlParts, DEFAULT_PORT};

fn normal(raw: &str) -> GeminiUrl {
    GeminiUrl::normalize(raw, None).unwrap()
}

#[test]
fn scheme_is_put_in_front_once() {
    assert_eq!(with_scheme("example.org"), "gemini://example.org");
    assert_eq!(with_scheme("gemini://example.org"), "gemini://example.org");
    assert_eq!(with_scheme("x/gemini://y"), "gemini://x/gemini://y");
    assert_eq!(with_scheme("GEMINI://x"), "gemini://GEMINI://x");
    assert_eq!(with_scheme(""), "gemini://");
    assert_eq!(with_scheme(&with_scheme("a")), with_scheme("a"));
}

#[test]
fn url_without_path_gets_a_slash() {
    let url = normal("example.org");
    assert_eq!(url.domain(), "example.org");
    assert_eq!(url.port(), None);
    assert_eq!(url.path(), "/");
    assert_eq!(url.query(), None);
    assert_eq!(url.to_string(), "gemini://example.org/");
}

#[test]
fn url_parts_are_read() {
    let url = normal("gemini://example.org:1966/a/b.gmi");
    assert_eq!(url.domain(), "example.org");
    assert_eq!(url.port(), Some(1966));
    assert_eq!(url.port_or_default(), 1966);
    assert_eq!(url.path(), "/a/b.gmi");
    assert_eq!(url.to_string(), "gemini://example.org:1966/a/b.gmi");
    assert_eq!(url.address(), "example.org:1966");
    assert_eq!(url.request_line(), b"gemini://example.org:1966/a/b.gmi\r\n".to_vec());
}

#[test]
fn url_default_port() {
    let url = normal("example.org/x");
    assert_eq!(DEFAULT_PORT, 1965);
    assert_eq!(url.port_or_default(), 1965);
    assert_eq!(url.address(), "example.org:1965");
    assert_eq!(url.request_line(), b"gemini://example.org/x\r\n".to_vec());
}

#[test]
fn url_query_is_dropped_without_payload() {
    let url = normal("example.org/search?old=1");
    assert_eq!(url.query(), None);
    assert_eq!(url.to_string(), "gemini://example.org/search");
}

#[test]
fn url_payload_is_percent_encoded() {
    let url = GeminiUrl::normalize("example.org/search?old=1", Some("notice me! ü/~a-b_c.d%")).unwrap();
    assert_eq!(url.query(), Some("notice%20me%21%20%C3%BC%2F~a-b_c.d%25"));
    assert_eq!(url.to_string(), "gemini://example.org/search?notice%20me%21%20%C3%BC%2F~a-b_c.d%25");
    let empty = GeminiUrl::normalize("example.org", Some("")).unwrap();
    assert_eq!(empty.query(), Some(""));
    assert_eq!(empty.to_string(), "gemini://example.org/?");
}

#[test]
fn url_normalization_is_idempotent() {
    for raw in [
        "example.org",
        "gemini://example.org",
        "example.org:1965/a b",
        "gemini://example.org/ä?q#f",
        "x/gemini://y",
        "bücher.example",
        "GEMINI://Example.ORG/",
    ] {
        for input in [None, Some("in put")] {
            let once = GeminiUrl::normalize(raw, input).unwrap();
            let twice = GeminiUrl::normalize(&once.to_string(), input).unwrap();
            assert_eq!(once, twice, "{:?}", raw);
            assert_eq!(once.to_string(), twice.to_string());
        }
    }
}

#[test]
fn url_that_cannot_be_parsed() {
    assert!(matches!(GeminiUrl::normalize("exa mple.org", None), Err(ActorError::Url(_))));
    assert!(matches!(GeminiUrl::normalize("example.org:99999", None), Err(ActorError::Url(_))));
}

#[test]
fn url_without_domain() {
    assert!(matches!(GeminiUrl::normalize("", None), Err(ActorError::DomainErr)));
    assert!(matches!(GeminiUrl::normalize("/only/a/path", None), Err(ActorError::DomainErr)));
    assert!(matches!(GeminiUrl::normalize("gemini://[::1]/", None), Err(ActorError::DomainErr)));
}

#[test]
fn url_from_parts() {
    let parts = UrlParts { domain: Some("d.org".to_string()), port: Some(7), path: String::new() };
    let url = GeminiUrl::from_parts(parts, Some("q".to_string())).unwrap();
    assert_eq!(url.to_string(), "gemini://d.org:7/?q");
    let parts = UrlParts { domain: None, port: None, path: "/x".to_string() };
    assert!(matches!(GeminiUrl::from_parts(parts, None), Err(ActorError::DomainErr)));
}

#[test]
fn url_of_robots_txt() {
    let url = GeminiUrl::normalize("example.org:1970/deep/page", Some("x")).unwrap();
    let robots = url.robots_url();
    assert_eq!(robots.to_string(), "gemini://example.org/robots.txt");
    assert_eq!(robots.port(), None);
    assert_eq!(robots.clone(), robots);
}
