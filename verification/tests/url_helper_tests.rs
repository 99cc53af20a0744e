use kg_passgen::url_helper::{get_host, pick_domain, pick_host};

#[test]
fn test_get_host_with_strip_subdomain() {
    let url = "https://sub.example.co.uk/path";
    let host = get_host(url, &true);
    assert_eq!(host, "example.co.uk");
}

#[test]
fn test_get_host_without_strip_subdomain() {
    let url = "https://sub.example.co.uk/path";
    let host = get_host(url, &false);
    assert_eq!(host, "sub.example.co.uk");
}

#[test]
fn test_get_host_invalid_url() {
    let url = "not a valid url";
    let host = get_host(url, &true);
    assert_eq!(host, "not a valid url");
}

#[test]
fn host_is_not_trimmed() {
    assert_eq!(get_host("  padded  ", &true), "  padded  ");
    assert_eq!(get_host("  padded  ", &false), "  padded  ");
}

#[test]
fn url_without_host_stands_for_itself() {
    assert_eq!(get_host("mailto:someone@example.com", &false), "mailto:someone@example.com");
    assert_eq!(get_host("data:text/plain,Stuff", &false), "data:text/plain,Stuff");
}

#[test]
fn minimal_host_is_kept() {
    assert_eq!(get_host("https://example.com/login?next=1", &true), "example.com");
    assert_eq!(get_host("https://localhost:8080/", &false), "localhost");
}

#[test]
fn deeper_subdomains_are_stripped() {
    assert_eq!(get_host("https://a.b.c.example.com/", &true), "example.com");
    assert_eq!(get_host("https://a.b.c.example.com/", &false), "a.b.c.example.com");
}

#[test]
fn host_is_lowercased_by_the_parser() {
    assert_eq!(get_host("HTTPS://WWW.Example.COM/Path", &false), "www.example.com");
}

#[test]
fn pick_host_prefers_the_parsed_host() {
    assert_eq!(pick_host(Some(String::from("example.org")), "https://example.org/"), "example.org");
    assert_eq!(pick_host(None, "unix:/run/foo.socket"), "unix:/run/foo.socket");
}

#[test]
fn pick_domain_prefers_the_domain() {
    assert_eq!(pick_domain(Some(String::from("example.org")), String::from("www.example.org")), "example.org");
    assert_eq!(pick_domain(None, String::from("localhost")), "localhost");
}
