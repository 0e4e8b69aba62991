use health_monitor::utils::net::{
    normalize_host, normalize_host_port, strip_scheme_and_path, to_chars,
};

fn pair(host: &str, port: u16) -> (String, u16) {
    (host.to_string(), port)
}

#[test]
fn url_with_scheme_port_and_path() {
    assert_eq!(normalize_host_port("https://example.com:8443/path", 443), pair("example.com", 8443));
}

#[test]
fn bare_host_takes_the_default_port() {
    assert_eq!(normalize_host_port("example.com", 80), pair("example.com", 80));
}

#[test]
fn bracketed_ipv6_with_port() {
    assert_eq!(normalize_host_port("[::1]:9090", 443), pair("::1", 9090));
}

#[test]
fn bracketed_ipv6_without_port() {
    assert_eq!(normalize_host_port("[::1]", 443), pair("::1", 443));
    assert_eq!(normalize_host_port("https://[2001:db8::7]/x", 443), pair("2001:db8::7", 443));
}

#[test]
fn bracketed_ipv6_with_unreadable_port_keeps_the_host() {
    assert_eq!(normalize_host_port("[::1]:http", 443), pair("::1", 443));
    assert_eq!(normalize_host_port("[::1]:70000", 443), pair("::1", 443));
    assert_eq!(normalize_host_port("[::1]:", 443), pair("::1", 443));
    assert_eq!(normalize_host_port("[::1]9090", 443), pair("::1", 443));
}

#[test]
fn unclosed_bracket_falls_back_to_the_last_colon() {
    assert_eq!(normalize_host_port("[::1", 443), pair("[:", 1));
    assert_eq!(normalize_host_port("[abc", 443), pair("[abc", 443));
}

#[test]
fn scheme_and_path_are_stripped() {
    assert_eq!(strip_scheme_and_path("http://a.b:1/c/d"), "a.b:1");
    assert_eq!(strip_scheme_and_path("a.b/c://d"), "d");
    assert_eq!(strip_scheme_and_path("tcp://host"), "host");
    assert_eq!(strip_scheme_and_path("host/path"), "host");
    assert_eq!(strip_scheme_and_path("http://"), "");
    assert_eq!(strip_scheme_and_path("://"), "");
    assert_eq!(strip_scheme_and_path(""), "");
    assert_eq!(strip_scheme_and_path("/only/path"), "");
    assert_eq!(strip_scheme_and_path("a://b://c/d"), "b:");
    assert_eq!(strip_scheme_and_path(":/"), ":");
}

#[test]
fn port_must_be_a_number_of_sixteen_bits() {
    assert_eq!(normalize_host_port("host:65535", 1), pair("host", 65535));
    assert_eq!(normalize_host_port("host:65536", 1), pair("host:65536", 1));
    assert_eq!(normalize_host_port("host:0", 1), pair("host", 0));
    assert_eq!(normalize_host_port("host:", 1), pair("host:", 1));
    assert_eq!(normalize_host_port("host:8o", 1), pair("host:8o", 1));
    assert_eq!(normalize_host_port("host:-1", 1), pair("host:-1", 1));
    assert_eq!(normalize_host_port("host:+80", 1), pair("host", 80));
    assert_eq!(normalize_host_port("host:+", 1), pair("host:+", 1));
    assert_eq!(normalize_host_port("host:00080", 1), pair("host", 80));
    assert_eq!(normalize_host_port("host: 80", 1), pair("host: 80", 1));
    assert_eq!(normalize_host_port("host:99999999999999999999999", 1), pair("host:99999999999999999999999", 1));
    assert_eq!(normalize_host_port("host:٣", 1), pair("host:٣", 1));
}

#[test]
fn port_reading_agrees_with_the_standard_parser() {
    let texts = [
        "", "0", "1", "9", "10", "080", "443", "8080", "65535", "65536", "65540", "99999", "100000",
        "+", "+0", "+1", "++1", "-", "-0", "-1", "1+", "1 ", " 1", "1a", "a1", "0x10", "1_000",
        "00000000000000000000065535", "00000000000000000000065536", "+65535", "+65536", "6553５",
        "12345678901234567890", "4294967296", "4294967295",
    ];
    for text in texts {
        let raw = format!("h:{}", text);
        let expected = match text.parse::<u16>() {
            Ok(port) => ("h".to_string(), port),
            Err(_) => (raw.clone(), 7),
        };
        assert_eq!(normalize_host_port(&raw, 7), expected);
    }
}

#[test]
fn last_colon_splits() {
    assert_eq!(normalize_host_port("a:b:80", 1), pair("a:b", 80));
    assert_eq!(normalize_host_port("user:pw@host:21", 1), pair("user:pw@host", 21));
    assert_eq!(normalize_host_port(":80", 1), pair("", 80));
    assert_eq!(normalize_host_port("::1", 9), pair(":", 1));
}

#[test]
fn empty_text_gives_an_empty_host() {
    assert_eq!(normalize_host_port("", 5), pair("", 5));
    assert_eq!(normalize_host(""), "");
}

#[test]
fn positions_are_counted_in_characters() {
    assert_eq!(normalize_host_port("http://bücher.example:81/ä", 80), pair("bücher.example", 81));
    assert_eq!(normalize_host_port("[ü]:5", 80), pair("ü", 5));
    assert_eq!(normalize_host("日本語.jp:8080/パス"), "日本語.jp");
    assert_eq!(to_chars("aß日"), vec!['a', 'ß', '日']);
}

#[test]
fn host_alone() {
    assert_eq!(normalize_host("https://example.com:8443/path"), "example.com");
    assert_eq!(normalize_host("example.com"), "example.com");
    assert_eq!(normalize_host("[::1]:9090"), "::1");
    assert_eq!(normalize_host("[::1]"), "::1");
    assert_eq!(normalize_host("example.com:http"), "example.com:http");
    assert_eq!(normalize_host("http://a.b:1/c/d"), "a.b");
}

#[test]
fn host_does_not_depend_on_the_default_port() {
    let texts = ["https://example.com:8443/path", "example.com", "[::1]:9090", "[::1", "a:b", ""];
    for text in texts {
        for port in [0u16, 80, 443, 65535] {
            assert_eq!(normalize_host_port(text, port).0, normalize_host(text));
        }
    }
}
