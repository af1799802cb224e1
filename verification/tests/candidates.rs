use proxy_pipeline::candidate::{parse_candidate, parse_proxies, FormatError, Proxy};

fn pairs(candidates: &[Proxy]) -> Vec<(String, String)> {
    candidates.iter().map(|p| (p.ip.clone(), p.port.clone())).collect()
}

fn pair(ip: &str, port: &str) -> (String, String) {
    (ip.to_string(), port.to_string())
}

#[test]
fn keeps_only_the_well_formed_line() {
    let found = parse_proxies("1.2.3.4:8080\nbad\n:9999\n5.6.7.8:");
    assert_eq!(pairs(&found), vec![pair("1.2.3.4", "8080")]);
}

#[test]
fn empty_body_has_no_candidates() {
    assert!(parse_proxies("").is_empty());
    assert!(parse_proxies("\n\n\n").is_empty());
    assert!(parse_proxies("no separator here").is_empty());
}

#[test]
fn keeps_order_and_duplicates() {
    let found = parse_proxies("b:2\na:1\nb:2\n");
    assert_eq!(pairs(&found), vec![pair("b", "2"), pair("a", "1"), pair("b", "2")]);
}

#[test]
fn last_line_needs_no_terminator() {
    let found = parse_proxies("10.0.0.1:80\n10.0.0.2:81");
    assert_eq!(pairs(&found), vec![pair("10.0.0.1", "80"), pair("10.0.0.2", "81")]);
}

#[test]
fn carriage_return_belongs_to_the_terminator() {
    let found = parse_proxies("10.0.0.1:80\r\n10.0.0.2:81\r\n");
    assert_eq!(pairs(&found), vec![pair("10.0.0.1", "80"), pair("10.0.0.2", "81")]);
}

#[test]
fn line_of_colon_and_carriage_return_is_dropped() {
    let found = parse_proxies("1.1.1.1:\r\n2.2.2.2:2\r\n");
    assert_eq!(pairs(&found), vec![pair("2.2.2.2", "2")]);
}

#[test]
fn only_one_carriage_return_is_stripped() {
    let found = parse_proxies("h:1\r\r\nk:2");
    assert_eq!(pairs(&found), vec![pair("h", "1\r"), pair("k", "2")]);
}

#[test]
fn bare_carriage_return_ends_no_line() {
    let found = parse_proxies("h:1\rk:2");
    assert_eq!(pairs(&found), vec![pair("h", "1\rk:2")]);
}

#[test]
fn splits_at_the_first_colon_only() {
    let found = parse_proxies("1.2.3.4:8080:elite:US\n");
    assert_eq!(pairs(&found), vec![pair("1.2.3.4", "8080:elite:US")]);
}

#[test]
fn keeps_spaces_and_unchecked_ports() {
    let found = parse_proxies(" host : not a port \n");
    assert_eq!(pairs(&found), vec![pair(" host ", " not a port ")]);
}

#[test]
fn handles_text_outside_ascii() {
    let found = parse_proxies("h\u{f6}st:\u{4e00}\n\u{1f980}\n");
    assert_eq!(pairs(&found), vec![pair("h\u{f6}st", "\u{4e00}")]);
}

#[test]
fn agrees_with_the_standard_line_splitter() {
    let body = "a:1\r\nb\n\nc:3:x\r\n:4\nd:\ne:5\r";
    let expected: Vec<(String, String)> = body
        .lines()
        .filter_map(|l| l.split_once(':'))
        .filter(|(ip, port)| !ip.is_empty() && !port.is_empty())
        .map(|(ip, port)| pair(ip, port))
        .collect();
    assert_eq!(pairs(&parse_proxies(body)), expected);
    assert_eq!(expected.len(), 3);
}

#[test]
fn single_candidate_is_split_at_the_first_colon() {
    let p = parse_candidate("127.0.0.1:8080").unwrap();
    assert_eq!((p.ip.as_str(), p.port.as_str()), ("127.0.0.1", "8080"));
    let q = parse_candidate("a:b:c").unwrap();
    assert_eq!((q.ip.as_str(), q.port.as_str()), ("a", "b:c"));
}

#[test]
fn single_candidate_without_colon_is_malformed() {
    assert_eq!(parse_candidate("127.0.0.1").err(), Some(FormatError::MissingSeparator));
    assert_eq!(parse_candidate("").err(), Some(FormatError::MissingSeparator));
    assert_eq!(parse_candidate("bad").err(), Some(FormatError::MissingSeparator));
}

#[test]
fn single_candidate_needs_an_address() {
    assert_eq!(parse_candidate(":8080").err(), Some(FormatError::EmptyAddress));
    assert_eq!(parse_candidate(":9999").err(), Some(FormatError::EmptyAddress));
    assert_eq!(parse_candidate(":").err(), Some(FormatError::EmptyAddress));
    assert_eq!(parse_candidate("::").err(), Some(FormatError::EmptyAddress));
}

#[test]
fn single_candidate_needs_a_port() {
    assert_eq!(parse_candidate("1.2.3.4:").err(), Some(FormatError::EmptyPort));
    assert_eq!(parse_candidate("5.6.7.8:").err(), Some(FormatError::EmptyPort));
    assert_eq!(parse_candidate("host:").err(), Some(FormatError::EmptyPort));
}

#[test]
fn single_candidate_is_read_as_a_line_of_a_list_is() {
    for text in ["1.2.3.4:8080", "bad", ":9999", "5.6.7.8:", "a:b:c", ":", "", " : ", "h:\r"] {
        let alone = parse_candidate(text).ok().map(|p| (p.ip, p.port));
        let listed = parse_proxies(text).pop().map(|p| (p.ip, p.port));
        assert_eq!(alone, listed, "on {:?}", text);
    }
}

#[test]
fn single_candidate_has_both_parts() {
    for text in ["a:1", "1.2.3.4:8080", " : ", "x:y:z"] {
        let p = parse_candidate(text).unwrap();
        assert!(!p.ip.is_empty() && !p.port.is_empty());
        assert_eq!(format!("{}:{}", p.ip, p.port), text);
    }
}

#[test]
fn clone_keeps_both_parts() {
    let p = parse_candidate("h:1").unwrap();
    let q = p.clone();
    assert_eq!((q.ip, q.port), (p.ip, p.port));
}
