use proxy_pipeline::candidate::Proxy;
use proxy_pipeline::encoding::{encode_batch, encode_tag};
use proxy_pipeline::permissions::{parse_permissions, PermissionSetting};
use proxy_pipeline::text::push_decimal;

fn proxy(ip: &str, port: &str) -> Proxy {
    Proxy { ip: ip.to_string(), port: port.to_string() }
}

#[test]
fn tag_is_ip_colon_port_hyphen_index() {
    assert_eq!(encode_tag(&proxy("1.2.3.4", "8080"), 0), "1.2.3.4:8080-0");
    assert_eq!(encode_tag(&proxy("1.2.3.4", "8080"), 7), "1.2.3.4:8080-7");
    assert_eq!(encode_tag(&proxy("host", "1"), 49), "host:1-49");
}

#[test]
fn tag_takes_the_parts_as_they_are() {
    assert_eq!(encode_tag(&proxy("", ""), 3), ":-3");
    assert_eq!(encode_tag(&proxy("a:b", "c-d"), 12), "a:b:c-d-12");
}

#[test]
fn decimal_has_no_leading_zeros() {
    for n in [0usize, 1, 9, 10, 11, 99, 100, 101, 1000, 65535, 4294967295] {
        let mut text = String::from("n=");
        push_decimal(&mut text, n);
        assert_eq!(text, format!("n={}", n));
    }
    let mut text = String::new();
    push_decimal(&mut text, usize::MAX);
    assert_eq!(text, usize::MAX.to_string());
}

#[test]
fn batch_gives_one_field_per_candidate_in_order() {
    let batch = vec![proxy("a", "1"), proxy("b", "2"), proxy("a", "1")];
    let fields = encode_batch(&batch);
    let values: Vec<&str> = fields.iter().map(|f| f.value.as_str()).collect();
    assert_eq!(values, vec!["a:1-0", "b:2-1", "a:1-2"]);
    assert!(fields.iter().all(|f| f.name == "ip_addr[]"));
}

#[test]
fn batch_of_twelve_counts_past_nine() {
    let batch: Vec<Proxy> = (0..12).map(|_| proxy("h", "p")).collect();
    let fields = encode_batch(&batch);
    assert_eq!(fields.len(), 12);
    assert_eq!(fields[9].value, "h:p-9");
    assert_eq!(fields[10].value, "h:p-10");
    assert_eq!(fields[11].value, "h:p-11");
}

#[test]
fn empty_batch_gives_no_field() {
    assert!(encode_batch(&[]).is_empty());
}

#[test]
fn decimal_reads_back_as_the_same_number() {
    for n in [0usize, 5, 10, 49, 50, 1234567890, usize::MAX] {
        let mut text = String::new();
        push_decimal(&mut text, n);
        assert_eq!(parse_permissions(&text), PermissionSetting::Bits(n as u64));
    }
}
