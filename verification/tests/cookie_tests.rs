use rusted_wheel::sock::cookie::{parse_cookie_text, parse_cookies, put_cookie};

#[test]
fn cookies_are_read_from_the_header() {
    let c = parse_cookies(Some(b"a=1; bzwf_anon_wstx = abc ;c=d=e; a=2; lonely; =v".as_slice()));
    assert_eq!(c.get("a").map(|s| s.as_str()), Some("1"));
    assert_eq!(c.get("bzwf_anon_wstx").map(|s| s.as_str()), Some("abc"));
    assert_eq!(c.get("c").map(|s| s.as_str()), Some("d"));
    assert_eq!(c.get("").map(|s| s.as_str()), Some("v"));
    assert_eq!(c.get("lonely"), None);
    assert_eq!(c.get("x"), None);
}

#[test]
fn missing_or_broken_headers_hold_no_cookie() {
    assert_eq!(parse_cookies(None).get("a"), None);
    assert_eq!(parse_cookies(Some([0xffu8, b'a', b'=', b'1'].as_slice())).get("a"), None);
    assert_eq!(parse_cookie_text("").get(""), None);
}

#[test]
fn cookie_values_are_trimmed_of_unicode_whitespace() {
    let c = parse_cookie_text("\u{a0}k\u{3000}=\tv\u{2028}");
    assert_eq!(c.get("k").map(|s| s.as_str()), Some("v"));
}

#[test]
fn put_cookie_adds_a_set_cookie_header() {
    let mut headers: Vec<(String, Vec<u8>)> = vec![(String::from("X"), vec![1])];
    put_cookie(String::from("name"), String::from("välue"), &mut headers);
    assert_eq!(headers.len(), 2);
    assert_eq!(headers[0], (String::from("X"), vec![1]));
    assert_eq!(headers[1].0, "Set-Cookie");
    assert_eq!(headers[1].1, "name=välue".as_bytes().to_vec());
}

#[test]
fn a_set_cookie_reads_back_as_that_cookie() {
    let mut headers: Vec<(String, Vec<u8>)> = Vec::new();
    put_cookie(String::from("bzwf_anon_wstx"), String::from("0ab1"), &mut headers);
    let c = parse_cookies(Some(headers[0].1.as_slice()));
    assert_eq!(c.get("bzwf_anon_wstx").map(|s| s.as_str()), Some("0ab1"));
}
