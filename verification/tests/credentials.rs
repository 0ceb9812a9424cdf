use egress_proxy::credentials::{
    authorization_credentials, basic_payload, find_colon, is_text, split_credentials, Credentials,
};

fn pair(username: &str, password: &str) -> Option<Credentials> {
    Some(Credentials { username: username.to_string(), password: password.to_string() })
}

#[test]
fn is_text_accepts_printable_ascii_and_tab() {
    assert!(is_text(b""));
    assert!(is_text(b"Basic dXNlcjpwYXNz"));
    assert!(is_text(b" ~\t"));
    assert!(!is_text(b"\n"));
    assert!(!is_text(&[31]));
    assert!(!is_text(&[127]));
    assert!(!is_text(&[0x80]));
    assert!(!is_text(b"Basic \x00"));
}

#[test]
fn basic_payload_is_what_follows_the_scheme() {
    assert_eq!(basic_payload(b"Basic dXNlcjpwYXNz"), Some(&b"dXNlcjpwYXNz"[..]));
    assert_eq!(basic_payload(b"Basic "), Some(&b""[..]));
    assert_eq!(basic_payload(b"Basic  x"), Some(&b" x"[..]));
}

#[test]
fn basic_payload_takes_the_scheme_off_once() {
    assert_eq!(basic_payload(b"Basic Basic dXNlcjpwYXNz"), Some(&b"Basic dXNlcjpwYXNz"[..]));
}

#[test]
fn basic_payload_needs_the_scheme() {
    assert_eq!(basic_payload(b""), None);
    assert_eq!(basic_payload(b"Basic"), None);
    assert_eq!(basic_payload(b"dXNlcjpwYXNz"), None);
    assert_eq!(basic_payload(b"Bearer dXNlcjpwYXNz"), None);
    assert_eq!(basic_payload(b"basic dXNlcjpwYXNz"), None);
    assert_eq!(basic_payload(b"BASIC dXNlcjpwYXNz"), None);
    assert_eq!(basic_payload(b" Basic dXNlcjpwYXNz"), None);
    assert_eq!(basic_payload(b"Basic\tdXNlcjpwYXNz"), None);
}

#[test]
fn basic_payload_needs_text() {
    assert_eq!(basic_payload(b"Basic dXNlcjpwYXNz\n"), None);
    assert_eq!(basic_payload(b"Basic \xff"), None);
}

#[test]
fn find_colon_gives_the_first() {
    assert_eq!(find_colon(b"user:pass"), Some(4));
    assert_eq!(find_colon(b"a:b:c"), Some(1));
    assert_eq!(find_colon(b":"), Some(0));
    assert_eq!(find_colon(b"::"), Some(0));
    assert_eq!(find_colon(b"user"), None);
    assert_eq!(find_colon(b""), None);
}

#[test]
fn split_credentials_parts_at_the_first_colon() {
    assert_eq!(split_credentials(b"user:pass".to_vec()), pair("user", "pass"));
    assert_eq!(split_credentials(b"user:pa:ss".to_vec()), pair("user", "pa:ss"));
    assert_eq!(split_credentials(b"user::".to_vec()), pair("user", ":"));
}

#[test]
fn split_credentials_allows_empty_parts() {
    assert_eq!(split_credentials(b":".to_vec()), pair("", ""));
    assert_eq!(split_credentials(b"user:".to_vec()), pair("user", ""));
    assert_eq!(split_credentials(b":pass".to_vec()), pair("", "pass"));
}

#[test]
fn split_credentials_needs_a_colon() {
    assert_eq!(split_credentials(b"".to_vec()), None);
    assert_eq!(split_credentials(b"userpass".to_vec()), None);
}

#[test]
fn split_credentials_needs_utf8() {
    assert_eq!(split_credentials(vec![0xff, b':', b'a']), None);
    assert_eq!(split_credentials(vec![b'a', b':', 0xc3]), None);
    assert_eq!(split_credentials(vec![0xc3, b':', 0xbc]), None);
}

#[test]
fn split_credentials_keeps_text_beyond_ascii() {
    assert_eq!(
        split_credentials("gr\u{fc}n:\u{4f60}\u{597d}".as_bytes().to_vec()),
        pair("gr\u{fc}n", "\u{4f60}\u{597d}")
    );
    assert_eq!(
        split_credentials("\u{1f600}:\u{1f600}:".as_bytes().to_vec()),
        pair("\u{1f600}", "\u{1f600}:")
    );
}

#[test]
fn authorization_credentials_reads_a_basic_header() {
    assert_eq!(authorization_credentials(b"Basic dXNlcjpwYXNz"), pair("user", "pass"));
    assert_eq!(authorization_credentials(b"Basic dXNlcjp3cm9uZ3Bhc3M="), pair("user", "wrongpass"));
    assert_eq!(authorization_credentials(b"Basic dXNlcjpwYTpzcw=="), pair("user", "pa:ss"));
    assert_eq!(authorization_credentials(b"Basic Og=="), pair("", ""));
}

#[test]
fn authorization_credentials_reads_a_payload_without_padding() {
    assert_eq!(authorization_credentials(b"Basic dXNlcjpwYXNzMQ=="), pair("user", "pass1"));
    assert_eq!(authorization_credentials(b"Basic dXNlcjpwYXNzMQ"), pair("user", "pass1"));
}

#[test]
fn authorization_credentials_needs_the_basic_scheme() {
    assert_eq!(authorization_credentials(b"dXNlcjpwYXNz"), None);
    assert_eq!(authorization_credentials(b"Bearer dXNlcjpwYXNz"), None);
    assert_eq!(authorization_credentials(b"Digest dXNlcjpwYXNz"), None);
    assert_eq!(authorization_credentials(b"basic dXNlcjpwYXNz"), None);
    assert_eq!(authorization_credentials(b""), None);
}

#[test]
fn authorization_credentials_needs_a_base64_payload() {
    assert_eq!(authorization_credentials(b"Basic user:pass"), None);
    assert_eq!(authorization_credentials(b"Basic dXNlcjpwYXNz!"), None);
    assert_eq!(authorization_credentials(b"Basic dXNlcjpwYXN"), None);
    assert_eq!(authorization_credentials(b"Basic Basic dXNlcjpwYXNz"), None);
    assert_eq!(authorization_credentials(b"Basic  dXNlcjpwYXNz"), None);
}

#[test]
fn authorization_credentials_needs_a_colon_in_the_payload() {
    assert_eq!(authorization_credentials(b"Basic dXNlcnBhc3M="), None);
    assert_eq!(authorization_credentials(b"Basic "), None);
}

#[test]
fn authorization_credentials_needs_a_utf8_payload() {
    assert_eq!(authorization_credentials(b"Basic /zph"), None);
}

#[test]
fn authorization_credentials_needs_text() {
    assert_eq!(authorization_credentials(b"Basic dXNlcjpwYXNz\r\n"), None);
    assert_eq!(authorization_credentials(b"Basic dXNlcjpwYXNz\x00"), None);
}
