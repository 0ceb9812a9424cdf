use egress_proxy::config::{listen_address, subnet_text};
use egress_proxy::subnet::Subnet;

#[test]
fn listen_address_defaults_where_none_is_configured() {
    assert_eq!(listen_address(None), "0.0.0.0:51080");
}

#[test]
fn listen_address_keeps_what_is_configured() {
    assert_eq!(listen_address(Some("127.0.0.1:8080".to_string())), "127.0.0.1:8080");
    assert_eq!(listen_address(Some(String::new())), "");
}

#[test]
fn subnet_defaults_where_none_is_configured() {
    assert_eq!(subnet_text(None), "2001:19f0:6001:48e4::/64");
    let subnet = Subnet::parse(&subnet_text(None)).unwrap();
    assert_eq!(subnet.prefix(), 0x2001_19f0_6001_48e4_0000_0000_0000_0000);
    assert_eq!(subnet.prefix_len(), 64);
}

#[test]
fn subnet_keeps_what_is_configured() {
    assert_eq!(subnet_text(Some("2001:db8::/32".to_string())), "2001:db8::/32");
}
