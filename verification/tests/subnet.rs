use egress_proxy::allocator::{ephemeral_port, get_rand_ipv6, get_rand_ipv6_socket_addr};
use egress_proxy::subnet::{egress_address, host_bits, Subnet};

const PREFIX: u128 = 0x2001_19f0_6001_48e4_0000_0000_0000_0000;

#[test]
fn host_bits_of_common_lengths() {
    assert_eq!(host_bits(0), u128::MAX);
    assert_eq!(host_bits(1), u128::MAX >> 1);
    assert_eq!(host_bits(64), 0x0000_0000_0000_0000_ffff_ffff_ffff_ffff);
    assert_eq!(host_bits(127), 1);
    assert_eq!(host_bits(128), 0);
    assert_eq!(host_bits(200), 0);
}

#[test]
fn egress_address_joins_network_and_host_bits() {
    let random: u128 = 0xaaaa_bbbb_cccc_dddd_1111_2222_3333_4444;
    assert_eq!(
        egress_address(PREFIX, 64, random),
        0x2001_19f0_6001_48e4_1111_2222_3333_4444
    );
    assert_eq!(
        egress_address(PREFIX, 48, random),
        0x2001_19f0_6001_dddd_1111_2222_3333_4444
    );
    assert_eq!(
        egress_address(PREFIX, 127, u128::MAX),
        0x2001_19f0_6001_48e4_0000_0000_0000_0001
    );
}

#[test]
fn egress_address_clears_host_bits_of_the_prefix() {
    let prefix: u128 = 0x2001_19f0_6001_48e4_ffff_ffff_ffff_ffff;
    assert_eq!(egress_address(prefix, 64, 0), PREFIX);
    assert_eq!(egress_address(prefix, 64, 5), PREFIX | 5);
}

#[test]
fn egress_address_with_full_prefix_is_the_prefix() {
    let prefix: u128 = 0x2001_19f0_6001_48e4_0000_0000_0000_0042;
    assert_eq!(egress_address(prefix, 128, 0), prefix);
    assert_eq!(egress_address(prefix, 128, u128::MAX), prefix);
    assert_eq!(egress_address(prefix, 128, 0x1234_5678), prefix);
}

#[test]
fn egress_address_with_empty_prefix_is_the_random_value() {
    assert_eq!(egress_address(PREFIX, 0, 0), 0);
    assert_eq!(egress_address(PREFIX, 0, u128::MAX), u128::MAX);
    assert_eq!(egress_address(PREFIX, 0, 0x1234_5678), 0x1234_5678);
}

#[test]
fn random_addresses_stay_in_the_subnet() {
    for prefix_len in [0u8, 1, 32, 48, 64, 96, 127, 128] {
        let mask: u128 = if prefix_len == 0 {
            0
        } else {
            u128::MAX << (128 - prefix_len as u32)
        };
        for _ in 0..200 {
            let address = get_rand_ipv6(PREFIX, prefix_len);
            assert_eq!(address & mask, PREFIX & mask);
        }
    }
}

#[test]
fn random_addresses_differ_between_draws() {
    for prefix_len in [0u8, 64, 96, 120] {
        let first = get_rand_ipv6(PREFIX, prefix_len);
        let mut distinct = false;
        for _ in 0..1000 {
            if get_rand_ipv6(PREFIX, prefix_len) != first {
                distinct = true;
            }
        }
        assert!(distinct);
    }
}

#[test]
fn full_prefix_always_returns_the_prefix() {
    let prefix: u128 = 0x2001_19f0_6001_48e4_0000_0000_0000_0001;
    for _ in 0..1000 {
        assert_eq!(get_rand_ipv6(prefix, 128), prefix);
    }
}

#[test]
fn random_endpoints_stay_in_the_subnet() {
    let mask: u128 = u128::MAX << 64;
    let mut ports_differ = false;
    let (_, first_port) = get_rand_ipv6_socket_addr(PREFIX, 64);
    for _ in 0..500 {
        let (address, port) = get_rand_ipv6_socket_addr(PREFIX, 64);
        assert_eq!(address & mask, PREFIX);
        assert!(port >= 49152);
        if port != first_port {
            ports_differ = true;
        }
    }
    assert!(ports_differ);
}

#[test]
fn ephemeral_port_keeps_the_low_bits() {
    assert_eq!(ephemeral_port(0), 49152);
    assert_eq!(ephemeral_port(1), 49153);
    assert_eq!(ephemeral_port(0x3fff), 65535);
    assert_eq!(ephemeral_port(0x4000), 49152);
    assert_eq!(ephemeral_port(0x8001), 49153);
    assert_eq!(ephemeral_port(49152), 49152);
    assert_eq!(ephemeral_port(50000), 50000);
    assert_eq!(ephemeral_port(u16::MAX), 65535);
    assert_eq!(ephemeral_port(80), 49232);
}

#[test]
fn endpoints_of_a_single_host_keep_the_address() {
    let prefix: u128 = PREFIX | 9;
    for _ in 0..100 {
        let (address, port) = get_rand_ipv6_socket_addr(prefix, 128);
        assert_eq!(address, prefix);
        assert!(port >= 49152);
    }
}

#[test]
fn subnet_new_keeps_prefix_and_length() {
    let subnet = Subnet::new(PREFIX, 64).unwrap();
    assert_eq!(subnet.prefix(), PREFIX);
    assert_eq!(subnet.prefix_len(), 64);
}

#[test]
fn subnet_new_clears_host_bits() {
    let subnet = Subnet::new(PREFIX | 0xdead_beef, 64).unwrap();
    assert_eq!(subnet.prefix(), PREFIX);
    let all = Subnet::new(u128::MAX, 0).unwrap();
    assert_eq!(all.prefix(), 0);
    assert_eq!(all.prefix_len(), 0);
    let host = Subnet::new(u128::MAX, 128).unwrap();
    assert_eq!(host.prefix(), u128::MAX);
}

#[test]
fn subnet_new_refuses_a_length_above_128() {
    assert!(Subnet::new(PREFIX, 129).is_none());
    assert!(Subnet::new(PREFIX, 255).is_none());
    assert!(Subnet::new(PREFIX, 128).is_some());
}

#[test]
fn subnet_contains_its_addresses_only() {
    let subnet = Subnet::new(PREFIX, 64).unwrap();
    assert!(subnet.contains(PREFIX));
    assert!(subnet.contains(PREFIX | 0xffff_ffff_ffff_ffff));
    assert!(!subnet.contains(PREFIX + (1u128 << 64)));
    assert!(!subnet.contains(0));
    let everything = Subnet::new(0, 0).unwrap();
    assert!(everything.contains(u128::MAX));
    let single = Subnet::new(PREFIX | 7, 128).unwrap();
    assert!(single.contains(PREFIX | 7));
    assert!(!single.contains(PREFIX | 6));
}

#[test]
fn subnet_allocate_stays_inside() {
    let subnet = Subnet::new(PREFIX, 64).unwrap();
    for _ in 0..500 {
        assert!(subnet.contains(subnet.allocate()));
    }
    let single = Subnet::new(PREFIX | 7, 128).unwrap();
    for _ in 0..100 {
        assert_eq!(single.allocate(), PREFIX | 7);
    }
}

#[test]
fn subnet_parse_reads_cidr_notation() {
    let subnet = Subnet::parse("2001:19f0:6001:48e4::/64").unwrap();
    assert_eq!(subnet.prefix(), PREFIX);
    assert_eq!(subnet.prefix_len(), 64);
    let everything = Subnet::parse("::/0").unwrap();
    assert_eq!(everything.prefix(), 0);
    assert_eq!(everything.prefix_len(), 0);
    let single = Subnet::parse("2001:db8::1/128").unwrap();
    assert_eq!(single.prefix(), 0x2001_0db8_0000_0000_0000_0000_0000_0001);
    assert_eq!(single.prefix_len(), 128);
}

#[test]
fn subnet_parse_takes_a_bare_address_as_a_single_host() {
    let single = Subnet::parse("2001:db8::1").unwrap();
    assert_eq!(single.prefix(), 0x2001_0db8_0000_0000_0000_0000_0000_0001);
    assert_eq!(single.prefix_len(), 128);
}

#[test]
fn subnet_parse_refuses_what_is_no_ipv6_network() {
    assert!(Subnet::parse("").is_none());
    assert!(Subnet::parse("not a subnet").is_none());
    assert!(Subnet::parse("192.168.0.0/16").is_none());
    assert!(Subnet::parse("2001:db8::/129").is_none());
    assert!(Subnet::parse("2001:db8::/").is_none());
    assert!(Subnet::parse("2001:db8::1/64").is_none());
}
