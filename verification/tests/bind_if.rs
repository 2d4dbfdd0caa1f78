use trust_dns_proto::bind_if::{
    bind_if4_option, bind_if6_option, bind_if_option, bind_result, IpVersion, Platform, IPPROTO_IP,
    IPPROTO_IPV6, IPV6_BOUND_IF, IPV6_UNICAST_IF, IP_BOUND_IF, IP_UNICAST_IF,
};

#[test]
fn option_numbers_are_the_platform_headers() {
    assert_eq!(IPPROTO_IP, 0);
    assert_eq!(IPPROTO_IPV6, 41);
    assert_eq!(IP_BOUND_IF, 25);
    assert_eq!(IPV6_BOUND_IF, 125);
    assert_eq!(IPV6_UNICAST_IF, 31);
    assert_eq!(IP_UNICAST_IF, IPV6_UNICAST_IF);
}

#[test]
fn macos_ipv4_uses_bound_if_in_host_order() {
    let opt = bind_if4_option(Platform::MacOs, 0x0102_0304, false);
    assert_eq!(opt.level, 0);
    assert_eq!(opt.name, 25);
    assert_eq!(opt.value, [4, 3, 2, 1]);
    let opt = bind_if4_option(Platform::MacOs, 0x0102_0304, true);
    assert_eq!(opt.value, [1, 2, 3, 4]);
}

#[test]
fn macos_ipv6_uses_ipv6_bound_if() {
    let opt = bind_if6_option(Platform::MacOs, 7, false);
    assert_eq!(opt.level, 41);
    assert_eq!(opt.name, 125);
    assert_eq!(opt.value, [7, 0, 0, 0]);
}

#[test]
fn windows_ipv4_is_network_order_on_any_host() {
    for host_big_endian in [false, true] {
        let opt = bind_if4_option(Platform::Windows, 7, host_big_endian);
        assert_eq!(opt.level, 0);
        assert_eq!(opt.name, 31);
        assert_eq!(opt.value, [0, 0, 0, 7]);
    }
}

#[test]
fn windows_ipv6_is_host_order() {
    let opt = bind_if_option(Platform::Windows, IpVersion::V6, 0xAABB_CCDD, false);
    assert_eq!(opt.level, 41);
    assert_eq!(opt.name, 31);
    assert_eq!(opt.value, [0xDD, 0xCC, 0xBB, 0xAA]);
}

#[test]
fn option_value_reads_back_as_the_index() {
    let host_big_endian = 1u32.to_ne_bytes()[0] == 0;
    for &index in &[0u32, 1, 255, 256, 0x0102_0304, u32::MAX] {
        let host = bind_if4_option(Platform::MacOs, index, host_big_endian);
        assert_eq!(u32::from_ne_bytes(host.value), index);
        let net = bind_if4_option(Platform::Windows, index, host_big_endian);
        assert_eq!(u32::from_be_bytes(net.value), index);
        assert_eq!(net.value, index.to_be().to_ne_bytes());
    }
}

#[test]
fn setsockopt_result_is_ok_only_on_zero() {
    assert!(bind_result(0, 22).is_ok());
    match bind_result(-1, 22) {
        Err(e) => assert_eq!(e.code, 22),
        Ok(()) => panic!("expected the os error"),
    }
}
