use tcp_backend::config::{
    netstack_config, parse_env_i32, parse_env_ipv4, ConfigError, ConfigErrorKind, ConfigKey,
    NetstackConfig,
};
use tcp_backend::decimal::parse_i32;
use tcp_backend::ipv4::{parse_ipv4, Ipv4Address};

#[test]
fn i32_plain_and_signed() {
    assert_eq!(parse_i32("10"), Some(10));
    assert_eq!(parse_i32("+42"), Some(42));
    assert_eq!(parse_i32("-7"), Some(-7));
    assert_eq!(parse_i32("007"), Some(7));
    assert_eq!(parse_i32("-0"), Some(0));
}

#[test]
fn i32_bounds() {
    assert_eq!(parse_i32("2147483647"), Some(i32::MAX));
    assert_eq!(parse_i32("-2147483648"), Some(i32::MIN));
    assert_eq!(parse_i32("2147483648"), None);
    assert_eq!(parse_i32("-2147483649"), None);
    assert_eq!(parse_i32("99999999999999999999"), None);
}

#[test]
fn i32_rejects_malformed() {
    assert_eq!(parse_i32(""), None);
    assert_eq!(parse_i32("+"), None);
    assert_eq!(parse_i32("-"), None);
    assert_eq!(parse_i32("+-1"), None);
    assert_eq!(parse_i32(" 1"), None);
    assert_eq!(parse_i32("1a"), None);
    assert_eq!(parse_i32("١"), None);
}

#[test]
fn i32_agrees_with_std() {
    for s in ["0", "12", "-12", "+12", "2147483647", "-2147483648", "2147483648", "", "-", "x", "1 ", "0012"] {
        assert_eq!(parse_i32(s), s.parse::<i32>().ok(), "{s}");
    }
}

#[test]
fn ipv4_accepts_canonical_text() {
    assert_eq!(parse_ipv4("10.200.0.1"), Some(Ipv4Address(10, 200, 0, 1)));
    assert_eq!(parse_ipv4("255.255.255.0"), Some(Ipv4Address(255, 255, 255, 0)));
    assert_eq!(parse_ipv4("0.0.0.0"), Some(Ipv4Address(0, 0, 0, 0)));
    assert_eq!(parse_ipv4("1.22.133.9"), Some(Ipv4Address(1, 22, 133, 9)));
}

#[test]
fn ipv4_rejects_non_canonical_text() {
    for s in [
        "", "1.2.3", "1.2.3.4.5", "01.2.3.4", "1.2.3.04", "256.1.1.1", "1.2.3.300", "1..2.3",
        "1.2.3.4.", ".1.2.3", "+1.2.3.4", " 1.2.3.4", "1.2.3.4 ", "1.2.3.a", "1000.1.1.1", "1.2.3.٤",
    ] {
        assert_eq!(parse_ipv4(s), None, "{s}");
    }
}

#[test]
fn ipv4_octets_in_order() {
    assert_eq!(parse_ipv4("10.200.0.2").map(|q| q.octets()), Some([10, 200, 0, 2]));
    assert_eq!(parse_ipv4("255.255.255.255").map(|q| q.octets()), Some([255; 4]));
    assert_eq!(parse_ipv4("255.255.255.256"), None);
    assert_eq!(parse_ipv4("00.0.0.0"), None);
}

#[test]
fn env_values_override_defaults() {
    assert_eq!(parse_env_i32(ConfigKey::Unit, None, 10), Ok(10));
    assert_eq!(parse_env_i32(ConfigKey::Unit, Some("12"), 10), Ok(12));
    assert_eq!(
        parse_env_i32(ConfigKey::Unit, Some("ten"), 10),
        Err(ConfigError { key: ConfigKey::Unit, kind: ConfigErrorKind::InvalidInteger })
    );
    assert_eq!(
        parse_env_ipv4(ConfigKey::HostIp, None, "10.200.0.1"),
        Ok(Ipv4Address(10, 200, 0, 1))
    );
    assert_eq!(
        parse_env_ipv4(ConfigKey::HostIp, Some("192.168.1.7"), "10.200.0.1"),
        Ok(Ipv4Address(192, 168, 1, 7))
    );
    assert_eq!(
        parse_env_ipv4(ConfigKey::StackIp, Some("192.168.1"), "10.200.0.2"),
        Err(ConfigError { key: ConfigKey::StackIp, kind: ConfigErrorKind::InvalidIpv4 })
    );
}

#[test]
fn env_default_text_is_parsed_too() {
    assert_eq!(
        parse_env_ipv4(ConfigKey::Netmask, None, "255.255.255.x"),
        Err(ConfigError { key: ConfigKey::Netmask, kind: ConfigErrorKind::InvalidIpv4 })
    );
}

#[test]
fn netstack_config_defaults() {
    assert_eq!(
        netstack_config(None, None, None, None),
        Ok(NetstackConfig {
            unit: 10,
            host_ip: Ipv4Address(10, 200, 0, 1),
            stack_ip: Ipv4Address(10, 200, 0, 2),
            netmask: Ipv4Address(255, 255, 255, 0),
        })
    );
}

#[test]
fn netstack_config_values_and_first_error() {
    assert_eq!(
        netstack_config(Some("3"), Some("172.16.0.1"), None, Some("255.255.0.0")),
        Ok(NetstackConfig {
            unit: 3,
            host_ip: Ipv4Address(172, 16, 0, 1),
            stack_ip: Ipv4Address(10, 200, 0, 2),
            netmask: Ipv4Address(255, 255, 0, 0),
        })
    );
    assert_eq!(
        netstack_config(Some("x"), Some("bad"), Some("bad"), Some("bad")),
        Err(ConfigError { key: ConfigKey::Unit, kind: ConfigErrorKind::InvalidInteger })
    );
    assert_eq!(
        netstack_config(None, Some("bad"), Some("bad"), None),
        Err(ConfigError { key: ConfigKey::HostIp, kind: ConfigErrorKind::InvalidIpv4 })
    );
    assert_eq!(
        netstack_config(None, None, Some("10.0.0.256"), Some("bad")),
        Err(ConfigError { key: ConfigKey::StackIp, kind: ConfigErrorKind::InvalidIpv4 })
    );
    assert_eq!(
        netstack_config(None, None, None, Some("255.255.255")),
        Err(ConfigError { key: ConfigKey::Netmask, kind: ConfigErrorKind::InvalidIpv4 })
    );
}

#[test]
fn config_key_names() {
    assert_eq!(ConfigKey::Unit.env_name(), "ASYNC_NET_NETSTACK_UNIT");
    assert_eq!(ConfigKey::HostIp.env_name(), "ASYNC_NET_NETSTACK_HOST_IP");
    assert_eq!(ConfigKey::StackIp.env_name(), "ASYNC_NET_NETSTACK_STACK_IP");
    assert_eq!(ConfigKey::Netmask.env_name(), "ASYNC_NET_NETSTACK_NETMASK");
}

#[test]
fn i32_display_text_reads_back() {
    for x in [0, 1, -1, 10, 4096, -65536, i32::MAX, i32::MIN] {
        assert_eq!(parse_i32(&x.to_string()), Some(x));
    }
}

#[test]
fn ipv4_canonical_text_reads_back() {
    for q in [
        Ipv4Address(0, 0, 0, 0),
        Ipv4Address(9, 10, 99, 100),
        Ipv4Address(127, 0, 0, 1),
        Ipv4Address(255, 254, 253, 252),
    ] {
        let text = format!("{}.{}.{}.{}", q.0, q.1, q.2, q.3);
        assert_eq!(parse_ipv4(&text), Some(q));
    }
}
