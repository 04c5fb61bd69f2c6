use port_relay::address::SocketAddress;

const VALID: [&str; 24] = [
    "127.0.0.1:9000",
    "0.0.0.0:0",
    "255.255.255.255:65535",
    "1.2.3.4:00080",
    "10.0.0.200:1",
    "[::1]:80",
    "[::]:0",
    "[1:2:3:4:5:6:7:8]:443",
    "[::ffff:1.2.3.4]:8080",
    "[1::]:1",
    "[fe80::1%5]:22",
    "[FE80::AbCd]:22",
    "[1:2:3:4:5:6:1.2.3.4]:9",
    "[1:2:3:4:5:6:7::]:9",
    "[::2:3:4:5:6:7:8]:9",
    "[fe80::1%0004294967295]:1",
    "[1::2:3.4.5.6]:1",
    "[::1.2.3.4]:1",
    "[0001:0002::0008]:65535",
    "[ffff:ffff:ffff:ffff:ffff:ffff:ffff:ffff]:1",
    "[ffff:ffff:ffff:ffff:ffff:ffff:255.255.255.255]:1",
    "[a:b:c:d:e:f:0:1]:0000000000000000000001",
    "[::%0]:5",
    "[1:2:3::6:7:8]:9",
];

const INVALID: [&str; 52] = [
    "",
    "127.0.0.1",
    "127.0.0.1:",
    ":80",
    "127.0.0.1:65536",
    "256.0.0.1:80",
    "1.2.3:80",
    "1.2.3.4.5:80",
    "01.2.3.4:80",
    "1.2.3.04:80",
    "1.2..4:80",
    "1.2.3.4:80 ",
    " 1.2.3.4:80",
    "1.2.3.4:+80",
    "1.2.3.4:-1",
    "1.2.3.4:8a",
    "1.2.3.4:80:90",
    "1.2.3.1000:80",
    "1.2.3.4:99999999999999999999",
    "1.2.3.4:8\u{0660}",
    "::1:80",
    "localhost:80",
    "[::1]",
    "[::1]:",
    "[::1]80",
    "[::1]:65536",
    "[::1",
    "::1]:80",
    "[]:80",
    "[1:2:3:4:5:6:7:8:9]:1",
    "[1:2:3:4:5:6:7]:1",
    "[:::1]:1",
    "[1:::]:1",
    "[1::2::3]:1",
    "[12345::]:1",
    "[::1.2.3]:1",
    "[1.2.3.4::]:1",
    "[::1%]:1",
    "[::1%x]:1",
    "[::1%4294967296]:1",
    "[::1%1%2]:1",
    "[::1%99999999999999999999]:1",
    "[::1]]:1",
    "[[::1]:1",
    "[g::1]:1",
    "[1:2:3:4:5:6:7:1.2.3.4]:1",
    "[1:2:3:4:5:6::1.2.3.4]:1",
    "[::1.2.3.4:5]:1",
    "[1:2:3:4:5:6:7:8::]:1",
    "[::1:2:3:4:5:6:7:8]:1",
    "[:1::2]:1",
    "[1:2:3:4:5:6:01.2.3.4]:1",
];

#[test]
fn ipv4_address_is_read() {
    assert_eq!(
        SocketAddress::from_str("127.0.0.1:9000"),
        Some(SocketAddress::V4 { ipv4: 0x7F00_0001, port: 9000 })
    );
    assert_eq!(
        SocketAddress::from_str("255.255.255.255:65535"),
        Some(SocketAddress::V4 { ipv4: 0xFFFF_FFFF, port: 65535 })
    );
    assert_eq!(
        SocketAddress::from_str("1.2.3.4:00080"),
        Some(SocketAddress::V4 { ipv4: 0x0102_0304, port: 80 })
    );
}

#[test]
fn ipv6_address_is_read() {
    assert_eq!(
        SocketAddress::from_str("[::1]:80"),
        Some(SocketAddress::V6 { ipv6: 1, port: 80, flowinfo: 0, scope_id: 0 })
    );
    assert_eq!(
        SocketAddress::from_str("[1:2:3:4:5:6:7:8]:443"),
        Some(SocketAddress::V6 {
            ipv6: 0x0001_0002_0003_0004_0005_0006_0007_0008,
            port: 443,
            flowinfo: 0,
            scope_id: 0
        })
    );
    assert_eq!(
        SocketAddress::from_str("[::ffff:1.2.3.4]:8080"),
        Some(SocketAddress::V6 { ipv6: 0xFFFF_0102_0304, port: 8080, flowinfo: 0, scope_id: 0 })
    );
    assert_eq!(
        SocketAddress::from_str("[fe80::1%5]:22"),
        Some(SocketAddress::V6 {
            ipv6: 0xFE80_0000_0000_0000_0000_0000_0000_0001,
            port: 22,
            flowinfo: 0,
            scope_id: 5
        })
    );
    assert_eq!(
        SocketAddress::from_str("[1::2:3.4.5.6]:1"),
        Some(SocketAddress::V6 {
            ipv6: 0x0001_0000_0000_0000_0000_0002_0304_0506,
            port: 1,
            flowinfo: 0,
            scope_id: 0
        })
    );
}

#[test]
fn double_colon_stands_for_the_missing_groups() {
    assert_eq!(
        SocketAddress::from_str("[1:2:3::6:7:8]:9"),
        Some(SocketAddress::V6 {
            ipv6: 0x0001_0002_0003_0000_0000_0006_0007_0008,
            port: 9,
            flowinfo: 0,
            scope_id: 0
        })
    );
    assert_eq!(
        SocketAddress::from_str("[1:2:3:4:5:6:7::]:9"),
        Some(SocketAddress::V6 {
            ipv6: 0x0001_0002_0003_0004_0005_0006_0007_0000,
            port: 9,
            flowinfo: 0,
            scope_id: 0
        })
    );
}

#[test]
fn malformed_addresses_are_refused() {
    for text in INVALID {
        assert_eq!(SocketAddress::from_str(text), None, "{text:?}");
    }
}

#[test]
fn well_formed_addresses_are_accepted() {
    for text in VALID {
        assert!(SocketAddress::from_str(text).is_some(), "{text:?}");
    }
}

#[test]
fn family_follows_the_brackets() {
    for text in VALID {
        let bracketed = text.starts_with('[');
        match SocketAddress::from_str(text) {
            Some(SocketAddress::V4 { .. }) => assert!(!bracketed, "{text:?}"),
            Some(SocketAddress::V6 { flowinfo, .. }) => {
                assert!(bracketed, "{text:?}");
                assert_eq!(flowinfo, 0);
            }
            None => panic!("{text:?} was refused"),
        }
    }
}

#[test]
fn scope_and_port_take_leading_zeros() {
    assert_eq!(
        SocketAddress::from_str("[fe80::1%0004294967295]:1"),
        Some(SocketAddress::V6 {
            ipv6: 0xFE80_0000_0000_0000_0000_0000_0000_0001,
            port: 1,
            flowinfo: 0,
            scope_id: 4294967295
        })
    );
    assert_eq!(
        SocketAddress::from_str("[a:b:c:d:e:f:0:1]:0000000000000000000001"),
        Some(SocketAddress::V6 {
            ipv6: 0x000A_000B_000C_000D_000E_000F_0000_0001,
            port: 1,
            flowinfo: 0,
            scope_id: 0
        })
    );
}

#[test]
fn embedded_ipv4_stands_for_two_groups() {
    assert_eq!(
        SocketAddress::from_str("[1:2:3:4:5:6:1.2.3.4]:9"),
        Some(SocketAddress::V6 {
            ipv6: 0x0001_0002_0003_0004_0005_0006_0102_0304,
            port: 9,
            flowinfo: 0,
            scope_id: 0
        })
    );
    assert_eq!(
        SocketAddress::from_str("[ffff:ffff:ffff:ffff:ffff:ffff:255.255.255.255]:1"),
        Some(SocketAddress::V6 { ipv6: u128::MAX, port: 1, flowinfo: 0, scope_id: 0 })
    );
    assert_eq!(
        SocketAddress::from_str("[::1.2.3.4]:1"),
        Some(SocketAddress::V6 { ipv6: 0x0102_0304, port: 1, flowinfo: 0, scope_id: 0 })
    );
}

#[test]
fn port_is_the_port_of_either_family() {
    assert_eq!(SocketAddress::V4 { ipv4: 1, port: 7 }.port(), 7);
    assert_eq!(SocketAddress::V6 { ipv6: 1, port: 8, flowinfo: 0, scope_id: 0 }.port(), 8);
}
