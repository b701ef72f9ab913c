//! Which hosts are the computer itself.
use aishell::loopback::is_loopback_host;

#[test]
fn names_and_addresses_of_the_computer_are_loopback_hosts() {
    for host in [
        "localhost",
        "LocalHost",
        "127.0.0.1",
        "127.255.255.255",
        "[::1]",
        "::1",
        "0:0:0:0:0:0:0:1",
        "0000::0001",
        "::0.0.0.1",
        "0:0:0:0:0:0:0.0.0.1",
    ] {
        assert!(is_loopback_host(host), "{host}");
    }
}

#[test]
fn other_hosts_are_not() {
    for host in [
        "",
        "example.com",
        "localhost.example.com",
        "126.0.0.1",
        "128.0.0.1",
        "127.0.0",
        "127.0.0.1.1",
        "127.0.0.256",
        "127.0.0.01",
        "0127.0.0.1",
        "127.0.0.",
        "127.0.0.a",
        "::",
        "::2",
        "1::1",
        ":::1",
        "::1::",
        "::00001",
        "0:0:0:0:0:0:0:0:1",
        "0:0:0:0:0:0:1",
        "0:0:0:0:0:0:0:1::",
        "::127.0.0.1",
        "::ffff:127.0.0.1",
        "0.0.0.1::",
        "::g",
    ] {
        assert!(!is_loopback_host(host), "{host}");
    }
}

#[test]
fn full_addresses_are_told_apart() {
    for (text, expected) in [
        ("127.1.2.3", true),
        ("255.255.255.255", false),
        ("::1:0", false),
        ("a:b:c:d:e:f:1:2", false),
        ("A:B:C:D:E:F:1:2", false),
        ("1:2:3:4:5:6:7::", false),
        ("::2:3:4:5:6:7:8", false),
        ("::0:0:0:0:0:0:1", true),
        ("0:0:0:0:0:0::1", true),
        ("1:2:3:4:5:6:1.2.3.4", false),
        ("0::0:1", true),
        ("0:0::0:0:1", true),
        ("0:0:0:0:0:0:0::1", false),
        ("127.000.0.1", false),
    ] {
        assert_eq!(is_loopback_host(text), expected, "{text}");
    }
}
