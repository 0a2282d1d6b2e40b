use blvm_fibre::address::{read_ip_address, read_socket_address, IpAddress, SocketAddress};
use blvm_fibre::text::{
    bool_text, chars_of, decimal_text, read_digit, read_number, read_u16, split_chars, NumberError,
};

/// A pseudorandom text of at most `max` characters out of `alphabet`.
fn sample(state: &mut u64, alphabet: &[u8], max: usize) -> String {
    let mut s = String::new();
    let mut next = || {
        *state = state.wrapping_mul(6364136223846793005).wrapping_add(1442695040888963407);
        (*state >> 33) as usize
    };
    let len = next() % (max + 1);
    for _ in 0..len {
        s.push(alphabet[next() % alphabet.len()] as char);
    }
    s
}

#[test]
fn ip_addresses_are_read() {
    assert_eq!(read_ip_address("127.0.0.1"), Some(IpAddress::V4(0x7f00_0001)));
    assert_eq!(read_ip_address("0.0.0.0"), Some(IpAddress::V4(0)));
    assert_eq!(read_ip_address("255.255.255.255"), Some(IpAddress::V4(u32::MAX)));
    assert_eq!(read_ip_address("::"), Some(IpAddress::V6(0)));
    assert_eq!(read_ip_address("::1"), Some(IpAddress::V6(1)));
    assert_eq!(
        read_ip_address("2001:db8::ff00:42:8329"),
        Some(IpAddress::V6(0x2001_0db8_0000_0000_0000_ff00_0042_8329))
    );
    assert_eq!(
        read_ip_address("1:2:3:4:5:6:7:8"),
        Some(IpAddress::V6(0x0001_0002_0003_0004_0005_0006_0007_0008))
    );
    assert_eq!(read_ip_address("::ffff:10.1.2.3"), Some(IpAddress::V6(0xffff_0a01_0203)));
    assert_eq!(read_ip_address("ABCD::"), Some(IpAddress::V6(0xabcd << 112)));
}

#[test]
fn bad_ip_addresses_are_refused() {
    let bad = [
        "", "1", "1.2.3", "1.2.3.4.5", "256.1.1.1", "01.2.3.4", "1.2.3.4 ", " 1.2.3.4", "1.2.3.-4",
        "+1.2.3.4", "1..3.4", ":", ":::", "1:2:3:4:5:6:7", "1:2:3:4:5:6:7:8:9", "1::2::3",
        "12345::", "g::", "::1%1", "[::1]", "1.2.3.4::", "1:2:3:4:5:6:7:1.2.3.4",
        "1::2:3:4:5:6:7:8", "localhost", "1\u{660}.2.3.4",
    ];
    for s in bad {
        assert_eq!(read_ip_address(s), None, "{}", s);
    }
}

#[test]
fn socket_addresses_are_read() {
    assert_eq!(
        read_socket_address("0.0.0.0:8334"),
        Some(SocketAddress::V4 { ipv4: 0, port: 8334 })
    );
    assert_eq!(
        read_socket_address("127.0.0.1:0008334"),
        Some(SocketAddress::V4 { ipv4: 0x7f00_0001, port: 8334 })
    );
    assert_eq!(
        read_socket_address("[::1]:65535"),
        Some(SocketAddress::V6 { ipv6: 1, port: 65535, scope_id: 0 })
    );
    assert_eq!(
        read_socket_address("[fe80::1%7]:80"),
        Some(SocketAddress::V6 { ipv6: (0xfe80 << 112) + 1, port: 80, scope_id: 7 })
    );
}

#[test]
fn bad_socket_addresses_are_refused() {
    let bad = [
        "", "127.0.0.1", "127.0.0.1:", "127.0.0.1:65536", "127.0.0.1:+1", ":80", "::1:80",
        "[::1]", "[::1]80", "[::1]:", "[::1:80", "::1]:80", "[127.0.0.1]:80", "[::1%]:80",
        "[::1%4294967296]:80", "[::1%1%2]:80", "[[::1]]:80", "127.0.0.1:80:80", "host:80",
        "127.0.0.1 :80", "127.0.0.1%1:80",
    ];
    for s in bad {
        assert_eq!(read_socket_address(s), None, "{}", s);
    }
}

/// `count` groups `1`, as the low bits of an address.
fn ones(count: usize) -> u128 {
    let mut value = 0u128;
    for _ in 0..count {
        value = (value << 16) + 1;
    }
    value
}

#[test]
fn a_gap_stands_for_one_zero_group_or_more() {
    for head in 0..10 {
        for tail in 0..10 {
            let s = format!("{}::{}", vec!["1"; head].join(":"), vec!["1"; tail].join(":"));
            let expected = if head == 0 {
                if tail <= 7 { Some(IpAddress::V6(ones(tail))) } else { None }
            } else if head + tail <= 7 {
                Some(IpAddress::V6((ones(head) << (16 * (8 - head))) + ones(tail)))
            } else {
                None
            };
            assert_eq!(read_ip_address(&s), expected, "{}", s);
        }
    }
}

#[test]
fn an_ipv4_address_stands_for_the_last_two_groups() {
    for head in 0..9 {
        let s = format!("{}::1.2.3.4", vec!["1"; head].join(":"));
        let expected = if head == 0 {
            Some(IpAddress::V6(0x0102_0304))
        } else if head <= 5 {
            Some(IpAddress::V6((ones(head) << (16 * (8 - head))) + 0x0102_0304))
        } else {
            None
        };
        assert_eq!(read_ip_address(&s), expected, "{}", s);
        let s = format!("{}:1.2.3.4", vec!["1"; head].join(":"));
        let expected = if head == 6 {
            Some(IpAddress::V6((ones(6) << 32) + 0x0102_0304))
        } else {
            None
        };
        assert_eq!(read_ip_address(&s), expected, "{}", s);
    }
    assert_eq!(read_ip_address("::1.2.3.4:5"), None);
    assert_eq!(read_ip_address("::1.2.3"), None);
    assert_eq!(read_ip_address("::1.2.3.04"), None);
}

#[test]
fn an_ipv4_address_has_one_text() {
    for ip in [0u32, 1, 0x7f00_0001, 0x0a0b_0c0d, u32::MAX] {
        let [a, b, c, d] = ip.to_be_bytes();
        let s = format!("{}.{}.{}.{}", a, b, c, d);
        assert_eq!(read_ip_address(&s), Some(IpAddress::V4(ip)));
        assert_eq!(read_ip_address(&format!("0{}", s)), None);
    }
}

#[test]
fn an_address_with_a_port_is_a_socket_address() {
    assert_eq!(SocketAddress::new(IpAddress::V4(9), 3), SocketAddress::V4 { ipv4: 9, port: 3 });
    assert_eq!(
        SocketAddress::new(IpAddress::V6(9), 3),
        SocketAddress::V6 { ipv6: 9, port: 3, scope_id: 0 }
    );
    let v4 = read_ip_address("10.0.0.7").unwrap();
    assert_eq!(read_socket_address("10.0.0.7:443"), Some(SocketAddress::new(v4, 443)));
    let v6 = read_ip_address("2001:db8::7").unwrap();
    assert_eq!(read_socket_address("[2001:db8::7]:443"), Some(SocketAddress::new(v6, 443)));
}

#[test]
fn ports_are_read() {
    assert_eq!(read_u16("8333"), Ok(8333));
    assert_eq!(read_u16("+8333"), Ok(8333));
    assert_eq!(read_u16("00065535"), Ok(65535));
    assert_eq!(read_u16(""), Err(NumberError::Empty));
    assert_eq!(read_u16("+"), Err(NumberError::InvalidDigit));
    assert_eq!(read_u16("-"), Err(NumberError::InvalidDigit));
    assert_eq!(read_u16("-1"), Err(NumberError::InvalidDigit));
    assert_eq!(read_u16("++1"), Err(NumberError::InvalidDigit));
    assert_eq!(read_u16("6554x"), Err(NumberError::InvalidDigit));
    assert_eq!(read_u16("65536x"), Err(NumberError::TooLarge));
    assert_eq!(read_u16("65536"), Err(NumberError::TooLarge));
    assert_eq!(read_u16(" 1"), Err(NumberError::InvalidDigit));
}

#[test]
fn port_errors_read_as_in_the_standard_library() {
    let mut state = 11u64;
    for _ in 0..60000 {
        let s = sample(&mut state, b"0156+-x", 7);
        match (s.parse::<u16>(), read_u16(&s)) {
            (Ok(a), Ok(b)) => assert_eq!(a, b, "{}", s),
            (Err(a), Err(b)) => assert_eq!(a.to_string(), b.message(), "{}", s),
            _ => panic!("{}", s),
        }
    }
}

#[test]
fn numbers_are_written_in_decimal() {
    for n in [0u64, 1, 9, 10, 99, 100, 1000, 65535, u64::MAX] {
        assert_eq!(decimal_text(n), n.to_string());
    }
    assert_eq!(bool_text(true), "true");
    assert_eq!(bool_text(false), "false");
}

#[test]
fn written_ports_are_read_back() {
    for n in [0u16, 1, 10, 8333, 65535] {
        assert_eq!(read_u16(&decimal_text(n as u64)), Ok(n));
    }
}

#[test]
fn digits_and_numbers_are_read() {
    assert_eq!(read_digit('9', 10), Some(9));
    assert_eq!(read_digit('a', 10), None);
    assert_eq!(read_digit('a', 16), Some(10));
    assert_eq!(read_digit('F', 16), Some(15));
    assert_eq!(read_digit('g', 16), None);
    assert_eq!(read_number(&chars_of("00ff"), 16, 255), Some(255));
    assert_eq!(read_number(&chars_of("100"), 16, 255), None);
    assert_eq!(read_number(&chars_of(""), 16, 255), None);
    assert_eq!(read_number(&chars_of("4294967295"), 10, u32::MAX), Some(u32::MAX));
}

#[test]
fn splitting_and_joining_are_inverse() {
    for s in ["", ".", "a", "a.b", ".a..b."] {
        let parts: Vec<String> = split_chars(&chars_of(s), '.')
            .into_iter()
            .map(|p| p.into_iter().collect())
            .collect();
        assert_eq!(parts.join("."), s);
        assert_eq!(parts, s.split('.').collect::<Vec<_>>());
    }
}

#[test]
fn written_ipv6_addresses_are_read_back() {
    for (s, groups) in [
        ("::", [0u16, 0, 0, 0, 0, 0, 0, 0]),
        ("::1", [0, 0, 0, 0, 0, 0, 0, 1]),
        ("1::", [1, 0, 0, 0, 0, 0, 0, 0]),
        ("2001:db8::1", [0x2001, 0xdb8, 0, 0, 0, 0, 0, 1]),
        ("fe80::a:0:0:b", [0xfe80, 0, 0, 0, 0xa, 0, 0, 0xb]),
        ("1::2:0:0:3:4", [1, 0, 0, 2, 0, 0, 3, 4]),
        ("1:0:2:0:3:0:4:0", [1, 0, 2, 0, 3, 0, 4, 0]),
        ("1:2:3:4:5:6:7:8", [1, 2, 3, 4, 5, 6, 7, 8]),
        ("::ffff:1.2.3.4", [0, 0, 0, 0, 0, 0xffff, 0x0102, 0x0304]),
        ("::1:ffff:102:304", [0, 0, 0, 0, 1, 0xffff, 0x0102, 0x0304]),
        (
            "ffff:ffff:ffff:ffff:ffff:ffff:ffff:ffff",
            [0xffff, 0xffff, 0xffff, 0xffff, 0xffff, 0xffff, 0xffff, 0xffff],
        ),
    ] {
        let mut ip = 0u128;
        for group in groups {
            ip = (ip << 16) + group as u128;
        }
        assert_eq!(read_ip_address(s), Some(IpAddress::V6(ip)), "{}", s);
        let plain = format!("[{}]:8334", s);
        let expected = SocketAddress::V6 { ipv6: ip, port: 8334, scope_id: 0 };
        assert_eq!(read_socket_address(&plain), Some(expected), "{}", plain);
        let scoped = format!("[{}%7]:8334", s);
        let expected = SocketAddress::V6 { ipv6: ip, port: 8334, scope_id: 7 };
        assert_eq!(read_socket_address(&scoped), Some(expected), "{}", scoped);
    }
}
