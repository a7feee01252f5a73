use matrix_oracle::address::{parse_ip, parse_socket, IpAddress, SocketAddress};
use matrix_oracle::text::{
    chars_of, push_decimal, push_hex, read_decimal, read_decimal_u16, read_hex, read_u16,
    scan_digits, scan_hex, trim_trailing_dots,
};

fn v4(a: u8, b: u8, c: u8, d: u8) -> Option<IpAddress> {
    Some(IpAddress::V4(a, b, c, d))
}

#[test]
fn ip_literals() {
    assert_eq!(parse_ip("1.2.3.4"), v4(1, 2, 3, 4));
    assert_eq!(parse_ip("0.0.0.0"), v4(0, 0, 0, 0));
    assert_eq!(parse_ip("255.255.255.255"), v4(255, 255, 255, 255));
    assert_eq!(parse_ip("10.0.200.19"), v4(10, 0, 200, 19));
    let refused = [
        "", "256.1.1.1", "1.2.3", "1.2.3.4.5", "1.2.3.4.", ".1.2.3.4", "1..2.3", "01.2.3.4",
        "1.2.3.04", "1.2.3.004", "0001.2.3.4", "00.0.0.0", "1.2.3.4 ", " 1.2.3.4", "1.2.3.a",
        "1.2.3.+4", "1.2.3.4:80", "example.test", "999.1.1.1", "1.2.3.256", "1.2.3.1000",
        "1.2.3.4\u{660}", "\u{661}.2.3.4", "1,2,3,4", "1.2.3.-4",
    ];
    for sample in refused {
        assert_eq!(parse_ip(sample), None, "{:?}", sample);
    }
}

#[test]
fn socket_literals() {
    let socket = |port: u16| Some(SocketAddress { ip: IpAddress::V4(1, 2, 3, 4), port, scope_id: 0 });
    assert_eq!(parse_socket("1.2.3.4:80"), socket(80));
    assert_eq!(parse_socket("1.2.3.4:0"), socket(0));
    assert_eq!(parse_socket("1.2.3.4:65535"), socket(65535));
    assert_eq!(parse_socket("1.2.3.4:00080"), socket(80));
    assert_eq!(parse_socket("1.2.3.4:000000000000000000000001"), socket(1));
    let refused = [
        "", "1.2.3.4", "1.2.3.4:", "1.2.3.4:65536", "1.2.3.4:+80", "1.2.3.4:-80", "1.2.3.4:8o",
        "1.2.3.4:80:", "1.2.3.4:80 ", "1.2.3:80", "1.2.3.4:99999999999999999999999",
        "01.2.3.4:80", "example.test:80", "1.2.3.4.:80", ":80", "1.2.3.4::80",
    ];
    for sample in refused {
        assert_eq!(parse_socket(sample), None, "{:?}", sample);
    }
}

#[test]
fn exact_addresses() {
    assert_eq!(parse_ip("192.168.0.254"), Some(IpAddress::V4(192, 168, 0, 254)));
    assert_eq!(
        parse_socket("192.168.0.254:8448"),
        Some(SocketAddress { ip: IpAddress::V4(192, 168, 0, 254), port: 8448, scope_id: 0 })
    );
    assert_eq!(IpAddress::V4(192, 168, 0, 254).to_text(), "192.168.0.254");
    assert_eq!(
        SocketAddress { ip: IpAddress::V4(0, 0, 0, 0), port: 0, scope_id: 0 }.to_text(),
        "0.0.0.0:0"
    );
    assert_eq!(parse_ip("192.168.0.254:8448"), None);
    assert_eq!(parse_socket("192.168.0.254"), None);
}

#[test]
fn ports_agree_with_std() {
    let samples = [
        "", "0", "1", "80", "+80", "-80", "++80", "+", "-", "65535", "65536", "065535", "0000",
        "12a", "a12", " 12", "12 ", "1_000", "99999999999999999999", "+065535", "\u{660}",
    ];
    for sample in samples {
        let v = chars_of(sample);
        assert_eq!(read_u16(&v, 0, v.len()), sample.parse::<u16>().ok(), "{:?}", sample);
    }
}

#[test]
fn decimal_reads_digits_only() {
    let v = chars_of("ab123:+45");
    assert_eq!(read_decimal_u16(&v, 2, 5), Some(123));
    assert_eq!(read_decimal_u16(&v, 2, 6), None);
    assert_eq!(read_decimal_u16(&v, 6, 9), None);
    assert_eq!(read_u16(&v, 6, 9), Some(45));
    assert_eq!(read_decimal_u16(&v, 3, 3), None);
}

#[test]
fn trailing_dots_are_trimmed() {
    assert_eq!(trim_trailing_dots("example.test."), "example.test");
    assert_eq!(trim_trailing_dots("example.test..."), "example.test");
    assert_eq!(trim_trailing_dots("example.test"), "example.test");
    assert_eq!(trim_trailing_dots(".a."), ".a");
    assert_eq!(trim_trailing_dots("..."), "");
    assert_eq!(trim_trailing_dots(""), "");
    for sample in ["a.b.", "h\u{e9}.", ".", "x"] {
        assert_eq!(trim_trailing_dots(sample), sample.trim_end_matches('.'));
    }
}

fn v6(gs: [u16; 8]) -> IpAddress {
    IpAddress::V6(gs[0], gs[1], gs[2], gs[3], gs[4], gs[5], gs[6], gs[7])
}

#[test]
fn v6_literals() {
    assert_eq!(parse_ip("::"), Some(v6([0, 0, 0, 0, 0, 0, 0, 0])));
    assert_eq!(parse_ip("::1"), Some(v6([0, 0, 0, 0, 0, 0, 0, 1])));
    assert_eq!(parse_ip("1::"), Some(v6([1, 0, 0, 0, 0, 0, 0, 0])));
    assert_eq!(parse_ip("2001:db8::1"), Some(v6([0x2001, 0xdb8, 0, 0, 0, 0, 0, 1])));
    assert_eq!(parse_ip("2001:DB8::a:Bc"), Some(v6([0x2001, 0xdb8, 0, 0, 0, 0, 0xa, 0xbc])));
    assert_eq!(parse_ip("1:2:3:4:5:6:7:8"), Some(v6([1, 2, 3, 4, 5, 6, 7, 8])));
    assert_eq!(parse_ip("ffff:0000:0:00:000:f:ff:fff"), Some(v6([0xffff, 0, 0, 0, 0, 0xf, 0xff, 0xfff])));
    assert_eq!(parse_ip("1:2:3:4:5:6:7::"), Some(v6([1, 2, 3, 4, 5, 6, 7, 0])));
    assert_eq!(parse_ip("::1:2:3:4:5:6:7"), Some(v6([0, 1, 2, 3, 4, 5, 6, 7])));
    assert_eq!(parse_ip("1::2:3:4:5:6:7"), Some(v6([1, 0, 2, 3, 4, 5, 6, 7])));
    assert_eq!(parse_ip("1:2::7:8"), Some(v6([1, 2, 0, 0, 0, 0, 7, 8])));
    assert_eq!(parse_ip("::ffff:1.2.3.4"), Some(v6([0, 0, 0, 0, 0, 0xffff, 0x0102, 0x0304])));
    assert_eq!(parse_ip("::1.2.3.4"), Some(v6([0, 0, 0, 0, 0, 0, 0x0102, 0x0304])));
    assert_eq!(parse_ip("1:2:3:4:5:6:255.0.0.255"), Some(v6([1, 2, 3, 4, 5, 6, 0xff00, 0x00ff])));
    assert_eq!(parse_ip("1::5:6:10.11.12.13"), Some(v6([1, 0, 0, 0, 5, 6, 0x0a0b, 0x0c0d])));
    let refused = [
        ":", ":::", "1:::2", "::1::", "1::2::3", "12345::", "g::", "::g", "1.2.3.4::",
        "::1.2.3.4:5", "1:2:3:4:5:6:7", "1:2:3:4:5:6:7:8:9", "1:2:3:4:5:6:7:8::",
        "::1:2:3:4:5:6:7:8", "1:2:3:4:5:6:7:1.2.3.4", "1:2:3:4:5:1.2.3.4", "[::1]", "::1%1",
        " ::1", "::1 ", "1:2:3:4:5:6:7:", ":1:2:3:4:5:6:7:8", "::01.2.3.4", "1:2:3:4:5:6:1.2.3",
        "::1.2.3.4.5", "::-1", "::+1", "0x1::",
    ];
    for sample in refused {
        assert_eq!(parse_ip(sample), None, "{:?}", sample);
    }
}

#[test]
fn v6_texts() {
    let text = |gs: [u16; 8]| v6(gs).to_text();
    assert_eq!(text([0, 0, 0, 0, 0, 0, 0, 0]), "::");
    assert_eq!(text([0, 0, 0, 0, 0, 0, 0, 1]), "::1");
    assert_eq!(text([1, 0, 0, 0, 0, 0, 0, 0]), "1::");
    assert_eq!(text([0x2001, 0xdb8, 0, 0, 0, 0, 0, 1]), "2001:db8::1");
    assert_eq!(text([1, 2, 3, 4, 5, 6, 7, 8]), "1:2:3:4:5:6:7:8");
    assert_eq!(text([0xffff, 0xabcd, 0xef01, 0x10, 0x100, 0x1000, 0xa, 0xf0]), "ffff:abcd:ef01:10:100:1000:a:f0");
    assert_eq!(text([1, 0, 0, 2, 0, 0, 0, 3]), "1:0:0:2::3");
    assert_eq!(text([1, 0, 0, 2, 0, 0, 3, 4]), "1::2:0:0:3:4");
    assert_eq!(text([1, 0, 2, 0, 3, 0, 4, 0]), "1:0:2:0:3:0:4:0");
    assert_eq!(text([0, 1, 2, 3, 4, 5, 6, 7]), "0:1:2:3:4:5:6:7");
    assert_eq!(text([1, 2, 3, 4, 5, 6, 0, 0]), "1:2:3:4:5:6::");
    assert_eq!(text([0, 0, 1, 2, 3, 4, 5, 6]), "::1:2:3:4:5:6");
    assert_eq!(text([0, 0, 0, 0, 0, 0xffff, 0x0102, 0x0304]), "::ffff:1.2.3.4");
    assert_eq!(text([0, 0, 0, 0, 0, 0xffff, 0, 0]), "::ffff:0.0.0.0");
    assert_eq!(text([0, 0, 0, 0, 0, 0, 0x0102, 0x0304]), "::102:304");
    assert_eq!(text([0, 0, 0, 0, 1, 0xffff, 0x0102, 0x0304]), "::1:ffff:102:304");
}

#[test]
fn v6_sockets() {
    let one = v6([0, 0, 0, 0, 0, 0, 0, 1]);
    assert_eq!(parse_socket("[::1]:8448"), Some(SocketAddress::new(one, 8448)));
    assert_eq!(parse_socket("[::1]:008448"), Some(SocketAddress::new(one, 8448)));
    assert_eq!(
        parse_socket("[fe80::1%3]:80"),
        Some(SocketAddress { ip: v6([0xfe80, 0, 0, 0, 0, 0, 0, 1]), port: 80, scope_id: 3 })
    );
    assert_eq!(
        parse_socket("[::1%4294967295]:80"),
        Some(SocketAddress { ip: one, port: 80, scope_id: 4294967295 })
    );
    assert_eq!(parse_socket("[::1%0]:80"), Some(SocketAddress::new(one, 80)));
    assert_eq!(parse_socket("[::1%007]:80"), Some(SocketAddress { ip: one, port: 80, scope_id: 7 }));
    let refused = [
        "[::1]", "[::1]:", "::1:80", "[::1]80", "[::1]:65536", "[::1%]:80", "[::1%4294967296]:80",
        "[::1%eth0]:80", "[1.2.3.4]:80", "[::1:80", "::1]:80", "[[::1]]:80", "[::1]:80 ",
        "[::1 ]:80", "[]:80", "[::1]:+80", "[::1%-1]:80",
    ];
    for sample in refused {
        assert_eq!(parse_socket(sample), None, "{:?}", sample);
    }
    assert_eq!(SocketAddress::new(one, 8448).to_text(), "[::1]:8448");
    assert_eq!(
        SocketAddress { ip: v6([0xfe80, 0, 0, 0, 0, 0, 0, 1]), port: 80, scope_id: 3 }.to_text(),
        "[fe80::1%3]:80"
    );
    assert_eq!(
        SocketAddress { ip: IpAddress::V4(1, 2, 3, 4), port: 80, scope_id: 3 }.to_text(),
        "1.2.3.4:80"
    );
}

#[test]
fn numbers_are_written_and_read() {
    for n in [0u32, 1, 9, 10, 99, 100, 255, 256, 8448, 65535, 65536, 4294967295] {
        let mut out = String::from("x");
        push_decimal(&mut out, n);
        assert_eq!(out, format!("x{}", n));
        let v = chars_of(&out);
        assert_eq!(read_decimal(&v, 1, v.len(), 4294967295), Some(n));
        assert_eq!(read_decimal(&v, 1, v.len(), 65535), if n <= 65535 { Some(n) } else { None });
        let mut out = String::new();
        push_hex(&mut out, n);
        assert_eq!(out, format!("{:x}", n));
    }
    let v = chars_of("12ab:Cd0g");
    assert_eq!(scan_digits(&v, 0), 2);
    assert_eq!(scan_digits(&v, 2), 2);
    assert_eq!(scan_hex(&v, 0), 4);
    assert_eq!(scan_hex(&v, 5), 8);
    assert_eq!(scan_hex(&v, 9), 9);
    assert_eq!(read_hex(&v, 0, 4), 0x12ab);
    assert_eq!(read_hex(&v, 5, 8), 0xcd0);
    assert_eq!(read_hex(&v, 5, 5), 0);
    assert_eq!(chars_of("h\u{e9}!"), vec!['h', '\u{e9}', '!']);
}

#[test]
fn addresses_read_back() {
    let groups: [[u16; 8]; 12] = [
        [0, 0, 0, 0, 0, 0, 0, 0],
        [0, 0, 0, 0, 0, 0, 0, 1],
        [1, 0, 0, 0, 0, 0, 0, 0],
        [0x2001, 0xdb8, 0, 0, 0, 0, 0, 1],
        [1, 2, 3, 4, 5, 6, 7, 8],
        [1, 0, 0, 2, 0, 0, 0, 3],
        [1, 0, 0, 2, 0, 0, 3, 4],
        [1, 0, 2, 0, 3, 0, 4, 0],
        [0, 0, 0, 0, 0, 0xffff, 0x0102, 0x0304],
        [0, 0, 0, 0, 0, 0, 0x0102, 0x0304],
        [0xffff, 0xffff, 0xffff, 0xffff, 0xffff, 0xffff, 0xffff, 0xffff],
        [0, 0xa, 0, 0, 0xb, 0, 0, 0],
    ];
    for gs in groups {
        let ip = v6(gs);
        assert_eq!(parse_ip(&ip.to_text()), Some(ip), "{:?}", gs);
        assert_eq!(parse_socket(&ip.to_text()), None, "{:?}", gs);
        for scope_id in [0u32, 1, 4294967295] {
            let addr = SocketAddress { ip, port: 8448, scope_id };
            assert_eq!(parse_socket(&addr.to_text()), Some(addr), "{:?}", gs);
            assert_eq!(parse_ip(&addr.to_text()), None, "{:?}", gs);
        }
    }
    for quad in [[0u8, 0, 0, 0], [1, 2, 3, 4], [255, 255, 255, 255], [10, 0, 100, 9]] {
        let ip = IpAddress::V4(quad[0], quad[1], quad[2], quad[3]);
        assert_eq!(parse_ip(&ip.to_text()), Some(ip));
        let addr = SocketAddress::new(ip, 65535);
        assert_eq!(parse_socket(&addr.to_text()), Some(addr));
    }
}

#[test]
fn well_known_address_forms() {
    let text = |gs: [u16; 8]| v6(gs).to_text();
    assert_eq!(text([0, 0, 0, 0, 0, 0xffff, 0xc000, 0x280]), "::ffff:192.0.2.128");
    assert_eq!(text([0, 0, 0, 0, 0, 0, 0xc000, 0x280]), "::c000:280");
    assert_eq!(text([8, 9, 10, 11, 12, 13, 14, 15]), "8:9:a:b:c:d:e:f");
    assert_eq!(text([0xae, 0, 0, 0, 0, 0xffff, 0x0102, 0x0304]), "ae::ffff:102:304");
    assert_eq!(text([1, 2, 3, 4, 5, 6, 0, 8]), "1:2:3:4:5:6:0:8");
    assert_eq!(text([1, 0, 0, 4, 0, 0, 0, 8]), "1:0:0:4::8");
    assert_eq!(text([1, 0, 0, 4, 5, 0, 0, 8]), "1::4:5:0:0:8");
    assert_eq!(
        text([0x1111, 0x2222, 0x3333, 0x4444, 0x5555, 0x6666, 0x7777, 0x8888]),
        "1111:2222:3333:4444:5555:6666:7777:8888"
    );

    assert_eq!(parse_ip("0:0:0:0:0:0:0:0"), Some(v6([0, 0, 0, 0, 0, 0, 0, 0])));
    assert_eq!(parse_ip("2a02:6b8::11:11"), Some(v6([0x2a02, 0x6b8, 0, 0, 0, 0, 0x11, 0x11])));
    assert_eq!(parse_ip("::192.0.2.33"), Some(v6([0, 0, 0, 0, 0, 0, 49152, 545])));
    assert_eq!(parse_ip("::FFFF:192.0.2.33"), Some(v6([0, 0, 0, 0, 0, 0xffff, 49152, 545])));
    assert_eq!(parse_ip("64:ff9b::192.0.2.33"), Some(v6([0x64, 0xff9b, 0, 0, 0, 0, 49152, 545])));
    assert_eq!(
        parse_ip("2001:db8:122:c000:2:2100:192.0.2.33"),
        Some(v6([0x2001, 0xdb8, 0x122, 0xc000, 2, 0x2100, 49152, 545]))
    );
    let refused = [
        "::00000", "1:2:3:4:5:6:7", "1:2:3:4:5:6:7:8:9", "1:2:::6:7:8", "1:2::6::8",
        "1:2:3:4::5:6:7:8", "::127.0.0.1:", "1:2:3:4:5:127.0.0.1", "1:2:3:4:5:6:7:127.0.0.1",
        "256.0.0.1", "255.0.0", "255.0.0.1.2", "255.0..1", "255.0.0.01", "255.0.0.00",
        "255.0.00.0",
    ];
    for sample in refused {
        assert_eq!(parse_ip(sample), None, "{:?}", sample);
    }

    assert_eq!(
        parse_socket("77.88.21.11:80"),
        Some(SocketAddress::new(IpAddress::V4(77, 88, 21, 11), 80))
    );
    assert_eq!(
        parse_socket("[2a02:6b8:0:1::1]:53"),
        Some(SocketAddress::new(v6([0x2a02, 0x6b8, 0, 1, 0, 0, 0, 1]), 53))
    );
    assert_eq!(
        parse_socket("[::127.0.0.1]:22"),
        Some(SocketAddress::new(v6([0, 0, 0, 0, 0, 0, 0x7F00, 1]), 22))
    );
    assert_eq!(
        parse_socket("[2a02:6b8:0:1::1%1234]:53"),
        Some(SocketAddress { ip: v6([0x2a02, 0x6b8, 0, 1, 0, 0, 0, 1]), port: 53, scope_id: 1234 })
    );
    for sample in ["127.0.0.1", "127.0.0.1:", "[127.0.0.1]:22", "127.0.0.1:123456"] {
        assert_eq!(parse_socket(sample), None, "{:?}", sample);
    }
}
