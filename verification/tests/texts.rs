use onvif_discovery::addr::Ipv4Addr;
use onvif_discovery::text;

#[test]
fn white_space_is_that_of_unicode() {
    for u in 0..=0x10ffffu32 {
        if let Some(c) = char::from_u32(u) {
            assert_eq!(text::is_white_space(c), c.is_whitespace());
        }
    }
}

#[test]
fn searching_agrees_with_std() {
    let samples = ["", "a", "aa", "aab", "abab", "xaabaab", "ünïcödé a", "tds:Service"];
    for s in samples {
        for p in samples {
            assert_eq!(text::has(s, p), s.contains(p));
            assert_eq!(text::starts_with(s, p), s.starts_with(p));
            assert_eq!(text::ends_with(s, p), s.ends_with(p));
            assert_eq!(text::same(s, p), s == p);
            assert_eq!(text::strip_prefix(s, p), s.strip_prefix(p).map(str::to_string));
        }
    }
}

#[test]
fn splitting_agrees_with_std() {
    let samples = [
        "",
        "a",
        " a  b\tc\u{3000}d ",
        "one\ntwo\r\nthree\r",
        "\n\r\n",
        "last\n",
        "k=v=w",
        "=",
        "a/b/c",
        "a/",
    ];
    for s in samples {
        assert_eq!(text::split_words(s), s.split_whitespace().collect::<Vec<_>>());
        assert_eq!(text::split_lines(s), s.lines().collect::<Vec<_>>());
        assert_eq!(text::trimmed(s), s.trim());
        assert_eq!(Some(text::head(s, '/')), s.split('/').next().map(str::to_string));
        assert_eq!(Some(text::tail(s, '/')), s.split('/').last().map(str::to_string));
        assert_eq!(text::field_after(s, '='), s.split('=').nth(1).map(str::to_string));
        assert_eq!(text::is_empty(s), s.is_empty());
    }
}

#[test]
fn numbers_agree_with_std() {
    for n in [0u64, 7, 10, 99, 100, 65535, u64::MAX] {
        assert_eq!(text::decimal_text(n), n.to_string());
    }
    for s in ["", "+", "-1", "0", "+0", "007", "12a", "4294967295", "4294967296", "+12", " 1", "１"] {
        assert_eq!(text::parse_u32(s), s.parse::<u32>().ok());
    }
}

#[test]
fn addresses_are_written_and_read_back() {
    for (a, b, c, d) in [(0, 0, 0, 0), (192, 168, 1, 100), (255, 255, 255, 255), (10, 0, 9, 99)] {
        let address = Ipv4Addr::new(a, b, c, d);
        assert_eq!(address.to_string(), format!("{}.{}.{}.{}", a, b, c, d));
        assert_eq!(Ipv4Addr::parse(&address.to_string()), Some(address));
    }
    assert_eq!(Ipv4Addr::new(1, 2, 3, 4).bits, 0x0102_0304);
}

#[test]
fn what_is_no_address_is_refused() {
    let wrong = [
        "",
        "1.2.3",
        "1.2.3.4.5",
        "1.2.3.",
        ".1.2.3",
        "1..2.3",
        "256.1.1.1",
        "01.2.3.4",
        "1.2.3.4 ",
        "1.2.3.x",
        "1.2.3.1000",
        "camera.local",
        "[::1]",
        "::1",
    ];
    for s in wrong {
        assert_eq!(Ipv4Addr::parse(s), None);
    }
}
