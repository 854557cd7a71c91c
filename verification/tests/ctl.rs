use mandrake::common::problem::Problem;
use mandrake::ctl::client::{certificate_matches, check, encode_query, parse_fingerprint, reply_showable, try_check, Error, Reply};
use mandrake::ctl::client::{probes_default_socket, route_for, token_from, Route, DEFAULT_SOCKET};
use mandrake::ctl::flags::{parse_nic, parse_size, parse_vdev, password_from, size_patch, PasswordArgs};
use mandrake::ctl::output::{duration, opt, pct, size};

#[test]
fn query_encoding() {
    let q = encode_query(&[
        ("since", "2026-09-01T00:00:00Z".to_owned()),
        ("action", "user.create".to_owned()),
    ]);
    assert_eq!(q, "since=2026-09-01T00%3A00%3A00Z&action=user.create");
}

#[test]
fn query_encoding_escapes_utf8_bytes() {
    assert_eq!(encode_query(&[("q", "a b/é~".to_owned())]), "q=a%20b%2F%C3%A9~");
    assert_eq!(encode_query(&[]), "");
}

#[test]
fn fingerprint_parsing() {
    let fp = "35:47:1B:0B:99:8C:89:89:C7:D2:88:6C:77:E9:4E:B4:DC:38:E8:0A:31:8C:DB:73:12:68:F0:86:93:1C:53:48";
    let bytes = parse_fingerprint(fp).unwrap_or_default();
    assert_eq!(bytes.len(), 32);
    assert_eq!(bytes[0], 0x35);
    assert!(parse_fingerprint("abc").is_err());
}

#[test]
fn fingerprint_errors_say_why() {
    match parse_fingerprint(&"zz".repeat(32)) {
        Err(Error::Config(m)) => assert_eq!(m, "--fingerprint is not hex"),
        other => panic!("{other:?}"),
    }
    match parse_fingerprint("ab cd") {
        Err(Error::Config(m)) => assert_eq!(m, "--fingerprint must be a SHA-256 (64 hex digits)"),
        other => panic!("{other:?}"),
    }
}

#[test]
fn sizes_and_durations() {
    assert_eq!(size(512), "512 B");
    assert_eq!(size(1536), "1.5 KiB");
    assert_eq!(size(3 * 1024 * 1024 * 1024), "3.0 GiB");
    assert_eq!(duration(59), "0m");
    assert_eq!(duration(3_700), "1h 1m");
    assert_eq!(duration(90_061), "1d 1h 1m");
}

#[test]
fn sizes_match_float_formatting() {
    for bytes in [0u64, 1023, 1024, 1280, 1331, 1075, 1024 * 1024 * 5 / 4, 1 << 40, 123_456_789_012, u32::MAX as u64] {
        let mut value = bytes as f64;
        let mut unit = 0;
        let units = ["B", "KiB", "MiB", "GiB", "TiB"];
        while value >= 1024.0 && unit + 1 < units.len() {
            value /= 1024.0;
            unit += 1;
        }
        let want = if unit == 0 { format!("{bytes} B") } else { format!("{value:.1} {}", units[unit]) };
        assert_eq!(size(bytes), want, "{bytes}");
    }
}

#[test]
fn optional_values_show_a_dash() {
    assert_eq!(opt(None), "-");
    assert_eq!(opt(Some("x")), "x");
    assert_eq!(pct(Some(12)), "12%");
    assert_eq!(pct(None), "-");
}

#[test]
fn nics() {
    let n = parse_nic("net0,stub0,vid=20,address=10.0.0.5/24,gateway=10.0.0.1").unwrap();
    assert_eq!(n.name, "net0");
    assert_eq!(n.over, "stub0");
    assert_eq!(n.vid, Some(20));
    assert_eq!(n.address.as_deref(), Some("10.0.0.5/24"));
    assert_eq!(n.gateway.as_deref(), Some("10.0.0.1"));
    assert!(parse_nic("net0").is_err());
    assert!(parse_nic("net0,stub0,bogus=1").is_err());
    assert!(parse_nic("net0,stub0,vid=x").is_err());
}

#[test]
fn nic_errors_say_why() {
    match parse_nic("net0,stub0,mac") {
        Err(Error::Config(m)) => assert_eq!(m, "nic option must be key=value: mac"),
        other => panic!("{other:?}"),
    }
    match parse_nic(" , x") {
        Err(Error::Config(m)) => assert_eq!(m, "nic needs NAME,OVER:  , x"),
        other => panic!("{other:?}"),
    }
}

#[test]
fn sizes() {
    assert_eq!(parse_size("1024").unwrap(), 1024);
    assert_eq!(parse_size("4K").unwrap(), 4096);
    assert_eq!(parse_size("10G").unwrap(), 10 * 1024 * 1024 * 1024);
    assert_eq!(parse_size("1.5t").unwrap(), 1_649_267_441_664);
    assert_eq!(parse_size("512 MiB").unwrap(), 512 * 1024 * 1024);
    assert!(parse_size("ten").is_err());
    assert!(parse_size("10X").is_err());
    assert_eq!(size_patch("none").unwrap(), None);
    assert_eq!(size_patch("NONE").unwrap(), None);
    assert_eq!(size_patch("2k").unwrap(), Some(2048));
}

#[test]
fn vdevs() {
    let v = parse_vdev("mirror:c1t1d0,c1t2d0").unwrap();
    assert_eq!(v.type_, "mirror");
    assert_eq!(v.devices, vec!["c1t1d0", "c1t2d0"]);
    assert!(parse_vdev("mirror").is_err());
    assert!(parse_vdev("raid5:c1t1d0").is_err());
    assert!(parse_vdev("log:").is_err());
    assert_eq!(parse_vdev("log: c2t0d0 ,,").unwrap().devices, vec!["c2t0d0"]);
}

#[test]
fn passwords_come_from_the_flag_or_stdin() {
    let flag = PasswordArgs { password: Some("pw".to_owned()), password_stdin: true };
    assert_eq!(password_from(&flag, &[]).unwrap(), "pw");
    let stdin = PasswordArgs { password: None, password_stdin: true };
    assert_eq!(password_from(&stdin, &["first".to_owned(), "second".to_owned()]).unwrap(), "first");
    assert!(password_from(&stdin, &[]).is_err());
    let none = PasswordArgs { password: None, password_stdin: false };
    assert!(matches!(password_from(&none, &[]), Err(Error::Config(_))));
}

#[test]
fn pinned_certificate_matches_its_fingerprint() {
    let fp = parse_fingerprint("BA:78:16:BF:8F:01:CF:EA:41:41:40:DE:5D:AE:22:23:B0:03:61:A3:96:17:7A:9C:B4:10:FF:61:F2:00:15:AD")
        .unwrap();
    assert!(certificate_matches(b"abc", &fp));
    assert!(!certificate_matches(b"abd", &fp));
    assert!(!certificate_matches(b"abc", &fp[..31]));
}

#[test]
fn replies_are_judged_by_status_then_problem() {
    let ok = Reply { status: 204, body: Vec::new() };
    assert!(check(&ok, None).is_ok());
    let p = Problem {
        type_: "about:blank".to_owned(),
        title: "Not Found".to_owned(),
        status: 404,
        detail: None,
        instance: None,
        request_id: None,
    };
    let nf = Reply { status: 404, body: b"{}".to_vec() };
    match check(&nf, Some(p)) {
        Err(Error::Api(p)) => assert_eq!(p.title, "Not Found"),
        other => panic!("{other:?}"),
    }
    let odd = Reply { status: 502, body: b"  bad gateway\n".to_vec() };
    match check(&odd, None) {
        Err(Error::Unexpected { status, body }) => {
            assert_eq!(status, 502);
            assert_eq!(body, "bad gateway");
        },
        other => panic!("{other:?}"),
    }
    let long = Reply { status: 500, body: vec![b'x'; 300] };
    assert!(reply_showable(&long, &None));
    match check(&long, None) {
        Err(Error::Unexpected { body, .. }) => {
            assert_eq!(body.len(), 203);
            assert!(body.ends_with("xxx..."));
        },
        other => panic!("{other:?}"),
    }
    let mut split = vec![b'a'; 199];
    split.extend_from_slice("é and more".as_bytes());
    let split = Reply { status: 500, body: split };
    assert!(!reply_showable(&split, &None));
    assert!(try_check(&split, None).is_none());
    assert!(matches!(try_check(&long, None), Some(Err(Error::Unexpected { status: 500, .. }))));
    let mut clean = vec![b'a'; 198];
    clean.extend_from_slice("é and more".as_bytes());
    let clean = Reply { status: 500, body: clean };
    assert!(reply_showable(&clean, &None));
    match check(&clean, None) {
        Err(Error::Unexpected { body, .. }) => assert!(body.ends_with("aé...")),
        other => panic!("{other:?}"),
    }
    let bad_utf8 = Reply { status: 500, body: vec![0xff, b'o', b'k'] };
    match check(&bad_utf8, None) {
        Err(Error::Unexpected { body, .. }) => assert_eq!(body, "\u{fffd}ok"),
        other => panic!("{other:?}"),
    }
}

#[test]
fn fingerprints_must_be_hex_digits() {
    assert!(matches!(parse_fingerprint(&"+f".repeat(32)), Err(Error::Config(m)) if m == "--fingerprint is not hex"));
    assert!(matches!(parse_fingerprint(&"é".repeat(32)), Err(Error::Config(m)) if m == "--fingerprint is not hex"));
    assert!(matches!(parse_fingerprint(&"é".repeat(31)), Err(Error::Config(m)) if m.contains("64 hex digits")));
    assert_eq!(parse_fingerprint(&"aB".repeat(32)).unwrap(), vec![0xab; 32]);
}

#[test]
fn connect_picks_socket_then_default_then_server() {
    match route_for(Some("/tmp/s.sock".to_owned()), Some("https://h".to_owned()), true, true) {
        Ok(Route::Unix(p)) => assert_eq!(p, "/tmp/s.sock"),
        other => panic!("{other:?}"),
    }
    assert!(probes_default_socket(&None, &None, false));
    assert!(!probes_default_socket(&None, &None, true));
    match route_for(None, None, false, true) {
        Ok(Route::Unix(p)) => assert_eq!(p, DEFAULT_SOCKET),
        other => panic!("{other:?}"),
    }
    match route_for(None, None, false, false) {
        Ok(Route::Https(b)) => assert_eq!(b, "https://localhost"),
        other => panic!("{other:?}"),
    }
    match route_for(None, Some("https://mandrake.example:8443//".to_owned()), false, true) {
        Ok(Route::Https(b)) => assert_eq!(b, "https://mandrake.example:8443"),
        other => panic!("{other:?}"),
    }
    match route_for(None, Some("mandrake.example/".to_owned()), true, false) {
        Err(e) => assert_eq!(e.message(), "--server must be a URL, got `mandrake.example`"),
        other => panic!("{other:?}"),
    }
    assert_eq!(token_from(Some("t".to_owned()), Some("f".to_owned()), None).as_deref(), Some("t"));
    assert_eq!(token_from(None, Some("  f \n".to_owned()), Some("d".to_owned())).as_deref(), Some("f"));
    assert_eq!(token_from(None, None, Some(" d\n".to_owned())).as_deref(), Some("d"));
    assert_eq!(token_from(None, None, Some(" \n".to_owned())), None);
    assert_eq!(token_from(None, None, None), None);
}
