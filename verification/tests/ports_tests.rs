use dsh_desktop::ports::{
    find_free_port_step, page_is_dsh, port_from_setting, probe_request, PortScan, DEFAULT_PORT,
};
use dsh_desktop::text::{parse_u16_text, u16_to_decimal};

#[test]
fn port_setting_accepts_valid_ports_only() {
    assert_eq!(port_from_setting(&None), 3080);
    assert_eq!(port_from_setting(&Some("4000".to_string())), 4000);
    assert_eq!(port_from_setting(&Some("+4001".to_string())), 4001);
    assert_eq!(port_from_setting(&Some("004002".to_string())), 4002);
    assert_eq!(port_from_setting(&Some("0".to_string())), DEFAULT_PORT);
    assert_eq!(port_from_setting(&Some("65536".to_string())), DEFAULT_PORT);
    assert_eq!(port_from_setting(&Some("-1".to_string())), DEFAULT_PORT);
    assert_eq!(port_from_setting(&Some(" 80".to_string())), DEFAULT_PORT);
    assert_eq!(port_from_setting(&Some("+".to_string())), DEFAULT_PORT);
    assert_eq!(port_from_setting(&Some("".to_string())), DEFAULT_PORT);
    assert_eq!(port_from_setting(&Some("80a".to_string())), DEFAULT_PORT);
    assert_eq!(port_from_setting(&Some("65535".to_string())), 65535);
}

#[test]
fn parse_matches_std() {
    for s in ["0", "1", "65535", "65536", "+7", "-7", "", "+", "++1", "1 ", "99999999999", "0012"] {
        assert_eq!(parse_u16_text(s), s.parse::<u16>().ok(), "input {:?}", s);
    }
}

#[test]
fn decimal_matches_to_string_and_round_trips() {
    for p in [0u16, 1, 9, 10, 99, 100, 3080, 65535] {
        let text = u16_to_decimal(p);
        assert_eq!(text, p.to_string());
        if p > 0 {
            assert_eq!(port_from_setting(&Some(text)), p);
        }
    }
}

#[test]
fn page_marker_detection() {
    assert!(page_is_dsh("<!doctype html><html><script>window.__DSH_BOOT__=1</script></html>"));
    assert!(!page_is_dsh("<!doctype html><html><body>hello world</body></html>"));
    assert!(!page_is_dsh(""));
    assert!(!page_is_dsh("__DSH_BOOT_"));
    assert!(page_is_dsh("__DSH_BOOT__"));
}

#[test]
fn free_port_scan_steps() {
    assert_eq!(find_free_port_step(3080, false), PortScan::Found(3080));
    assert_eq!(find_free_port_step(3080, true), PortScan::Next(3081));
    assert_eq!(find_free_port_step(65535, true), PortScan::Exhausted);
    assert_eq!(find_free_port_step(65535, false), PortScan::Found(65535));
}

#[test]
fn free_port_scan_finds_first_free() {
    let used = [3080u16, 3081, 3083];
    let mut p = 3080u16;
    let found = loop {
        match find_free_port_step(p, used.contains(&p)) {
            PortScan::Found(q) => break Some(q),
            PortScan::Next(q) => p = q,
            PortScan::Exhausted => break None,
        }
    };
    assert_eq!(found, Some(3082));
}

#[test]
fn probe_request_text() {
    assert_eq!(probe_request(), "GET / HTTP/1.1\r\nHost: 127.0.0.1\r\nConnection: close\r\n\r\n");
}
