use omarchy_hotspot::backend::Security;
use omarchy_hotspot::qr::{escape, half_blocks, matrix, wifi_qr_string};
use omarchy_hotspot::secret::Secret;

#[test]
fn escapes_special_chars() {
    assert_eq!(escape(r#"a\b;c,d:e"f"#), r#"a\\b\;c\,d\:e\"f"#);
    assert_eq!(escape("Сеть 1"), "Сеть 1");
}

#[test]
fn builds_wifi_string() {
    let psk = Secret::new("p;ss:w\"rd");
    let s = wifi_qr_string("My,Net", &psk, Security::Wpa3, false);
    assert_eq!(s.expose(), r#"WIFI:T:WPA;S:My\,Net;P:p\;ss\:w\"rd;;"#);
    let h = wifi_qr_string("N", &Secret::new("12345678"), Security::Wpa2, true);
    assert_eq!(h.expose(), "WIFI:T:WPA;S:N;P:12345678;H:true;;");
}

#[test]
fn renders_matrix() {
    let m = matrix("WIFI:T:WPA;S:x;P:12345678;;", 2).unwrap();
    assert_eq!(m.len(), 29);
    assert!(m[0].iter().all(|&d| !d));
    assert!(m[2][2]);
    let lines = half_blocks(&m);
    assert_eq!(lines.len(), 15);
    assert!(lines.iter().all(|l| l.chars().count() == 29));
}

#[test]
fn half_blocks_pair_rows() {
    let m = vec![vec![true, false, true, false], vec![true, true, false, false], vec![true, false, false, true]];
    assert_eq!(half_blocks(&m), vec!["█▄▀ ".to_string(), "▀  ▀".to_string()]);
}

#[test]
fn quiet_zone_surrounds_the_code() {
    let m = matrix("x", 0).unwrap();
    let m4 = matrix("x", 4).unwrap();
    assert_eq!(m4.len(), m.len() + 8);
    for y in 0..m.len() {
        for x in 0..m.len() {
            assert_eq!(m4[y + 4][x + 4], m[y][x]);
        }
    }
    assert!(m4[3].iter().all(|&d| !d));
}
