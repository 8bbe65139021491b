use omarchy_hotspot::fit::{
    corner_exprs, fit_on_monitor, parse_size, size_rule_lua, valid_address, Fitter, Monitor, Pass,
    MAX_ATTEMPTS, SETTLE_MS,
};

#[test]
fn address_format() {
    assert!(valid_address("0x55ee4743ed80"));
    assert!(!valid_address("55ee"));
    assert!(!valid_address("0x"));
    assert!(!valid_address("0x12 34"));
    assert!(!valid_address("0x12345678901234567"));
}

#[test]
fn places_once_refits_until_the_size_matches_then_remembers_it() {
    let now: u64 = 100_000;
    let past = now - SETTLE_MS * 2;
    let mut f = Fitter { disabled: true, ..Fitter::default() };
    f.want((92, 24), true, now);
    f.wanted_since = Some(past);
    assert_eq!(f.decide((120, 37), now), None, "nothing without Hyprland");

    let mut f = Fitter::default();
    f.want((92, 24), true, now);
    f.wanted_since = Some(past);
    f.last_term = Some((92, 24));
    f.term_changed = Some(past);
    assert_eq!(f.decide((92, 24), now), Some(Pass::Fit((92, 24))));
    assert_eq!(f.decide((92, 24), now), Some(Pass::Remember));
    assert_eq!(f.decide((92, 24), now), None);
    assert_eq!(f.done_for, Some((92, 24)));
    assert_eq!(f.decide((130, 40), now + SETTLE_MS * 2), None);

    f.want((60, 12), false, now);
    f.wanted_since = Some(past);
    let later = now + SETTLE_MS * 4;
    let passes: Vec<Pass> = (0..10).filter_map(|_| f.decide((130, 40), later)).collect();
    assert_eq!(passes.len(), usize::from(MAX_ATTEMPTS));
    assert!(!passes.contains(&Pass::Remember));
}

#[test]
fn fitting_waits_for_the_size_to_settle() {
    let mut f = Fitter::new(false);
    assert_eq!(f.decide((80, 20), 0), None);
    f.want((90, 25), true, 1_000);
    assert_eq!(f.decide((80, 20), 1_100), None);
    assert_eq!(f.decide((80, 20), 1_400), Some(Pass::Fit((90, 25))));
    f.busy = true;
    assert_eq!(f.decide((80, 20), 2_000), None);
    assert!(!f.own_window());
}

fn monitor(x: i64, y: i64, width: i64, height: i64, reserved: [i64; 4]) -> Monitor {
    Monitor {
        x,
        y,
        width,
        height,
        reserved_left: reserved[0],
        reserved_top: reserved[1],
        reserved_right: reserved[2],
        reserved_bottom: reserved[3],
    }
}

#[test]
fn corner_is_under_the_bar_wherever_it_is() {
    let gap = 7;
    let top = monitor(0, 0, 2560, 1440, [0, 26, 0, 0]);
    assert_eq!(top.corner(700, 400, gap), (2560 - 7 - 700, 26 + 7));
    assert_eq!(top.free_size(gap), (2560 - 14, 1440 - 26 - 14));
    let bottom = monitor(2560, 0, 1920, 1080, [0, 0, 0, 30]);
    assert_eq!(bottom.corner(700, 400, gap), (2560 + 1920 - 7 - 700, 1080 - 30 - 7 - 400));
    let right = monitor(0, 1440, 1080, 1920, [0, 0, 40, 0]);
    assert_eq!(right.corner(700, 400, gap), (1080 - 40 - 7 - 700, 1440 + 7));
    assert_eq!(fit_on_monitor((1800, 900), (1266, 700)), (1266, 700));
    assert_eq!(fit_on_monitor((657, 396), (2546, 1400)), (657, 396));
    assert_eq!(fit_on_monitor((657, 396), (-50, 10)), (100, 100));
    let odd = monitor(0, 0, 800, 600, [0, 600, 0, 0]);
    assert!(odd.free_size(gap).1 < 200);
    let huge = monitor(i64::MAX, 0, 10, 10, [0, 0, 0, 0]);
    assert_eq!(huge.corner(5, 5, 0).0, i64::MAX - 5);
}

#[test]
fn remembered_size_file_and_rule() {
    assert_eq!(parse_size("657 396\n"), Some((657, 396)));
    for bad in ["", "657", "657 x", "657 396 1", "5 396", "657 99999", "-657 396"] {
        assert_eq!(parse_size(bad), None, "{bad:?}");
    }
    assert_eq!(
        size_rule_lua(657, 396, None),
        r#"if omarchy_hotspot_size_rule then omarchy_hotspot_size_rule:set_enabled(false) end; omarchy_hotspot_size_rule = hl.window_rule({ match = { class = "^(org\\.omarchy\\.omarchy-hotspot)$" }, size = { 657, 396 } })"#
    );
    let top = monitor(0, 0, 2560, 1440, [0, 26, 0, 0]);
    let place = corner_exprs(&top, 657, 396, 7);
    assert_eq!(place, ["(monitor_w-664)".to_string(), "(33)".to_string()]);
    assert!(size_rule_lua(657, 396, Some(&place))
        .ends_with(r#"size = { 657, 396 }, move = { "(monitor_w-664)", "(33)" } })"#));
    let bottom = monitor(2560, 0, 1920, 1080, [0, 0, 0, 30]);
    assert_eq!(
        corner_exprs(&bottom, 657, 396, 7),
        ["(monitor_w-664)".to_string(), "(monitor_h-433)".to_string()]
    );
    assert_eq!(top.corner(657, 396, 7), (2560 - 664, 33));
}
