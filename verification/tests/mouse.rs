use omarchy_hotspot::config::Config;
use omarchy_hotspot::editor::Mode;
use omarchy_hotspot::settings::{Advanced, ExpertOutput, Focus, Section};
use omarchy_hotspot::mouse::{wheel_step, Hits, Rect, Scroll, Target};

fn rect(x: u16, y: u16, width: u16, height: u16) -> Rect {
    Rect { x, y, width, height }
}

#[test]
fn a_click_presses_the_topmost_place() {
    let mut hits = Hits::new();
    hits.click(rect(0, 0, 20, 10), Target::Tab(Mode::Simple));
    hits.wheel(rect(0, 0, 20, 10), Scroll::SimpleDevices);
    hits.click(rect(2, 2, 5, 1), Target::Toggle);
    assert_eq!(hits.target_at(3, 2), Some(Target::Toggle));
    assert_eq!(hits.target_at(3, 3), Some(Target::Tab(Mode::Simple)));
    assert_eq!(hits.target_at(7, 2), Some(Target::Tab(Mode::Simple)));
    assert_eq!(hits.target_at(20, 0), None);
    assert_eq!(hits.scroll_at(3, 2), Some(Scroll::SimpleDevices));
    assert_eq!(hits.scroll_at(0, 10), None);
}

#[test]
fn empty_places_are_not_recorded() {
    let mut hits = Hits::new();
    hits.click(rect(0, 0, 0, 5), Target::Qr);
    hits.wheel(rect(0, 0, 5, 0), Scroll::Output);
    assert!(hits.spots.is_empty());
    hits.click(rect(65535, 65535, 1, 1), Target::Device(3));
    assert_eq!(hits.target_at(65535, 65535), Some(Target::Device(3)));
    hits.clear();
    assert_eq!(hits.target_at(65535, 65535), None);
}

#[test]
fn wheel_moves_selection_without_wrapping() {
    assert_eq!(wheel_step(0, 5, true), 1);
    assert_eq!(wheel_step(4, 5, true), 4);
    assert_eq!(wheel_step(0, 5, false), 0);
    assert_eq!(wheel_step(3, 5, false), 2);
    assert_eq!(wheel_step(0, 0, true), 0);
    let n = 8;
    let mut cur = 0;
    for _ in 0..n + 3 {
        cur = wheel_step(cur, n, true);
    }
    assert_eq!(cur, n - 1, "the wheel jumped to the start");
}

#[test]
fn clicks_select_sections_and_items_but_change_nothing() {
    let cfg = Config::defaults_for("pc");
    let mut a = Advanced::new(&cfg);
    a.click_section(1);
    assert_eq!((a.section, a.focus), (Section::Security, Focus::Sections));
    a.click_item(2);
    assert_eq!((a.focus, a.item_idx), (Focus::Items, 2));
    a.click_item(40);
    assert_eq!(a.item_idx, 2, "no such item");
    a.click_section(1);
    assert_eq!(a.item_idx, 2, "the same section keeps its item");
    a.click_section(0);
    assert_eq!((a.section, a.item_idx), (Section::Radio, 0));
    a.click_section(9);
    assert_eq!(a.section, Section::Radio);
    assert_eq!(a.draft, cfg, "a click changes no setting");
}

#[test]
fn device_rows_are_clickable() {
    let mut a = Advanced::new(&Config::defaults_for("pc"));
    a.click_device(1, 2);
    assert_eq!(a.focus, Focus::Sections, "not in the devices section");
    a.section = Section::Devices;
    a.click_device(1, 2);
    assert_eq!((a.focus, a.device_idx), (Focus::Items, 1));
    a.click_device(2, 2);
    assert_eq!(a.device_idx, 1, "no such row");
}

#[test]
fn simple_device_list_scrolls_with_the_wheel() {
    let mut first = 0;
    for _ in 0..5 {
        first = wheel_step(first, 3, true);
    }
    assert_eq!(first, 2);
    first = wheel_step(first, 3, false);
    assert_eq!(first, 1);
}

#[test]
fn the_wheel_moves_sections_items_devices_and_the_log() {
    let mut a = Advanced::new(&Config::defaults_for("pc"));
    a.wheel_sections(true);
    assert_eq!((a.section, a.focus), (Section::Security, Focus::Sections));
    for _ in 0..10 {
        a.wheel_sections(true);
    }
    assert_eq!(a.section, Section::Expert, "no wrapping round");
    a.wheel_items(true);
    assert_eq!((a.focus, a.item_idx), (Focus::Items, 0), "the first turn only focuses");
    a.wheel_items(true);
    a.wheel_items(true);
    a.wheel_items(true);
    assert_eq!(a.item_idx, 2, "the expert section has three items");
    a.section = Section::Devices;
    a.focus = Focus::Sections;
    a.device_idx = 7;
    a.wheel_devices(true, 3);
    assert_eq!((a.focus, a.device_idx), (Focus::Items, 2));
    a.wheel_devices(false, 3);
    assert_eq!(a.device_idx, 1);
    a.output = ExpertOutput::Log(vec!["a".into(); 5]);
    a.wheel_output(false);
    assert_eq!(a.log_scroll, 3);
    a.wheel_output(false);
    assert_eq!(a.log_scroll, 5, "not past the first line");
    a.wheel_output(true);
    assert_eq!(a.log_scroll, 2);
}
