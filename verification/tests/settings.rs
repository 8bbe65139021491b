use omarchy_hotspot::backend::{Band, Security};
use omarchy_hotspot::config::Config;
use omarchy_hotspot::error::CoreError;
use omarchy_hotspot::iw::WifiCaps;
use omarchy_hotspot::settings::{
    any_dirty, merge_changed, profile_changed, restart_needed, section_dirty, set_text, step,
    validate, Advanced, Env, Focus, Item, Section, TextError,
};

fn caps() -> WifiCaps {
    WifiCaps {
        ap: true,
        sae: true,
        channels_2ghz: vec![1, 6, 11],
        channels_5ghz: vec![36, 40],
    }
}

fn env() -> Env {
    Env {
        caps: Some(caps()),
        uplinks: vec!["enp14s0".into(), "wg0".into()],
    }
}

fn default_config() -> Config {
    Config::defaults_for("pc")
}

#[test]
fn arrows_cycle_through_options() {
    let mut c = default_config();
    let e = env();
    step(&mut c, Item::Channel, true, &e);
    assert_eq!(c.hotspot.channel, 1);
    step(&mut c, Item::Channel, false, &e);
    step(&mut c, Item::Channel, false, &e);
    assert_eq!(c.hotspot.channel, 40, "back from auto is the last channel");
    step(&mut c, Item::Uplink, true, &e);
    assert_eq!(c.network.uplink_interface, "enp14s0");
    step(&mut c, Item::Dns, true, &e);
    assert_eq!(c.network.dns, ["1.1.1.1", "1.0.0.1"]);
    step(&mut c, Item::Timer, false, &e);
    assert_eq!(c.automation.timer_minutes, 480);
}

#[test]
fn band_change_drops_unfit_channel_and_width() {
    let mut c = default_config();
    c.hotspot.band = Band::Ghz5;
    c.hotspot.channel = 36;
    c.hotspot.width_mhz = 80;
    let e = env();
    step(&mut c, Item::Band, true, &e);
    assert_eq!(c.hotspot.band, Band::Auto);
    assert_eq!(c.hotspot.channel, 36, "channel 36 is fine in auto");
    step(&mut c, Item::Band, true, &e);
    assert_eq!(c.hotspot.band, Band::Ghz2_4);
    assert_eq!(c.hotspot.channel, 0);
    assert_eq!(c.hotspot.width_mhz, 40);
    step(&mut c, Item::Width, true, &e);
    step(&mut c, Item::Width, true, &e);
    assert_eq!(c.hotspot.width_mhz, 40);
}

#[test]
fn five_ghz_is_hidden_when_card_has_no_channels() {
    let mut c = default_config();
    let mut e = env();
    e.caps.as_mut().unwrap().channels_5ghz.clear();
    for _ in 0..4 {
        step(&mut c, Item::Band, true, &e);
        assert_ne!(c.hotspot.band, Band::Ghz5);
    }
}

#[test]
fn text_input_is_checked() {
    let mut c = default_config();
    assert!(set_text(&mut c, Item::Country, "ua").is_ok());
    assert_eq!(c.hotspot.country, "UA");
    assert!(set_text(&mut c, Item::Country, "Ukraine").is_err());
    assert!(set_text(&mut c, Item::Subnet, "192.168.7.1").is_ok());
    assert_eq!(c.network.subnet, "192.168.7.1/24");
    assert!(set_text(&mut c, Item::Subnet, "8.8.8.8/24").is_err());
    assert_eq!(c.network.subnet, "192.168.7.1/24", "a bad value was written");
    assert!(set_text(&mut c, Item::Dns, "1.1.1.1, 9.9.9.9").is_ok());
    assert_eq!(c.network.dns, ["1.1.1.1", "9.9.9.9"]);
    assert!(set_text(&mut c, Item::Dns, "1.1.1.1 1.1.1.1").is_err());
    assert!(set_text(&mut c, Item::Dns, "a b c d e").is_err());
    assert!(set_text(&mut c, Item::Dns, "").is_ok());
    assert!(c.network.dns.is_empty());
    assert!(set_text(&mut c, Item::Timer, "90").is_ok());
    assert_eq!(c.automation.timer_minutes, 90);
    assert!(set_text(&mut c, Item::IdleOff, "-5").is_err());
    assert!(set_text(&mut c, Item::IdleOff, "100000").is_err());
}

#[test]
fn refused_text_names_its_reason() {
    let mut c = default_config();
    assert_eq!(set_text(&mut c, Item::Country, "U1"), Err(TextError::Country));
    assert_eq!(
        set_text(&mut c, Item::Subnet, "8.8.8.8/24"),
        Err(TextError::Subnet("8.8.8.8/24".to_string()))
    );
    assert_eq!(set_text(&mut c, Item::Dns, "not-an-ip"), Err(TextError::Dns));
    assert_eq!(set_text(&mut c, Item::Timer, "1441"), Err(TextError::Minutes));
    assert!(set_text(&mut c, Item::Timer, "1440").is_ok());
    assert_eq!(c.automation.timer_minutes, 1440);
}

#[test]
fn dirty_sections_merge_and_restart() {
    let cfg = default_config();
    let mut draft = cfg.clone();
    assert!(!any_dirty(&draft, &cfg));
    draft.automation.idle_off_minutes = 10;
    assert!(section_dirty(Section::Automation, &draft, &cfg));
    assert!(!section_dirty(Section::Radio, &draft, &cfg));
    assert!(!restart_needed(&draft, &cfg), "the idle timer needs no restart");
    draft.network.dns = vec!["1.1.1.1".into()];
    assert!(restart_needed(&draft, &cfg));
    assert!(!profile_changed(&draft, &cfg));
    draft.hotspot.ssid = "Stale".into();
    draft.access.blocked_macs = vec!["aa:bb:cc:dd:ee:ff".into()];
    let mut latest = cfg.clone();
    latest.hotspot.ssid = "Fresh".into();
    latest.access.approval_required = false;
    merge_changed(&mut latest, &draft, &cfg);
    assert_eq!(latest.hotspot.ssid, "Fresh");
    assert!(latest.access.blocked_macs.is_empty());
    assert!(!latest.access.approval_required);
    assert_eq!(latest.automation.idle_off_minutes, 10);
}

#[test]
fn wpa3_without_sae_is_refused_on_save() {
    let mut e = env();
    e.caps.as_mut().unwrap().sae = false;
    let c = default_config();
    assert!(matches!(validate(&c, &e), Err(CoreError::Wpa3Unsupported)));
    let mut c2 = c.clone();
    c2.hotspot.security = Security::Wpa2;
    assert!(validate(&c2, &e).is_ok());
}

#[test]
fn outside_config_changes_keep_unsaved_edits() {
    let cfg = default_config();
    let mut adv = Advanced::new(&cfg);
    adv.draft.hotspot.hidden = true;
    let mut new = cfg.clone();
    new.hotspot.ssid = "Renamed".into();
    new.access.approval_required = false;
    adv.draft.hotspot.ap_isolation = false;
    adv.sync_from(&cfg, &new);
    assert!(adv.draft.hotspot.hidden, "an unsaved edit was lost");
    assert!(!adv.draft.hotspot.ap_isolation);
    assert!(!adv.draft.access.approval_required, "the new settings were not taken");
    assert_eq!(adv.draft.hotspot.ssid, "Renamed");
}

#[test]
fn cursor_moves_round_sections_and_items() {
    let mut adv = Advanced::new(&default_config());
    assert_eq!(adv.item(), None, "the cursor starts on the sections");
    adv.move_section(false);
    assert_eq!(adv.section, Section::Expert);
    adv.move_section(true);
    assert_eq!(adv.section, Section::Radio);
    adv.focus = Focus::Items;
    assert_eq!(adv.item(), Some(Item::Band));
    adv.move_item(false);
    assert_eq!(adv.item(), Some(Item::Country));
    adv.move_item(true);
    assert_eq!(adv.item_idx, 0);
    adv.move_item(true);
    adv.move_section(true);
    assert_eq!((adv.section, adv.item_idx), (Section::Security, 0));
}
