use omarchy_hotspot::backend::Band;
use omarchy_hotspot::config::Config;
use omarchy_hotspot::settings::{
    is_risky, save_plan, save_warning, text_value, toggle_state, Item, SavePlan, SaveWarning,
};

#[test]
fn a_running_hotspot_restarts_for_a_new_band() {
    let old = Config::defaults_for("pc");
    let mut draft = old.clone();
    draft.hotspot.band = Band::Ghz5;
    assert_eq!(
        save_plan(true, true, &draft, &old),
        SavePlan { restart: true, update_profile: false, refresh_firewall: false }
    );
    assert_eq!(
        save_plan(false, true, &draft, &old),
        SavePlan { restart: false, update_profile: true, refresh_firewall: false }
    );
}

#[test]
fn guests_access_is_renewed_by_the_window_only_without_service() {
    let old = Config::defaults_for("pc");
    let mut draft = old.clone();
    draft.hotspot.guests_can_reach_pc = !old.hotspot.guests_can_reach_pc;
    assert!(save_plan(true, false, &draft, &old).refresh_firewall);
    assert!(!save_plan(true, true, &draft, &old).refresh_firewall);
    assert!(!save_plan(false, false, &draft, &old).refresh_firewall);
    assert!(!save_plan(true, false, &draft, &old).update_profile);
}

#[test]
fn settings_that_need_the_service_warn_without_it() {
    let old = Config::defaults_for("pc");
    let mut draft = old.clone();
    draft.automation.idle_off_minutes = 30;
    assert_eq!(save_warning(true, true, &draft, &draft, &old), None);
    assert_eq!(
        save_warning(false, false, &draft, &draft, &old),
        Some(SaveWarning::TimersWithoutService)
    );
    let mut approving = draft.clone();
    approving.access.approval_required = true;
    assert_eq!(
        save_warning(false, true, &approving, &draft, &old),
        Some(SaveWarning::ApprovalWithoutService)
    );
    assert_eq!(save_warning(false, false, &old, &old, &old), None);
}

#[test]
fn typed_values_start_from_the_settings() {
    let mut cfg = Config::defaults_for("pc");
    cfg.network.dns = vec!["1.1.1.1".into(), "9.9.9.9".into()];
    cfg.automation.idle_off_minutes = 15;
    assert_eq!(text_value(&cfg, Item::Dns), "1.1.1.1, 9.9.9.9");
    assert_eq!(text_value(&cfg, Item::IdleOff), "15");
    assert_eq!(text_value(&cfg, Item::Subnet), cfg.network.subnet);
    assert_eq!(text_value(&cfg, Item::Band), "");
    cfg.hotspot.ap_isolation = false;
    assert_eq!(toggle_state(&cfg, Item::Isolation), Some(false));
    assert_eq!(toggle_state(&cfg, Item::Band), None);
    assert!(is_risky(&cfg, Item::Isolation));
    cfg.hotspot.ap_isolation = true;
    assert!(!is_risky(&cfg, Item::Isolation));
    assert!(!is_risky(&cfg, Item::Band));
}
