use omarchy_hotspot::proto::Mac;
use omarchy_hotspot::window::{
    accept, cancel, closes_on_focus_loss, password_tick, quit_decision, toggle_action,
    toggle_password, toggle_qr, Answer, Confirm, DeviceReserve, PasswordView, QrStep, Questions,
    QuitDecision, ToggleAction, MAX_DEVICE_ROWS, MIN_DEVICE_ROWS,
};

fn mac(n: u64) -> Mac {
    Mac { bits: 0xaabb_ccdd_ee00 + n }
}

#[test]
fn device_reserve_grows_at_once_and_shrinks_slowly() {
    let mut r = DeviceReserve::new();
    r.update(2, 0);
    assert_eq!(r.rows, MIN_DEVICE_ROWS, "two devices fit the reserve");
    r.update(3, 0);
    assert_eq!(r.rows, 4, "a third device: two more rows at once");
    r.update(4, 0);
    assert_eq!(r.rows, 4);
    r.update(1, 0);
    r.update(1, 10_000);
    assert_eq!(r.rows, 4, "fewer devices: the window does not shrink at once");
    r.update(1, 40_000);
    assert_eq!(r.rows, MIN_DEVICE_ROWS, "after half a minute it does");
    r.update(20, 40_000);
    assert_eq!(r.rows, MAX_DEVICE_ROWS, "more than eight scroll");
}

#[test]
fn window_closes_on_focus_loss_but_never_drops_open_work() {
    assert!(closes_on_focus_loss(true, true, false, false, false, false, false));
    assert!(!closes_on_focus_loss(true, false, false, false, false, false, false));
    assert!(!closes_on_focus_loss(false, true, false, false, false, false, false));
    assert!(!closes_on_focus_loss(true, true, true, false, false, false, false));
    assert!(!closes_on_focus_loss(true, true, false, true, false, false, false));
    assert!(!closes_on_focus_loss(true, true, false, false, false, true, false));
    assert!(!closes_on_focus_loss(true, true, false, false, false, false, true));
}

#[test]
fn quitting_with_unsaved_changes_asks_first() {
    assert_eq!(quit_decision(true, false), QuitDecision::AskUnsaved);
    assert_eq!(quit_decision(false, false), QuitDecision::Quit);
    assert_eq!(quit_decision(true, true), QuitDecision::Quit);
    assert_eq!(cancel(&Some(Confirm::UnsavedQuit)), Answer::Quit);
    assert_eq!(accept(&Some(Confirm::UnsavedQuit)), Answer::SaveThenQuit);
}

#[test]
fn confirm_asks_before_taking_the_adapter() {
    let client = Some("Home".to_string());
    assert_eq!(
        toggle_action(false, false, false, false, &client),
        ToggleAction::AskOverClient("Home".to_string())
    );
    assert_eq!(accept(&Some(Confirm::StartOverClient("Home".into()))), Answer::Start);
    assert_eq!(cancel(&Some(Confirm::StartOverClient("Home".into()))), Answer::Nothing);
}

#[test]
fn no_question_when_adapter_is_free() {
    assert_eq!(toggle_action(false, false, false, false, &None), ToggleAction::Start);
    assert_eq!(toggle_action(false, false, false, true, &Some("x".into())), ToggleAction::Stop);
    assert_eq!(toggle_action(true, false, false, false, &None), ToggleAction::Ignore);
    assert_eq!(toggle_action(false, false, true, true, &None), ToggleAction::Ignore);
}

#[test]
fn new_device_turns_into_a_question_once() {
    let mut q = Questions::new();
    q.queue(mac(1), "Phone-01".into(), None);
    let (m, name) = q.next().unwrap();
    assert_eq!((m, name.as_str()), (mac(1), "Phone-01"));
    // While its question is on the screen the same event does not queue it again.
    q.queue(mac(1), "Phone-01".into(), Some(mac(1)));
    assert!(q.pending.is_empty());
}

#[test]
fn answer_changes_status_and_is_not_asked_again() {
    let mut q = Questions::new();
    q.queue(mac(1), "Phone-01".into(), None);
    q.queue(mac(2), "Phone-02".into(), None);
    q.queue(mac(2), "Phone-02".into(), None);
    assert_eq!(q.pending.len(), 2);
    let (first, _) = q.next().unwrap();
    let yes = accept(&Some(Confirm::NewDevice { mac: first, name: "Phone-01".into() }));
    assert_eq!(yes, Answer::Approve(mac(1)));
    let (second, _) = q.next().unwrap();
    let no = cancel(&Some(Confirm::NewDevice { mac: second, name: "Phone-02".into() }));
    assert_eq!(no, Answer::Deny(mac(2)));
    for n in [1, 2] {
        q.queue(mac(n), "again".into(), None);
    }
    assert!(q.next().is_none());
    q.clear();
    q.queue(mac(1), "Phone-01".into(), None);
    assert!(q.next().is_some(), "a new session asks again");
}

#[test]
fn password_shows_for_ten_seconds() {
    let hidden = PasswordView { shown: false, hide_at: None };
    let (shown, load) = toggle_password(hidden, false, false, false, false, 1_000);
    assert_eq!(shown, PasswordView { shown: true, hide_at: Some(11_000) });
    assert!(load, "not in memory yet: it is loaded");
    assert_eq!(password_tick(shown, 10_999), shown);
    assert_eq!(password_tick(shown, 11_000), hidden);
    assert_eq!(toggle_password(shown, false, true, false, false, 2_000), (hidden, false));
    assert_eq!(toggle_password(hidden, true, false, false, false, 0), (hidden, false));
    assert!(!toggle_password(hidden, false, false, true, false, 0).1, "no profile yet");
}

#[test]
fn opening_qr_loads_the_password_when_nobody_did() {
    assert_eq!(toggle_qr(true, false, false, false, false), (true, QrStep::Load));
    assert_eq!(toggle_qr(true, false, false, false, true), (true, QrStep::Nothing));
    assert_eq!(toggle_qr(true, false, false, true, false), (true, QrStep::Build));
    assert_eq!(toggle_qr(true, false, true, true, false), (true, QrStep::Nothing));
    assert_eq!(toggle_qr(true, true, true, true, false), (false, QrStep::Nothing));
    assert_eq!(toggle_qr(false, false, false, false, false), (false, QrStep::Nothing));
}
