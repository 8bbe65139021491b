use omarchy_hotspot::notify::{escape_markup, Notifier, Urgency};

#[test]
fn markup_from_guest_is_escaped() {
    assert_eq!(escape_markup("<b>hi</b> & co"), "&lt;b&gt;hi&lt;/b&gt; &amp; co");
    assert_eq!(escape_markup("Pixel-8"), "Pixel-8");
}

#[test]
fn disabled_notifier_sends_nothing() {
    let mut n = Notifier::new(false, true);
    assert!(!n.sends());
    n.set_enabled(true);
    assert!(n.sends());
    assert!(!Notifier::new(true, false).sends());
    assert_eq!(Urgency::Low.as_str(), "low");
    assert_eq!(Urgency::Normal.as_str(), "normal");
}
