use workty::ui::{format_time, format_time_short, shorten_path, Icons, UiOptions};

#[test]
fn format_time_buckets() {
    assert_eq!(format_time(None), "-");
    assert_eq!(format_time(Some(0)), "now");
    assert_eq!(format_time(Some(59)), "now");
    assert_eq!(format_time(Some(-5)), "now");
    assert_eq!(format_time(Some(60)), "1m");
    assert_eq!(format_time(Some(3599)), "59m");
    assert_eq!(format_time(Some(3600)), "1h");
    assert_eq!(format_time(Some(86399)), "23h");
    assert_eq!(format_time(Some(86400)), "1d");
    assert_eq!(format_time(Some(604799)), "6d");
    assert_eq!(format_time(Some(604800)), "1w");
    assert_eq!(format_time(Some(2591999)), "4w");
    assert_eq!(format_time(Some(2592000)), "1mo");
    assert_eq!(format_time(Some(31104000)), "12mo");
}

#[test]
fn format_time_short_caps_at_weeks() {
    assert_eq!(format_time_short(None), "-");
    assert_eq!(format_time_short(Some(30)), "now");
    assert_eq!(format_time_short(Some(120)), "2m");
    assert_eq!(format_time_short(Some(7200)), "2h");
    assert_eq!(format_time_short(Some(172800)), "2d");
    assert_eq!(format_time_short(Some(2592000)), "4w");
    assert_eq!(format_time_short(Some(6048000)), "10w");
}

#[test]
fn shorten_path_abbreviates_home() {
    let home = "/home/dev".to_string();
    assert_eq!(
        shorten_path(&"/home/dev/code/x".to_string(), Some(&home)),
        "~/code/x"
    );
    assert_eq!(shorten_path(&"/home/dev".to_string(), Some(&home)), "~/");
    assert_eq!(
        shorten_path(&"/srv/code/x".to_string(), Some(&home)),
        "/srv/code/x"
    );
    assert_eq!(
        shorten_path(&"/home/devother/x".to_string(), Some(&home)),
        "/home/devother/x"
    );
    assert_eq!(shorten_path(&"/srv/code".to_string(), None), "/srv/code");
}

#[test]
fn icon_sets_follow_options() {
    let plain = Icons::from_options(&UiOptions {
        color: false,
        ascii: true,
        json: false,
    });
    assert_eq!(plain.current, ">");
    assert_eq!(plain.dirty, "*");
    assert_eq!(plain.clean, "-");
    assert_eq!(plain.arrow_up, "^");
    assert_eq!(plain.arrow_down, "v");
    assert_eq!(plain.rebase, "R");

    let fancy = Icons::from_options(&UiOptions::default());
    assert_eq!(fancy.current, "\u{25b6}");
    assert_eq!(fancy.dirty, "\u{25cf}");
    assert_eq!(fancy.clean, "\u{2713}");
    assert_eq!(fancy.arrow_up, "\u{2191}");
    assert_eq!(fancy.arrow_down, "\u{2193}");
    assert_eq!(fancy.rebase, "\u{27f3}");
}

#[test]
fn default_ui_options() {
    let o = UiOptions::default();
    assert!(o.color);
    assert!(!o.ascii);
    assert!(!o.json);
}
