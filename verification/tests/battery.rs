use standalone_tray::battery::{
    battery_icon, battery_tooltip, battery_view, duration, BatterySnapshot, STATE_CHARGING,
    STATE_DISCHARGING, STATE_FULLY_CHARGED,
};

fn reference_duration(seconds: i64) -> String {
    let hours = seconds / 3600;
    let minutes = (seconds % 3600) / 60;
    if hours > 0 {
        format!("{hours}h{minutes:02}m")
    } else {
        format!("{minutes}m")
    }
}

#[test]
fn durations() {
    assert_eq!(duration(3900), "1h05m");
    assert_eq!(duration(7260), "2h01m");
    assert_eq!(duration(3600), "1h00m");
    assert_eq!(duration(42 * 60 + 59), "42m");
    assert_eq!(duration(59), "0m");
    assert_eq!(duration(0), "0m");
    assert_eq!(duration(-125), "-2m");
    for s in [-7300, -3600, -59, 1, 600, 36000, 86399, i64::MAX, i64::MIN] {
        assert_eq!(duration(s), reference_duration(s), "{s}");
    }
}

#[test]
fn tooltips() {
    assert_eq!(battery_tooltip(80, STATE_CHARGING, 0, 1800), "Battery: 80% (charging, 30m until full)");
    assert_eq!(battery_tooltip(80, STATE_CHARGING, 0, 0), "Battery: 80% (charging)");
    assert_eq!(battery_tooltip(55, STATE_DISCHARGING, 5400, 0), "Battery: 55% (1h30m remaining)");
    assert_eq!(battery_tooltip(55, STATE_DISCHARGING, 0, 0), "Battery: 55%");
    assert_eq!(battery_tooltip(100, STATE_FULLY_CHARGED, 0, 0), "Battery: 100% (full)");
    assert_eq!(battery_tooltip(3, 6, 100, 100), "Battery: 3%");
}

#[test]
fn icons_and_view() {
    assert_eq!(battery_icon(""), "battery-symbolic");
    assert_eq!(battery_icon("battery-good-symbolic"), "battery-good-symbolic");
    let snap = BatterySnapshot {
        present: true,
        percent: 64,
        state: STATE_DISCHARGING,
        icon_name: String::new(),
        time_to_empty: 120,
        time_to_full: 0,
    };
    let v = battery_view(&snap).unwrap();
    assert_eq!(v.icon_name, "battery-symbolic");
    assert_eq!(v.label, "64%");
    assert_eq!(v.tooltip, "Battery: 64% (2m remaining)");
    let absent = BatterySnapshot { present: false, ..snap };
    assert!(battery_view(&absent).is_none());
}
