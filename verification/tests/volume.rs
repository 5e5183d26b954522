use standalone_tray::volume::{
    is_volume_event, parse_volume, scroll_step, volume_level, volume_view, VolumeLevel,
};

#[test]
fn parses_wpctl_output() {
    let r = parse_volume("Volume: 0.45 [MUTED]\n").unwrap();
    assert_eq!(r.volume, "0.45");
    assert!(r.muted);
    let r = parse_volume("Volume: 1.00\n").unwrap();
    assert_eq!(r.volume, "1.00");
    assert!(!r.muted);
    assert!(parse_volume("Volume:").is_none());
    assert!(parse_volume("").is_none());
}

#[test]
fn levels_follow_thresholds() {
    assert_eq!(volume_level(0, false), VolumeLevel::Muted);
    assert_eq!(volume_level(80, true), VolumeLevel::Muted);
    assert_eq!(volume_level(1, false), VolumeLevel::Low);
    assert_eq!(volume_level(33, false), VolumeLevel::Low);
    assert_eq!(volume_level(34, false), VolumeLevel::Medium);
    assert_eq!(volume_level(66, false), VolumeLevel::Medium);
    assert_eq!(volume_level(67, false), VolumeLevel::High);
    assert_eq!(volume_level(150, false), VolumeLevel::High);
    assert_eq!(VolumeLevel::Muted.icon_name(), "audio-volume-muted-symbolic");
    assert_eq!(VolumeLevel::Low.icon_name(), "audio-volume-low-symbolic");
    assert_eq!(VolumeLevel::Medium.icon_name(), "audio-volume-medium-symbolic");
    assert_eq!(VolumeLevel::High.icon_name(), "audio-volume-high-symbolic");
}

#[test]
fn view_texts() {
    let v = volume_view(45, false);
    assert_eq!(v.label, "45%");
    assert_eq!(v.tooltip, "Volume: 45%");
    assert!(!v.dim_label);
    let v = volume_view(45, true);
    assert_eq!(v.tooltip, "Volume: 45% (muted)");
    assert!(v.dim_label);
    assert_eq!(v.level, VolumeLevel::Muted);
    assert_eq!(volume_view(0, false).label, "0%");
    assert_eq!(volume_view(-3, false).label, "-3%");
    assert_eq!(volume_view(i32::MIN, false).label, format!("{}%", i32::MIN));
    assert_eq!(volume_view(1234567, false).tooltip, "Volume: 1234567%");
}

#[test]
fn pactl_lines() {
    assert!(is_volume_event("Event 'change' on sink #56"));
    assert!(is_volume_event("Event 'change' on server #0"));
    assert!(!is_volume_event("Event 'new' on client #123"));
    assert!(!is_volume_event("Event 'change' on source-output #7"));
}

#[test]
fn scroll_steps() {
    assert_eq!(scroll_step(true), "5%+");
    assert_eq!(scroll_step(false), "5%-");
}
