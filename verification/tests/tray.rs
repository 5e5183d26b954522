use standalone_tray::tray::{
    click_action, item_target, menu_route, unregistered_destination, ClickAction, MenuRoute,
    TrayAction, TrayEvent, TrayState, UpdateKind, BUTTON_MIDDLE, BUTTON_PRIMARY, BUTTON_SECONDARY,
};

fn describe(actions: &[TrayAction]) -> Vec<String> {
    actions
        .iter()
        .map(|a| match a {
            TrayAction::CreateWidget(x) => format!("create {x}"),
            TrayAction::Refresh(x) => format!("refresh {x}"),
            TrayAction::DestroyWidget(x) => format!("destroy {x}"),
            TrayAction::ForgetItem(x) => format!("forget {x}"),
            TrayAction::SetPlaceholderVisible(v) => format!("placeholder {v}"),
        })
        .collect()
}

#[test]
fn add_update_remove() {
    let mut tray = TrayState::new();
    let a = ":1.5/org/ayatana/NotificationItem/nm".to_string();
    let acts = tray.handle_event(TrayEvent::Add(a.clone()));
    assert_eq!(describe(&acts), vec!["placeholder false".to_string(), format!("create {a}"), format!("refresh {a}")]);
    assert_eq!(tray.len(), 1);
    let acts = tray.handle_event(TrayEvent::Add(a.clone()));
    assert_eq!(describe(&acts), vec![format!("refresh {a}")]);
    assert_eq!(tray.len(), 1);
    let acts = tray.handle_event(TrayEvent::Update(a.clone(), UpdateKind::Menu));
    assert!(acts.is_empty());
    let acts = tray.handle_event(TrayEvent::Update(a.clone(), UpdateKind::Appearance));
    assert_eq!(describe(&acts), vec![format!("refresh {a}")]);
    let acts = tray.handle_event(TrayEvent::Update("other".to_string(), UpdateKind::Appearance));
    assert!(acts.is_empty());
    let b = "org.blueman.Tray".to_string();
    tray.handle_event(TrayEvent::Add(b.clone()));
    assert_eq!(tray.len(), 2);
    let acts = tray.handle_event(TrayEvent::Remove(a.clone()));
    assert_eq!(describe(&acts), vec![format!("destroy {a}"), format!("forget {a}"), "placeholder false".to_string()]);
    assert!(!tray.contains(&a));
    assert!(tray.contains(&b));
    let acts = tray.handle_event(TrayEvent::Remove(b.clone()));
    assert_eq!(describe(&acts), vec![format!("destroy {b}"), format!("forget {b}"), "placeholder true".to_string()]);
    let acts = tray.handle_event(TrayEvent::Remove(b.clone()));
    assert_eq!(describe(&acts), vec![format!("forget {b}"), "placeholder true".to_string()]);
    assert_eq!(tray.len(), 0);
}

#[test]
fn add_then_remove_restores() {
    let mut tray = TrayState::new();
    tray.handle_event(TrayEvent::Add("x".to_string()));
    tray.handle_event(TrayEvent::Add("y".to_string()));
    tray.handle_event(TrayEvent::Remove("y".to_string()));
    assert_eq!(tray.len(), 1);
    assert!(tray.contains(&"x".to_string()));
}

#[test]
fn clicks() {
    assert_eq!(click_action(BUTTON_PRIMARY, false), ClickAction::Activate);
    assert_eq!(click_action(BUTTON_PRIMARY, true), ClickAction::ShowMenu);
    assert_eq!(click_action(BUTTON_MIDDLE, true), ClickAction::SecondaryActivate);
    assert_eq!(click_action(BUTTON_SECONDARY, false), ClickAction::ShowMenu);
    assert_eq!(click_action(8, false), ClickAction::Ignore);
    assert_eq!(menu_route(false, true), MenuRoute::Unavailable);
    assert_eq!(menu_route(true, false), MenuRoute::ItemContextMenu);
    assert_eq!(menu_route(true, true), MenuRoute::DBusMenu);
}

#[test]
fn addresses() {
    assert_eq!(
        item_target(":1.42/org/ayatana/NotificationItem/x"),
        (":1.42".to_string(), "/org/ayatana/NotificationItem/x".to_string())
    );
    assert_eq!(
        item_target("org.kde.StatusNotifierItem-123-1"),
        ("org.kde.StatusNotifierItem-123-1".to_string(), "/StatusNotifierItem".to_string())
    );
    assert_eq!(unregistered_destination(":1.42/org/ayatana/NotificationItem/x"), ":1.42");
    assert_eq!(unregistered_destination("org.kde.Foo"), "org.kde.Foo");
}
