use standalone_tray::icon::{
    best_pixmap, icon_source, icon_view, non_empty, rgba_pixels, theme_search_path, tooltip,
    wanted_icon_name, wanted_pixmaps, IconSource, ItemStatus, Pixmap, ToolTip, TrayItem,
};

fn pixmap(width: i32, height: i32) -> Pixmap {
    Pixmap { width, height, pixels: vec![0; (width.max(0) * height.max(0) * 4) as usize] }
}

fn item() -> TrayItem {
    TrayItem {
        status: ItemStatus::Active,
        title: None,
        icon_theme_path: None,
        icon_name: None,
        icon_pixmap: None,
        attention_icon_name: None,
        attention_icon_pixmap: None,
        tool_tip: None,
        item_is_menu: false,
        menu: None,
    }
}

#[test]
fn non_empty_skips_empty_strings() {
    assert_eq!(non_empty(&None), None);
    assert_eq!(non_empty(&Some(String::new())), None);
    assert_eq!(non_empty(&Some("nm-applet".to_string())), Some("nm-applet"));
}

#[test]
fn best_pixmap_prefers_smallest_big_enough() {
    let ps = vec![pixmap(16, 16), pixmap(48, 48), pixmap(24, 24), pixmap(32, 32)];
    assert_eq!(best_pixmap(&ps), Some(2));
}

#[test]
fn best_pixmap_falls_back_to_biggest() {
    let ps = vec![pixmap(8, 8), pixmap(16, 16), pixmap(12, 12)];
    assert_eq!(best_pixmap(&ps), Some(1));
}

#[test]
fn best_pixmap_skips_empty_and_keeps_first_of_equals() {
    let ps = vec![pixmap(0, 22), pixmap(22, 0), pixmap(22, 22), pixmap(22, 22)];
    assert_eq!(best_pixmap(&ps), Some(2));
    assert_eq!(best_pixmap(&[pixmap(0, 0), pixmap(-3, 5)]), None);
    assert_eq!(best_pixmap(&[]), None);
}

#[test]
fn rgba_rotates_each_pixel() {
    assert_eq!(rgba_pixels(&vec![1, 2, 3, 4, 5, 6, 7, 8]), vec![2, 3, 4, 1, 6, 7, 8, 5]);
    assert_eq!(rgba_pixels(&vec![1, 2, 3, 4, 9, 9]), vec![2, 3, 4, 1, 9, 9]);
    assert_eq!(rgba_pixels(&vec![]), Vec::<u8>::new());
}

#[test]
fn tooltip_joins_title_and_description() {
    let mut it = item();
    it.title = Some("Title".to_string());
    assert_eq!(tooltip(&it), Some("Title".to_string()));
    it.tool_tip = Some(ToolTip { title: "Net".to_string(), description: "Connected".to_string() });
    assert_eq!(tooltip(&it), Some("Net\nConnected".to_string()));
    it.tool_tip = Some(ToolTip { title: String::new(), description: "Only".to_string() });
    assert_eq!(tooltip(&it), Some("Only".to_string()));
    it.tool_tip = Some(ToolTip { title: "Only title".to_string(), description: String::new() });
    assert_eq!(tooltip(&it), Some("Only title".to_string()));
    it.tool_tip = Some(ToolTip { title: String::new(), description: String::new() });
    assert_eq!(tooltip(&it), Some("Title".to_string()));
    it.title = Some(String::new());
    assert_eq!(tooltip(&it), None);
}

#[test]
fn attention_uses_attention_icon() {
    let mut it = item();
    it.icon_name = Some("normal".to_string());
    it.attention_icon_name = Some("alert".to_string());
    assert_eq!(wanted_icon_name(&it), Some("normal"));
    it.status = ItemStatus::NeedsAttention;
    assert_eq!(wanted_icon_name(&it), Some("alert"));
    it.attention_icon_name = Some(String::new());
    assert_eq!(wanted_icon_name(&it), Some("normal"));
    it.icon_pixmap = Some(vec![pixmap(16, 16)]);
    assert_eq!(wanted_pixmaps(&it).map(|p| p.len()), Some(1));
    it.attention_icon_pixmap = Some(vec![pixmap(16, 16), pixmap(22, 22)]);
    assert_eq!(wanted_pixmaps(&it).map(|p| p.len()), Some(2));
}

#[test]
fn icon_source_order() {
    let mut it = item();
    // nothing at all
    match icon_source(&it, false) {
        IconSource::Named(n) => assert_eq!(n, "image-missing"),
        _ => panic!(),
    }
    // a name not in the theme, and no pixmap: the name anyway
    it.icon_name = Some("custom".to_string());
    match icon_source(&it, false) {
        IconSource::Named(n) => assert_eq!(n, "custom"),
        _ => panic!(),
    }
    // a pixmap wins over a name the theme lacks
    it.icon_pixmap = Some(vec![Pixmap { width: 1, height: 1, pixels: vec![0xff, 1, 2, 3] }]);
    match icon_source(&it, false) {
        IconSource::Texture { width, height, rgba } => {
            assert_eq!((width, height), (1, 1));
            assert_eq!(rgba, vec![1, 2, 3, 0xff]);
        }
        _ => panic!(),
    }
    // a themed name wins over everything
    match icon_source(&it, true) {
        IconSource::Named(n) => assert_eq!(n, "custom"),
        _ => panic!(),
    }
}

#[test]
fn passive_items_are_hidden() {
    let mut it = item();
    it.status = ItemStatus::Passive;
    assert!(!icon_view(&it, false).visible);
    it.status = ItemStatus::Unknown;
    assert!(icon_view(&it, false).visible);
}

#[test]
fn theme_path_must_be_non_empty() {
    let mut it = item();
    assert_eq!(theme_search_path(&it), None);
    it.icon_theme_path = Some(String::new());
    assert_eq!(theme_search_path(&it), None);
    it.icon_theme_path = Some("/usr/share/app/icons".to_string());
    assert_eq!(theme_search_path(&it), Some("/usr/share/app/icons"));
}
