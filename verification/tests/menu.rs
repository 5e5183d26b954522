use standalone_tray::menu::{clean_label, layout_menu, MenuEntry, MenuNode, ToggleKind};

fn entry(id: i32, label: &str) -> MenuEntry {
    MenuEntry {
        id,
        label: Some(label.to_string()),
        enabled: true,
        visible: true,
        is_separator: false,
        toggle_kind: ToggleKind::CannotBeToggled,
        toggled_on: false,
        submenu: Vec::new(),
    }
}

fn separator(id: i32) -> MenuEntry {
    MenuEntry { is_separator: true, label: None, ..entry(id, "") }
}

fn action_ids(section: &[MenuNode]) -> Vec<i32> {
    section
        .iter()
        .map(|n| match n {
            MenuNode::Action(a) => a.id,
            MenuNode::Submenu { .. } => -1,
        })
        .collect()
}

#[test]
fn clean_label_strips_mnemonics() {
    assert_eq!(clean_label("_File"), "File");
    assert_eq!(clean_label("Save __as"), "Save _as");
    assert_eq!(clean_label("a___b"), "a_b");
    assert_eq!(clean_label("trailing_"), "trailing");
    assert_eq!(clean_label("plain"), "plain");
    assert_eq!(clean_label(""), "");
}

#[test]
fn clean_label_undoes_escaping() {
    let text = "snake_case__name";
    let escaped = text.replace('_', "__");
    assert_eq!(clean_label(&escaped), text);
}

#[test]
fn separators_split_sections_and_never_leave_empty_ones() {
    let items = vec![
        separator(0),
        entry(1, "_Open"),
        entry(2, "Close"),
        separator(3),
        separator(4),
        entry(5, "Quit"),
        separator(6),
    ];
    let layout = layout_menu(&items);
    assert_eq!(layout.len(), 2);
    assert_eq!(action_ids(&layout[0]), vec![1, 2]);
    assert_eq!(action_ids(&layout[1]), vec![5]);
    match &layout[0][0] {
        MenuNode::Action(a) => {
            assert_eq!(a.label, "Open");
            assert_eq!(a.name, "item-1");
            assert_eq!(a.target, "tray.item-1");
            assert_eq!(a.state, None);
            assert!(a.enabled);
        }
        _ => panic!("expected an action"),
    }
}

#[test]
fn hidden_entries_are_skipped() {
    let mut hidden = entry(2, "Hidden");
    hidden.visible = false;
    let mut hidden_sep = separator(3);
    hidden_sep.visible = false;
    let items = vec![entry(1, "A"), hidden, hidden_sep, entry(4, "B")];
    let layout = layout_menu(&items);
    assert_eq!(layout.len(), 1);
    assert_eq!(action_ids(&layout[0]), vec![1, 4]);
}

#[test]
fn toggles_become_stateful_actions() {
    let mut check = entry(7, "Wi-Fi");
    check.toggle_kind = ToggleKind::Checkmark;
    check.toggled_on = true;
    let mut radio = entry(-8, "Off");
    radio.toggle_kind = ToggleKind::Radio;
    radio.enabled = false;
    let layout = layout_menu(&vec![check, radio]);
    match (&layout[0][0], &layout[0][1]) {
        (MenuNode::Action(a), MenuNode::Action(b)) => {
            assert_eq!(a.state, Some(true));
            assert_eq!(b.state, Some(false));
            assert!(!b.enabled);
            assert_eq!(b.name, "item--8");
        }
        _ => panic!("expected actions"),
    }
}

#[test]
fn entries_with_children_become_submenus() {
    let mut parent = entry(1, "_More");
    parent.submenu = vec![entry(2, "x"), separator(3), entry(4, "y")];
    let mut no_label = entry(5, "");
    no_label.label = None;
    let layout = layout_menu(&vec![parent, no_label]);
    assert_eq!(layout.len(), 1);
    match &layout[0][0] {
        MenuNode::Submenu { label, sections } => {
            assert_eq!(label, "More");
            assert_eq!(sections.len(), 2);
            assert_eq!(action_ids(&sections[0]), vec![2]);
            assert_eq!(action_ids(&sections[1]), vec![4]);
        }
        _ => panic!("expected a submenu"),
    }
    match &layout[0][1] {
        MenuNode::Action(a) => assert_eq!(a.label, ""),
        _ => panic!("expected an action"),
    }
}

#[test]
fn empty_menu_has_no_sections() {
    assert!(layout_menu(&Vec::new()).is_empty());
    assert!(layout_menu(&vec![separator(1), separator(2)]).is_empty());
}
