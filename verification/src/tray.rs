//! The tray row: which items have a widget, what each StatusNotifier event
//! does to the row, what a click on an item asks for, and how item
//! addresses map to bus destinations and object paths.
use vstd::prelude::*;

use crate::text::{split_once_char, split_once_spec};

verus! {

/// What changed about an item, as far as its widget is concerned.
#[derive(Clone, Copy, Debug, PartialEq, Eq, Structural)]
pub enum UpdateKind {
    /// The item's menu changed (layout, properties, or a new menu); menus
    /// are read when opened, so nothing is redrawn.
    Menu,
    /// Anything else: icon, status, title, tooltip.
    Appearance,
}

/// A StatusNotifier host event, by item address.
pub enum TrayEvent {
    Add(String),
    Update(String, UpdateKind),
    Remove(String),
}

/// The mathematical form of an event.
pub ghost enum TrayEventSpec {
    Add(Seq<char>),
    Update(Seq<char>, UpdateKind),
    Remove(Seq<char>),
}

impl View for TrayEvent {
    type V = TrayEventSpec;

    open spec fn view(&self) -> TrayEventSpec {
        match self {
            TrayEvent::Add(a) => TrayEventSpec::Add(a@),
            TrayEvent::Update(a, k) => TrayEventSpec::Update(a@, *k),
            TrayEvent::Remove(a) => TrayEventSpec::Remove(a@),
        }
    }
}

/// What the row does in answer to an event.
pub enum TrayAction {
    /// Create the widget of a new item and append it to the row.
    CreateWidget(String),
    /// Redraw an item's widget from the item's current properties.
    Refresh(String),
    /// Take an item's widget out of the row.
    DestroyWidget(String),
    /// Drop the item from the library's item map.
    ForgetItem(String),
    /// Show or hide the "no tray items" placeholder.
    SetPlaceholderVisible(bool),
}

/// The mathematical form of an action.
pub ghost enum TrayActionSpec {
    CreateWidget(Seq<char>),
    Refresh(Seq<char>),
    DestroyWidget(Seq<char>),
    ForgetItem(Seq<char>),
    SetPlaceholderVisible(bool),
}

impl View for TrayAction {
    type V = TrayActionSpec;

    open spec fn view(&self) -> TrayActionSpec {
        match self {
            TrayAction::CreateWidget(a) => TrayActionSpec::CreateWidget(a@),
            TrayAction::Refresh(a) => TrayActionSpec::Refresh(a@),
            TrayAction::DestroyWidget(a) => TrayActionSpec::DestroyWidget(a@),
            TrayAction::ForgetItem(a) => TrayActionSpec::ForgetItem(a@),
            TrayAction::SetPlaceholderVisible(v) => TrayActionSpec::SetPlaceholderVisible(*v),
        }
    }
}

/// The views of a list of actions.
pub open spec fn actions_view(acts: Seq<TrayAction>) -> Seq<TrayActionSpec> {
    acts.map_values(|a: TrayAction| a@)
}

/// One step of the row: the addresses that have a widget after `event`,
/// and the actions that carry the step out.
///
/// - `Add`: a new address gets a widget (and the placeholder goes away);
///   either way the item's widget is refreshed.
/// - `Update`: menu changes do nothing; other changes refresh the widget,
///   if the item has one.
/// - `Remove`: the widget, if any, goes; the item is dropped from the
///   library's map; the placeholder shows when no widget is left.
pub open spec fn tray_step(shown: Set<Seq<char>>, event: TrayEventSpec) -> (Set<Seq<char>>, Seq<TrayActionSpec>) {
    match event {
        TrayEventSpec::Add(a) => if shown.contains(a) {
            (shown, seq![TrayActionSpec::Refresh(a)])
        } else {
            (
                shown.insert(a),
                seq![
                    TrayActionSpec::SetPlaceholderVisible(false),
                    TrayActionSpec::CreateWidget(a),
                    TrayActionSpec::Refresh(a),
                ],
            )
        },
        TrayEventSpec::Update(a, kind) => if kind == UpdateKind::Appearance && shown.contains(a) {
            (shown, seq![TrayActionSpec::Refresh(a)])
        } else {
            (shown, seq![])
        },
        TrayEventSpec::Remove(a) => {
            let rest = shown.remove(a);
            let tail = seq![
                TrayActionSpec::ForgetItem(a),
                TrayActionSpec::SetPlaceholderVisible(rest.is_empty()),
            ];
            if shown.contains(a) {
                (rest, seq![TrayActionSpec::DestroyWidget(a)] + tail)
            } else {
                (rest, tail)
            }
        },
    }
}

/// The addresses of the tray items that have a widget in the row.
pub struct TrayState {
    items: Vec<String>,
}

impl TrayState {
    /// The addresses, in the order their widgets were created.
    pub closed spec fn addresses(&self) -> Seq<Seq<char>> {
        self.items@.map_values(|s: String| s@)
    }

    /// The set of addresses that have a widget.
    pub open spec fn shown(&self) -> Set<Seq<char>> {
        self.addresses().to_set()
    }

    /// Every address has one widget.
    pub closed spec fn wf(&self) -> bool {
        self.addresses().no_duplicates()
    }

    /// An empty row.
    pub fn new() -> (r: TrayState)
        ensures
            r.wf(),
            r.shown() == Set::<Seq<char>>::empty(),
    {
        let r = TrayState { items: Vec::new() };
        assert(r.addresses() =~= Seq::<Seq<char>>::empty());
        assert(r.shown() =~= Set::<Seq<char>>::empty());
        r
    }

    /// Number of widgets in the row.
    pub fn len(&self) -> (r: usize)
        requires
            self.wf(),
        ensures
            r == self.shown().len(),
    {
        proof {
            self.addresses().unique_seq_to_set();
        }
        self.items.len()
    }

    fn position(&self, address: &String) -> (r: Option<usize>)
        ensures
            match r {
                Some(i) => i < self.items@.len() && self.addresses()[i as int] == address@,
                None => !self.shown().contains(address@),
            },
    {
        let n = self.items.len();
        let mut i: usize = 0;
        while i < n
            invariant
                n == self.items@.len(),
                i <= n,
                forall|j: int| 0 <= j < i ==> self.addresses()[j] != address@,
            decreases n - i,
        {
            if self.items[i] == *address {
                return Some(i);
            }
            i = i + 1;
        }
        proof {
            if self.shown().contains(address@) {
                let j = choose|j: int| 0 <= j < self.addresses().len() && self.addresses()[j] == address@;
                assert(self.addresses()[j] == address@);
            }
        }
        None
    }

    /// Whether `address` has a widget.
    pub fn contains(&self, address: &String) -> (r: bool)
        ensures
            r == self.shown().contains(address@),
    {
        match self.position(address) {
            Some(i) => {
                assert(self.shown().contains(self.addresses()[i as int]));
                true
            },
            None => false,
        }
    }

    /// Applies an event to the row and returns what the row has to do.
    pub fn handle_event(&mut self, event: TrayEvent) -> (r: Vec<TrayAction>)
        requires
            old(self).wf(),
        ensures
            final(self).wf(),
            final(self).shown() == tray_step(old(self).shown(), event@).0,
            actions_view(r@) == tray_step(old(self).shown(), event@).1,
    {
        let ghost old_shown = self.shown();
        let mut acts: Vec<TrayAction> = Vec::new();
        match event {
            TrayEvent::Add(a) => {
                if self.contains(&a) {
                    acts.push(TrayAction::Refresh(a));
                } else {
                    let ghost before = self.addresses();
                    let a2 = a.clone();
                    let a3 = a.clone();
                    self.items.push(a);
                    proof {
                        assert(self.addresses() =~= before.push(a2@));
                        assert forall|x: Seq<char>| #[trigger] self.shown().contains(x) == old_shown.insert(a2@).contains(x) by {
                            if self.shown().contains(x) {
                                let k = choose|k: int| 0 <= k < self.addresses().len() && self.addresses()[k] == x;
                                if k < before.len() {
                                    assert(before[k] == x);
                                }
                            }
                            if old_shown.contains(x) {
                                let k = choose|k: int| 0 <= k < before.len() && before[k] == x;
                                assert(self.addresses()[k] == x);
                            }
                            if x == a2@ {
                                assert(self.addresses()[before.len() as int] == x);
                            }
                        }
                        assert(self.shown() =~= old_shown.insert(a2@));
                        assert forall|i: int, j: int|
                            0 <= i < self.addresses().len() && 0 <= j < self.addresses().len() && i != j
                            implies self.addresses()[i] != self.addresses()[j] by {
                            if i < before.len() && j < before.len() {
                            } else if i < before.len() {
                                assert(before.to_set().contains(before[i]));
                            } else {
                                assert(before.to_set().contains(before[j]));
                            }
                        }
                    }
                    acts.push(TrayAction::SetPlaceholderVisible(false));
                    acts.push(TrayAction::CreateWidget(a2));
                    acts.push(TrayAction::Refresh(a3));
                }
            },
            TrayEvent::Update(a, kind) => {
                if kind == UpdateKind::Appearance && self.contains(&a) {
                    acts.push(TrayAction::Refresh(a));
                }
            },
            TrayEvent::Remove(a) => {
                let ghost before = self.addresses();
                match self.position(&a) {
                    Some(i) => {
                        self.items.remove(i);
                        proof {
                            assert(self.addresses() =~= before.remove(i as int));
                            assert forall|x: Seq<char>| #[trigger] self.shown().contains(x) == old_shown.remove(a@).contains(x) by {
                                if old_shown.remove(a@).contains(x) {
                                    let k = choose|k: int| 0 <= k < before.len() && before[k] == x;
                                    if k < i {
                                        assert(self.addresses()[k] == x);
                                    } else {
                                        assert(k != i);
                                        assert(self.addresses()[k - 1] == x);
                                    }
                                }
                                if self.shown().contains(x) {
                                    let k = choose|k: int| 0 <= k < self.addresses().len() && self.addresses()[k] == x;
                                    if k < i {
                                        assert(before[k] == x);
                                        assert(before[k] != before[i as int]);
                                    } else {
                                        assert(before[k + 1] == x);
                                        assert(before[k + 1] != before[i as int]);
                                    }
                                }
                            }
                            assert(self.shown() =~= old_shown.remove(a@));
                        }
                        acts.push(TrayAction::DestroyWidget(a.clone()));
                    },
                    None => {
                        assert(old_shown.remove(a@) =~= old_shown);
                    },
                }
                let empty = self.items.len() == 0;
                proof {
                    if empty {
                        assert(self.addresses() =~= Seq::<Seq<char>>::empty());
                        assert(self.shown() =~= Set::<Seq<char>>::empty());
                    } else {
                        assert(self.shown().contains(self.addresses()[0]));
                    }
                }
                acts.push(TrayAction::ForgetItem(a));
                acts.push(TrayAction::SetPlaceholderVisible(empty));
            },
        }
        assert(actions_view(acts@) =~= tray_step(old_shown, event@).1);
        acts
    }
}

// ---------------------------------------------------------------------
// Laws of the row
// ---------------------------------------------------------------------

/// Whenever a step shows or hides the placeholder, it is shown exactly
/// when no item has a widget afterwards.
pub proof fn lemma_placeholder_iff_empty(shown: Set<Seq<char>>, event: TrayEventSpec)
    ensures
        forall|i: int|
            0 <= i < tray_step(shown, event).1.len() ==> match #[trigger] tray_step(shown, event).1[i] {
                TrayActionSpec::SetPlaceholderVisible(v) => v == tray_step(shown, event).0.is_empty(),
                _ => true,
            },
{
    match event {
        TrayEventSpec::Add(a) => {
            if !shown.contains(a) {
                assert(shown.insert(a).contains(a));
            }
        },
        _ => {},
    }
}

/// Adding an item that already has a widget creates no second widget and
/// leaves the row as it is.
pub proof fn lemma_add_twice(shown: Set<Seq<char>>, a: Seq<char>)
    ensures
        ({
            let once = tray_step(shown, TrayEventSpec::Add(a));
            let twice = tray_step(once.0, TrayEventSpec::Add(a));
            &&& twice.0 == once.0
            &&& twice.1 == seq![TrayActionSpec::Refresh(a)]
        }),
{
}

/// Removing an item that was just added restores the row.
pub proof fn lemma_add_then_remove(shown: Set<Seq<char>>, a: Seq<char>)
    requires
        !shown.contains(a),
    ensures
        tray_step(tray_step(shown, TrayEventSpec::Add(a)).0, TrayEventSpec::Remove(a)).0 == shown,
{
    assert(shown.insert(a).remove(a) =~= shown);
}

/// Menu changes never touch the row.
pub proof fn lemma_menu_update_inert(shown: Set<Seq<char>>, a: Seq<char>)
    ensures
        tray_step(shown, TrayEventSpec::Update(a, UpdateKind::Menu)) == (shown, Seq::<TrayActionSpec>::empty()),
{
}

// ---------------------------------------------------------------------
// Clicks and menus
// ---------------------------------------------------------------------

/// The primary (left) mouse button.
pub const BUTTON_PRIMARY: u32 = 1;

/// The middle mouse button.
pub const BUTTON_MIDDLE: u32 = 2;

/// The secondary (right) mouse button.
pub const BUTTON_SECONDARY: u32 = 3;

/// What a click on an item's widget asks for.
#[derive(Clone, Copy, Debug, PartialEq, Eq, Structural)]
pub enum ClickAction {
    /// Send the item a default activation.
    Activate,
    /// Send the item a secondary activation.
    SecondaryActivate,
    /// Open the item's context menu.
    ShowMenu,
    /// Nothing.
    Ignore,
}

/// Left click activates the item, or opens its menu for menu-only items;
/// middle click sends a secondary activation; right click opens the menu.
pub open spec fn click_action_spec(button: u32, item_is_menu: bool) -> ClickAction {
    if button == BUTTON_PRIMARY {
        if item_is_menu {
            ClickAction::ShowMenu
        } else {
            ClickAction::Activate
        }
    } else if button == BUTTON_MIDDLE {
        ClickAction::SecondaryActivate
    } else if button == BUTTON_SECONDARY {
        ClickAction::ShowMenu
    } else {
        ClickAction::Ignore
    }
}

/// What a click with `button` on an item asks for; `item_is_menu` is the
/// item's `ItemIsMenu` property (false when the item is unknown).
pub fn click_action(button: u32, item_is_menu: bool) -> (r: ClickAction)
    ensures
        r == click_action_spec(button, item_is_menu),
{
    if button == BUTTON_PRIMARY {
        if item_is_menu {
            ClickAction::ShowMenu
        } else {
            ClickAction::Activate
        }
    } else if button == BUTTON_MIDDLE {
        ClickAction::SecondaryActivate
    } else if button == BUTTON_SECONDARY {
        ClickAction::ShowMenu
    } else {
        ClickAction::Ignore
    }
}

/// How an item's context menu is shown.
#[derive(Clone, Copy, Debug, PartialEq, Eq, Structural)]
pub enum MenuRoute {
    /// No connection to the bus yet: nothing is shown.
    Unavailable,
    /// The item exposes no DBusMenu: ask it to show its own (`ContextMenu`).
    ItemContextMenu,
    /// Render the item's DBusMenu as a popover.
    DBusMenu,
}

/// Which way an item's menu is opened, given whether the host is connected
/// and whether the item has a DBusMenu object path.
pub fn menu_route(has_client: bool, has_menu_path: bool) -> (r: MenuRoute)
    ensures
        r == (if !has_client {
            MenuRoute::Unavailable
        } else if !has_menu_path {
            MenuRoute::ItemContextMenu
        } else {
            MenuRoute::DBusMenu
        }),
{
    if !has_client {
        MenuRoute::Unavailable
    } else if !has_menu_path {
        MenuRoute::ItemContextMenu
    } else {
        MenuRoute::DBusMenu
    }
}

// ---------------------------------------------------------------------
// Item addresses
// ---------------------------------------------------------------------

/// The bus destination and object path of an item address: an address
/// `dest/path` names object `/path` on `dest`; a bare bus name uses the
/// standard `/StatusNotifierItem` path.
pub open spec fn item_target_spec(address: Seq<char>) -> (Seq<char>, Seq<char>) {
    match split_once_spec(address, '/') {
        Some((dest, path)) => (dest, seq!['/'] + path),
        None => (address, "/StatusNotifierItem"@),
    }
}

/// The bus destination named by a service string that the watcher reports
/// as unregistered: the part before the first `/`, or all of it.
pub open spec fn unregistered_destination_spec(service: Seq<char>) -> Seq<char> {
    match split_once_spec(service, '/') {
        Some((dest, _)) => dest,
        None => service,
    }
}

/// The bus destination and object path to call `ContextMenu` on.
pub fn item_target(address: &str) -> (r: (String, String))
    ensures
        (r.0@, r.1@) == item_target_spec(address@),
{
    match split_once_char(address, '/') {
        Some((dest, path)) => {
            let mut p = String::from_str("/");
            p.append(path.as_str());
            proof {
                reveal_strlit("/");
            }
            assert(p@ =~= seq!['/'] + path@);
            (dest, p)
        },
        None => (String::from_str(address), String::from_str("/StatusNotifierItem")),
    }
}

/// The item address to remove when the watcher reports `service` as
/// unregistered.
pub fn unregistered_destination(service: &str) -> (r: String)
    ensures
        r@ == unregistered_destination_spec(service@),
{
    match split_once_char(service, '/') {
        Some((dest, _)) => dest,
        None => String::from_str(service),
    }
}

/// A removal reported by the watcher names the same destination that the
/// item's context menu is called on.
pub proof fn lemma_unregistered_matches_target(service: Seq<char>)
    ensures
        unregistered_destination_spec(service) == item_target_spec(service).0,
{
}

/// What each event does to the set of addresses with a widget: an add
/// inserts the address, an update changes nothing, a remove deletes the
/// address and nothing else (an address without a widget leaves the row as
/// it is). A widget is created only for an address that had none, and
/// destroyed only for one that had one.
pub proof fn lemma_step_addresses(shown: Set<Seq<char>>, a: Seq<char>, kind: UpdateKind)
    ensures
        tray_step(shown, TrayEventSpec::Add(a)).0 == shown.insert(a),
        tray_step(shown, TrayEventSpec::Update(a, kind)).0 == shown,
        tray_step(shown, TrayEventSpec::Remove(a)).0 == shown.remove(a),
        !shown.contains(a) ==> tray_step(shown, TrayEventSpec::Remove(a)).0 == shown,
        tray_step(shown, TrayEventSpec::Add(a)).1.contains(TrayActionSpec::CreateWidget(a))
            <==> !shown.contains(a),
        tray_step(shown, TrayEventSpec::Remove(a)).1.contains(TrayActionSpec::DestroyWidget(a))
            <==> shown.contains(a),
        tray_step(shown, TrayEventSpec::Remove(a)).1.contains(TrayActionSpec::ForgetItem(a)),
{
    if shown.contains(a) {
        assert(shown.insert(a) =~= shown);
        let acts = tray_step(shown, TrayEventSpec::Add(a)).1;
        assert(acts == seq![TrayActionSpec::Refresh(a)]);
        assert(!acts.contains(TrayActionSpec::CreateWidget(a))) by {
            if acts.contains(TrayActionSpec::CreateWidget(a)) {
                let k = choose|k: int| 0 <= k < acts.len() && acts[k] == TrayActionSpec::CreateWidget(a);
                assert(acts[k] == TrayActionSpec::Refresh(a));
            }
        }
        let r = tray_step(shown, TrayEventSpec::Remove(a)).1;
        assert(r[0] == TrayActionSpec::DestroyWidget(a));
        assert(r[1] == TrayActionSpec::ForgetItem(a));
    } else {
        assert(shown.remove(a) =~= shown);
        let acts = tray_step(shown, TrayEventSpec::Add(a)).1;
        assert(acts[1] == TrayActionSpec::CreateWidget(a));
        let r = tray_step(shown, TrayEventSpec::Remove(a)).1;
        assert(r[0] == TrayActionSpec::ForgetItem(a));
        assert(!r.contains(TrayActionSpec::DestroyWidget(a))) by {
            if r.contains(TrayActionSpec::DestroyWidget(a)) {
                let k = choose|k: int| 0 <= k < r.len() && r[k] == TrayActionSpec::DestroyWidget(a);
                assert(k == 0 || k == 1);
            }
        }
    }
}

/// Only the primary button depends on whether the item is menu-only: a
/// right click always opens the menu, a middle click always sends a
/// secondary activation, other buttons do nothing, and a left click opens
/// the menu exactly for menu-only items and activates the others.
pub proof fn lemma_click_buttons(button: u32, item_is_menu: bool)
    ensures
        click_action_spec(BUTTON_SECONDARY, item_is_menu) == ClickAction::ShowMenu,
        click_action_spec(BUTTON_MIDDLE, item_is_menu) == ClickAction::SecondaryActivate,
        button != BUTTON_PRIMARY ==> click_action_spec(button, true) == click_action_spec(button, false),
        (click_action_spec(BUTTON_PRIMARY, item_is_menu) == ClickAction::ShowMenu) == item_is_menu,
        click_action_spec(BUTTON_PRIMARY, item_is_menu) != ClickAction::ShowMenu
            ==> click_action_spec(BUTTON_PRIMARY, item_is_menu) == ClickAction::Activate,
        button != BUTTON_PRIMARY && button != BUTTON_MIDDLE && button != BUTTON_SECONDARY
            ==> click_action_spec(button, item_is_menu) == ClickAction::Ignore,
{
}

} // verus!

