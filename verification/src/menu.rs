//! Layout of a DBusMenu as a menu model: sections separated by
//! separators, submenus, and one action per leaf entry.
use vstd::prelude::*;

use crate::text::{push_char, push_signed, signed_decimal, chars_of};

verus! {

/// How a DBusMenu entry can be toggled.
#[derive(Clone, Copy, Debug, PartialEq, Eq, Structural)]
pub enum ToggleKind {
    Checkmark,
    Radio,
    CannotBeToggled,
}

/// One entry of a DBusMenu layout, with the fields that the layout reads.
pub struct MenuEntry {
    /// DBusMenu item id, handed back when the entry is activated.
    pub id: i32,
    pub label: Option<String>,
    pub enabled: bool,
    pub visible: bool,
    /// The entry is a separator rather than a standard item.
    pub is_separator: bool,
    pub toggle_kind: ToggleKind,
    /// The toggle state is "on".
    pub toggled_on: bool,
    pub submenu: Vec<MenuEntry>,
}

/// A leaf of the model: a menu item bound to its own action.
pub struct MenuAction {
    pub label: String,
    /// DBusMenu item id to activate.
    pub id: i32,
    /// Name of the action in the action group: `item-<id>`.
    pub name: String,
    /// Detailed action name of the menu item: `tray.item-<id>`.
    pub target: String,
    /// `Some(state)` for a stateful (checkmark or radio) action.
    pub state: Option<bool>,
    pub enabled: bool,
}

/// A node of the menu model.
pub enum MenuNode {
    Action(MenuAction),
    Submenu { label: String, sections: Vec<Vec<MenuNode>> },
}

/// The mathematical form of a node.
pub ghost enum MenuNodeSpec {
    Action { label: Seq<char>, id: i32, name: Seq<char>, state: Option<bool>, enabled: bool },
    Submenu { label: Seq<char>, sections: Seq<Seq<MenuNodeSpec>> },
}

// ---------------------------------------------------------------------
// Labels
// ---------------------------------------------------------------------

/// DBusMenu labels use `_` for mnemonics and `__` for a literal underscore:
/// a single `_` is dropped and `__` becomes `_`.
pub open spec fn clean_label_spec(s: Seq<char>) -> Seq<char>
    decreases s.len(),
{
    if s.len() == 0 {
        seq![]
    } else if s[0] == '_' {
        if s.len() >= 2 && s[1] == '_' {
            seq!['_'] + clean_label_spec(s.skip(2))
        } else {
            clean_label_spec(s.skip(1))
        }
    } else {
        seq![s[0]] + clean_label_spec(s.skip(1))
    }
}

/// Strips mnemonic underscores from a DBusMenu label and unescapes `__`.
pub fn clean_label(label: &str) -> (r: String)
    ensures
        r@ == clean_label_spec(label@),
{
    let cs = chars_of(label);
    let n = cs.len();
    let mut out = String::new();
    let mut i: usize = 0;
    assert(cs@.skip(0) =~= cs@);
    while i < n
        invariant
            n == cs@.len(),
            cs@ == label@,
            i <= n,
            out@ + clean_label_spec(cs@.skip(i as int)) == clean_label_spec(label@),
        decreases n - i,
    {
        let ghost rest = cs@.skip(i as int);
        let c = cs[i];
        if c == '_' {
            if i + 1 < n && cs[i + 1] == '_' {
                push_char(&mut out, '_');
                assert(rest.skip(2) =~= cs@.skip(i + 2));
                assert(out@ + clean_label_spec(cs@.skip(i + 2)) =~= clean_label_spec(label@));
                i = i + 2;
            } else {
                assert(rest.skip(1) =~= cs@.skip(i + 1));
                i = i + 1;
            }
        } else {
            push_char(&mut out, c);
            assert(rest.skip(1) =~= cs@.skip(i + 1));
            assert(out@ + clean_label_spec(cs@.skip(i + 1)) =~= clean_label_spec(label@));
            i = i + 1;
        }
    }
    assert(cs@.skip(n as int) =~= Seq::<char>::empty());
    assert(out@ =~= out@ + clean_label_spec(cs@.skip(n as int)));
    out
}

/// Escapes a text as a DBusMenu label with no mnemonic: every `_` doubled.
pub open spec fn escape_label(t: Seq<char>) -> Seq<char>
    decreases t.len(),
{
    if t.len() == 0 {
        seq![]
    } else if t[0] == '_' {
        seq!['_', '_'] + escape_label(t.skip(1))
    } else {
        seq![t[0]] + escape_label(t.skip(1))
    }
}

/// Cleaning a label whose underscores are all doubled gives the text back.
pub proof fn lemma_clean_escaped_label(t: Seq<char>)
    ensures
        clean_label_spec(escape_label(t)) == t,
    decreases t.len(),
{
    if t.len() > 0 {
        lemma_clean_escaped_label(t.skip(1));
        let e = escape_label(t);
        if t[0] == '_' {
            assert(e.skip(2) =~= escape_label(t.skip(1)));
        } else {
            assert(e.skip(1) =~= escape_label(t.skip(1)));
        }
        assert(clean_label_spec(e) =~= t);
    }
}

/// A label with no underscore is shown as it is.
pub proof fn lemma_clean_label_plain(s: Seq<char>)
    requires
        !s.contains('_'),
    ensures
        clean_label_spec(s) == s,
    decreases s.len(),
{
    if s.len() > 0 {
        assert(s[0] != '_');
        assert(!s.skip(1).contains('_')) by {
            if s.skip(1).contains('_') {
                let k = choose|k: int| 0 <= k < s.skip(1).len() && s.skip(1)[k] == '_';
                assert(s[k + 1] == '_');
            }
        }
        lemma_clean_label_plain(s.skip(1));
        assert(seq![s[0]] + s.skip(1) =~= s);
    }
}

/// A prefix without underscores is copied as it is, and cleaning goes on
/// after it.
pub proof fn lemma_clean_label_prefix(p: Seq<char>, r: Seq<char>)
    requires
        !p.contains('_'),
    ensures
        clean_label_spec(p + r) == p + clean_label_spec(r),
    decreases p.len(),
{
    if p.len() > 0 {
        assert(p[0] != '_');
        let p1 = p.skip(1);
        assert(!p1.contains('_')) by {
            if p1.contains('_') {
                let k = choose|k: int| 0 <= k < p1.len() && p1[k] == '_';
                assert(p[k + 1] == '_');
            }
        }
        lemma_clean_label_prefix(p1, r);
        assert((p + r)[0] == p[0]);
        assert((p + r).skip(1) =~= p1 + r);
        assert(seq![p[0]] + (p1 + clean_label_spec(r)) =~= p + clean_label_spec(r));
    }
}

/// Wherever it stands, a lone `_` is dropped and the character after it
/// kept; a doubled `__` becomes one `_`; a `_` at the very end is dropped.
pub proof fn lemma_clean_label_underscores(p: Seq<char>, c: char, q: Seq<char>)
    requires
        !p.contains('_'),
    ensures
        c != '_' ==> clean_label_spec(p + seq!['_', c] + q) == p + seq![c] + clean_label_spec(q),
        clean_label_spec(p + seq!['_', '_'] + q) == p + seq!['_'] + clean_label_spec(q),
        clean_label_spec(p + seq!['_']) == p,
{
    let r1 = seq!['_', c] + q;
    assert(p + seq!['_', c] + q =~= p + r1);
    lemma_clean_label_prefix(p, r1);
    assert(r1.skip(1) =~= seq![c] + q);
    assert((seq![c] + q).skip(1) =~= q);
    if c != '_' {
        assert(clean_label_spec(seq![c] + q) == seq![c] + clean_label_spec(q));
        assert(p + (seq![c] + clean_label_spec(q)) =~= p + seq![c] + clean_label_spec(q));
    }
    let r2 = seq!['_', '_'] + q;
    assert(p + seq!['_', '_'] + q =~= p + r2);
    lemma_clean_label_prefix(p, r2);
    assert(r2.skip(2) =~= q);
    assert(p + (seq!['_'] + clean_label_spec(q)) =~= p + seq!['_'] + clean_label_spec(q));
    let r3 = seq!['_'];
    lemma_clean_label_prefix(p, r3);
    assert(r3.skip(1) =~= Seq::<char>::empty());
    assert(clean_label_spec(Seq::<char>::empty()) =~= Seq::<char>::empty());
    assert(p + Seq::<char>::empty() =~= p);
}

// ---------------------------------------------------------------------
// Layout
// ---------------------------------------------------------------------

/// Name of the action bound to entry `id`.
pub open spec fn action_name(id: i32) -> Seq<char> {
    seq!['i', 't', 'e', 'm', '-'] + signed_decimal(id as int)
}

/// Detailed action name that a menu item of entry `id` activates.
pub open spec fn action_target(id: i32) -> Seq<char> {
    seq!['t', 'r', 'a', 'y', '.'] + action_name(id)
}

/// Label text of an entry: its label, or empty when it has none.
pub open spec fn label_text(label: Option<String>) -> Seq<char> {
    match label {
        Some(l) => l@,
        None => seq![],
    }
}

/// The node an entry becomes: a submenu when it has children, else an
/// action, stateful for checkmark and radio entries.
pub open spec fn entry_node(e: MenuEntry) -> MenuNodeSpec
    decreases e,
{
    let label = clean_label_spec(label_text(e.label));
    if e.submenu@.len() > 0 {
        MenuNodeSpec::Submenu { label, sections: sections_of(menu_fold(e.submenu@)) }
    } else {
        MenuNodeSpec::Action {
            label,
            id: e.id,
            name: action_name(e.id),
            state: if e.toggle_kind == ToggleKind::CannotBeToggled {
                None
            } else {
                Some(e.toggled_on)
            },
            enabled: e.enabled,
        }
    }
}

/// Walking the entries in order: the sections closed so far, and the
/// section being filled. Hidden entries are skipped; a separator closes the
/// current section when it is not empty.
pub open spec fn menu_fold(items: Seq<MenuEntry>) -> (Seq<Seq<MenuNodeSpec>>, Seq<MenuNodeSpec>)
    decreases items,
{
    if items.len() == 0 {
        (seq![], seq![])
    } else {
        let prev = menu_fold(items.subrange(0, items.len() - 1));
        let e = items[items.len() - 1];
        if !e.visible {
            prev
        } else if e.is_separator {
            if prev.1.len() > 0 {
                (prev.0.push(prev.1), seq![])
            } else {
                prev
            }
        } else {
            (prev.0, prev.1.push(entry_node(e)))
        }
    }
}

/// The sections of a walk, with the last one closed when not empty.
pub open spec fn sections_of(state: (Seq<Seq<MenuNodeSpec>>, Seq<MenuNodeSpec>)) -> Seq<
    Seq<MenuNodeSpec>,
> {
    if state.1.len() > 0 {
        state.0.push(state.1)
    } else {
        state.0
    }
}

/// The sections that a list of entries is laid out as.
pub open spec fn menu_layout(items: Seq<MenuEntry>) -> Seq<Seq<MenuNodeSpec>> {
    sections_of(menu_fold(items))
}

/// `n` is the executable form of `v`.
pub open spec fn node_matches(n: MenuNode, v: MenuNodeSpec) -> bool
    decreases n,
{
    match n {
        MenuNode::Action(a) => match v {
            MenuNodeSpec::Action { label, id, name, state, enabled } => {
                &&& a.label@ == label
                &&& a.id == id
                &&& a.name@ == name
                &&& a.target@ == seq!['t', 'r', 'a', 'y', '.'] + name
                &&& a.state == state
                &&& a.enabled == enabled
            },
            _ => false,
        },
        MenuNode::Submenu { label: l, sections: s } => match v {
            MenuNodeSpec::Submenu { label, sections } => {
                &&& l@ == label
                &&& s@.len() == sections.len()
                &&& forall|i: int|
                    0 <= i < sections.len() ==> {
                        &&& (#[trigger] s@[i])@.len() == sections[i].len()
                        &&& forall|j: int|
                            0 <= j < sections[i].len() ==> node_matches(
                                #[trigger] s@[i]@[j],
                                sections[i][j],
                            )
                    }
            },
            _ => false,
        },
    }
}

/// A section of nodes is the executable form of a section of specs.
pub open spec fn section_matches(s: Seq<MenuNode>, v: Seq<MenuNodeSpec>) -> bool {
    &&& s.len() == v.len()
    &&& forall|j: int| 0 <= j < v.len() ==> node_matches(#[trigger] s[j], v[j])
}

/// A list of sections is the executable form of a list of specs.
pub open spec fn sections_match(s: Seq<Vec<MenuNode>>, v: Seq<Seq<MenuNodeSpec>>) -> bool {
    &&& s.len() == v.len()
    &&& forall|i: int| 0 <= i < v.len() ==> section_matches((#[trigger] s[i])@, v[i])
}

fn action_of(e: &MenuEntry, label: String) -> (a: MenuAction)
    ensures
        a.label == label,
        a.id == e.id,
        a.name@ == action_name(e.id),
        a.target@ == action_target(e.id),
        a.state == (if e.toggle_kind == ToggleKind::CannotBeToggled {
            None
        } else {
            Some(e.toggled_on)
        }),
        a.enabled == e.enabled,
{
    let mut name = String::new();
    push_char(&mut name, 'i');
    push_char(&mut name, 't');
    push_char(&mut name, 'e');
    push_char(&mut name, 'm');
    push_char(&mut name, '-');
    push_signed(&mut name, e.id as i64);
    let mut target = String::new();
    push_char(&mut target, 't');
    push_char(&mut target, 'r');
    push_char(&mut target, 'a');
    push_char(&mut target, 'y');
    push_char(&mut target, '.');
    push_char(&mut target, 'i');
    push_char(&mut target, 't');
    push_char(&mut target, 'e');
    push_char(&mut target, 'm');
    push_char(&mut target, '-');
    push_signed(&mut target, e.id as i64);
    assert(name@ =~= action_name(e.id));
    assert(target@ =~= action_target(e.id));
    let state = match e.toggle_kind {
        ToggleKind::Checkmark | ToggleKind::Radio => Some(e.toggled_on),
        ToggleKind::CannotBeToggled => None,
    };
    MenuAction { label, id: e.id, name, target, state, enabled: e.enabled }
}

/// Lays out a DBusMenu level: visible entries in order, grouped into
/// sections at separators (empty sections dropped); an entry with children
/// becomes a submenu laid out the same way, any other entry an action named
/// after its id.
pub fn layout_menu(items: &Vec<MenuEntry>) -> (r: Vec<Vec<MenuNode>>)
    ensures
        sections_match(r@, menu_layout(items@)),
    decreases items@,
{
    let mut root: Vec<Vec<MenuNode>> = Vec::new();
    let mut section: Vec<MenuNode> = Vec::new();
    let n = items.len();
    let mut i: usize = 0;
    assert(items@.subrange(0, 0) =~= Seq::<MenuEntry>::empty());
    while i < n
        invariant
            n == items@.len(),
            i <= n,
            sections_match(root@, menu_fold(items@.subrange(0, i as int)).0),
            section_matches(section@, menu_fold(items@.subrange(0, i as int)).1),
        decreases n - i,
    {
        let e = &items[i];
        let ghost prev = menu_fold(items@.subrange(0, i as int));
        assert(items@.subrange(0, i + 1).subrange(0, i as int) =~= items@.subrange(0, i as int));
        assert(items@.subrange(0, i + 1)[i as int] == items@[i as int]);
        if !e.visible {
        } else if e.is_separator {
            if section.len() > 0 {
                let mut done: Vec<MenuNode> = Vec::new();
                std::mem::swap(&mut done, &mut section);
                root.push(done);
                assert(section_matches(section@, Seq::<MenuNodeSpec>::empty()));
                assert(sections_match(root@, prev.0.push(prev.1))) by {
                    assert forall|k: int| 0 <= k < prev.0.push(prev.1).len() implies section_matches(
                        (#[trigger] root@[k])@,
                        prev.0.push(prev.1)[k],
                    ) by {
                        if k < prev.0.len() {
                        }
                    }
                }
            }
        } else {
            let label = match &e.label {
                Some(l) => clean_label(l.as_str()),
                None => clean_label(""),
            };
            proof {
                if e.label.is_none() {
                    assert(label@ =~= clean_label_spec(label_text(e.label))) by {
                        reveal_strlit("");
                    }
                }
            }
            let node = if e.submenu.len() > 0 {
                let sections = layout_menu(&e.submenu);
                MenuNode::Submenu { label, sections }
            } else {
                MenuNode::Action(action_of(e, label))
            };
            assert(node_matches(node, entry_node(*e)));
            section.push(node);
            assert(section_matches(section@, prev.1.push(entry_node(*e)))) by {
                assert forall|k: int| 0 <= k < prev.1.push(entry_node(*e)).len() implies node_matches(
                    #[trigger] section@[k],
                    prev.1.push(entry_node(*e))[k],
                ) by {
                    if k < prev.1.len() {
                    }
                }
            }
        }
        i = i + 1;
    }
    assert(items@.subrange(0, n as int) =~= items@);
    if section.len() > 0 {
        let ghost st = menu_fold(items@);
        root.push(section);
        assert(sections_match(root@, st.0.push(st.1))) by {
            assert forall|k: int| 0 <= k < st.0.push(st.1).len() implies section_matches(
                (#[trigger] root@[k])@,
                st.0.push(st.1)[k],
            ) by {
                if k < st.0.len() {
                }
            }
        }
    }
    root
}

// ---------------------------------------------------------------------
// Laws of the layout
// ---------------------------------------------------------------------

/// The entries that show up in a layout: visible, and not separators.
pub open spec fn shown() -> spec_fn(MenuEntry) -> bool {
    |e: MenuEntry| e.visible && !e.is_separator
}

/// The node of each entry.
pub open spec fn node_of() -> spec_fn(MenuEntry) -> MenuNodeSpec {
    |e: MenuEntry| entry_node(e)
}

proof fn lemma_fold_sections_nonempty(items: Seq<MenuEntry>)
    ensures
        forall|i: int|
            0 <= i < menu_fold(items).0.len() ==> (#[trigger] menu_fold(items).0[i]).len() > 0,
    decreases items.len(),
{
    if items.len() > 0 {
        let pre = items.subrange(0, items.len() - 1);
        lemma_fold_sections_nonempty(pre);
        let p = menu_fold(pre);
        let q = menu_fold(items);
        assert forall|i: int| 0 <= i < q.0.len() implies (#[trigger] q.0[i]).len() > 0 by {
            if i < p.0.len() {
                assert(q.0[i] == p.0[i]);
            }
        }
    }
}

/// No section of a layout is empty: separators never produce an empty
/// section, whether they stand first, last or next to each other.
pub proof fn lemma_layout_sections_nonempty(items: Seq<MenuEntry>)
    ensures
        forall|i: int|
            0 <= i < menu_layout(items).len() ==> (#[trigger] menu_layout(items)[i]).len() > 0,
{
    lemma_fold_sections_nonempty(items);
}

proof fn lemma_fold_entries(items: Seq<MenuEntry>)
    ensures
        menu_fold(items).0.flatten_alt() + menu_fold(items).1 == items.filter(shown()).map_values(
            node_of(),
        ),
    decreases items.len(),
{
    reveal(Seq::filter);
    if items.len() == 0 {
        assert(menu_fold(items).0.flatten_alt() + menu_fold(items).1 =~= Seq::<MenuNodeSpec>::empty());
        assert(items.filter(shown()).map_values(node_of()) =~= Seq::<MenuNodeSpec>::empty());
    } else {
        let pre = items.subrange(0, items.len() - 1);
        lemma_fold_entries(pre);
        assert(items.drop_last() == pre);
        let e = items[items.len() - 1];
        let p = menu_fold(pre);
        if !e.visible {
        } else if e.is_separator {
            if p.1.len() > 0 {
                assert(p.0.push(p.1).drop_last() =~= p.0);
                assert(p.0.push(p.1).flatten_alt() == p.0.flatten_alt() + p.1);
                assert(p.0.push(p.1).flatten_alt() + Seq::<MenuNodeSpec>::empty() =~= p.0.flatten_alt()
                    + p.1);
            }
        } else {
            assert(pre.filter(shown()).push(e).map_values(node_of()) =~= pre.filter(
                shown(),
            ).map_values(node_of()).push(entry_node(e)));
            assert(p.0.flatten_alt() + p.1.push(entry_node(e)) =~= (p.0.flatten_alt() + p.1).push(
                entry_node(e),
            ));
        }
    }
}

/// Read in order, the sections of a layout hold exactly the visible
/// entries that are not separators, each as the node it becomes: no entry
/// is lost, repeated or moved.
pub proof fn lemma_layout_entries(items: Seq<MenuEntry>)
    ensures
        menu_layout(items).flatten() == items.filter(shown()).map_values(node_of()),
{
    lemma_fold_entries(items);
    let p = menu_fold(items);
    menu_layout(items).lemma_flatten_and_flatten_alt_are_equivalent();
    if p.1.len() > 0 {
        assert(p.0.push(p.1).drop_last() =~= p.0);
    } else {
        assert(p.0.flatten_alt() + p.1 =~= p.0.flatten_alt());
    }
}

/// An entry without children becomes one action that carries the entry's
/// id, activates `tray.item-<id>`, is enabled exactly when the entry is,
/// and is stateful (with the entry's toggle state) exactly when the entry
/// can be toggled; an entry with children becomes a submenu.
pub proof fn lemma_entry_node_fields(e: MenuEntry)
    ensures
        e.submenu@.len() == 0 ==> match entry_node(e) {
            MenuNodeSpec::Action { label, id, name, state, enabled } => {
                &&& label == clean_label_spec(label_text(e.label))
                &&& id == e.id
                &&& seq!['t', 'r', 'a', 'y', '.'] + name == action_target(e.id)
                &&& enabled == e.enabled
                &&& (e.toggle_kind == ToggleKind::CannotBeToggled <==> state.is_none())
                &&& (state.is_some() ==> state == Some(e.toggled_on))
            },
            _ => false,
        },
        e.submenu@.len() > 0 ==> entry_node(e) is Submenu,
{
}

} // verus!

