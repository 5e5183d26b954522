//! What a tray item's widget shows: its visibility, its icon (a themed
//! icon name or a pixmap) and its tooltip.
use vstd::prelude::*;

use crate::text::push_char;

verus! {

/// Size, in pixels, at which tray icons are shown.
pub const ICON_SIZE: i32 = 22;

/// StatusNotifierItem status.
#[derive(Clone, Copy, Debug, PartialEq, Eq, Structural)]
pub enum ItemStatus {
    Unknown,
    Passive,
    Active,
    NeedsAttention,
}

/// An icon pixmap as a StatusNotifierItem sends it: ARGB32 pixels in
/// network byte order.
pub struct Pixmap {
    pub width: i32,
    pub height: i32,
    pub pixels: Vec<u8>,
}

/// The tooltip of a StatusNotifierItem.
pub struct ToolTip {
    pub title: String,
    pub description: String,
}

/// The fields of a StatusNotifierItem that its widget reads.
pub struct TrayItem {
    pub status: ItemStatus,
    pub title: Option<String>,
    pub icon_theme_path: Option<String>,
    pub icon_name: Option<String>,
    pub icon_pixmap: Option<Vec<Pixmap>>,
    pub attention_icon_name: Option<String>,
    pub attention_icon_pixmap: Option<Vec<Pixmap>>,
    pub tool_tip: Option<ToolTip>,
    pub item_is_menu: bool,
    pub menu: Option<String>,
}

/// Where the widget's image comes from.
pub enum IconSource {
    /// An icon of the theme, by name.
    Named(String),
    /// A texture of `width` x `height` pixels, RGBA bytes.
    Texture { width: i32, height: i32, rgba: Vec<u8> },
}

/// Everything the widget of an item shows.
pub struct IconView {
    pub visible: bool,
    pub source: IconSource,
    pub tooltip: Option<String>,
}

// ---------------------------------------------------------------------
// Names and paths
// ---------------------------------------------------------------------

/// The text of an optional string, when there is one and it is not empty.
pub open spec fn non_empty_spec(value: Option<String>) -> Option<Seq<char>> {
    match value {
        Some(s) => if s@.len() > 0 {
            Some(s@)
        } else {
            None
        },
        None => None,
    }
}

/// The view of an optional string slice.
pub open spec fn opt_str(o: Option<&str>) -> Option<Seq<char>> {
    match o {
        Some(s) => Some(s@),
        None => None,
    }
}

/// The text of `value` unless it is absent or empty.
pub fn non_empty(value: &Option<String>) -> (r: Option<&str>)
    ensures
        opt_str(r) == non_empty_spec(*value),
{
    match value {
        Some(s) => {
            let t = s.as_str();
            if t.is_empty() {
                None
            } else {
                Some(t)
            }
        },
        None => None,
    }
}

/// The item asks for attention.
pub open spec fn wants_attention(item: TrayItem) -> bool {
    item.status == ItemStatus::NeedsAttention
}

/// The icon name to show: the attention icon name while the item asks for
/// attention (falling back to the icon name), else the icon name; empty
/// names count as absent.
pub open spec fn icon_name_spec(item: TrayItem) -> Option<Seq<char>> {
    if wants_attention(item) {
        match non_empty_spec(item.attention_icon_name) {
            Some(n) => Some(n),
            None => non_empty_spec(item.icon_name),
        }
    } else {
        non_empty_spec(item.icon_name)
    }
}

/// The pixmaps to choose from: the attention pixmaps while the item asks
/// for attention (falling back to the icon pixmaps), else the icon pixmaps.
pub open spec fn pixmaps_spec(item: TrayItem) -> Option<Vec<Pixmap>> {
    if wants_attention(item) && item.attention_icon_pixmap.is_some() {
        item.attention_icon_pixmap
    } else {
        item.icon_pixmap
    }
}

/// The icon name the widget wants, before the theme is asked about it.
pub fn wanted_icon_name(item: &TrayItem) -> (r: Option<&str>)
    ensures
        opt_str(r) == icon_name_spec(*item),
{
    if item.status == ItemStatus::NeedsAttention {
        match non_empty(&item.attention_icon_name) {
            Some(n) => Some(n),
            None => non_empty(&item.icon_name),
        }
    } else {
        non_empty(&item.icon_name)
    }
}

/// The pixmaps the widget chooses from.
pub fn wanted_pixmaps(item: &TrayItem) -> (r: Option<&Vec<Pixmap>>)
    ensures
        match r {
            Some(p) => pixmaps_spec(*item) == Some(*p),
            None => pixmaps_spec(*item).is_none(),
        },
{
    if item.status == ItemStatus::NeedsAttention {
        match &item.attention_icon_pixmap {
            Some(p) => Some(p),
            None => match &item.icon_pixmap {
                Some(p) => Some(p),
                None => None,
            },
        }
    } else {
        match &item.icon_pixmap {
            Some(p) => Some(p),
            None => None,
        }
    }
}

/// The directory the item wants added to the icon theme's search path.
pub fn theme_search_path(item: &TrayItem) -> (r: Option<&str>)
    ensures
        opt_str(r) == non_empty_spec(item.icon_theme_path),
{
    non_empty(&item.icon_theme_path)
}

/// The widget of an item is shown unless the item is passive.
pub fn item_visible(status: ItemStatus) -> (r: bool)
    ensures
        r == (status != ItemStatus::Passive),
{
    match status {
        ItemStatus::Passive => false,
        _ => true,
    }
}

// ---------------------------------------------------------------------
// Tooltip
// ---------------------------------------------------------------------

/// Text of a tooltip: title and description on two lines, or whichever of
/// them is not empty.
pub open spec fn tip_text(tip: ToolTip) -> Seq<char> {
    if tip.description@.len() == 0 {
        tip.title@
    } else if tip.title@.len() == 0 {
        tip.description@
    } else {
        tip.title@ + seq!['\n'] + tip.description@
    }
}

/// The tooltip of an item: its tooltip text when that is not empty, else
/// its title when that is not empty.
pub open spec fn tooltip_spec(item: TrayItem) -> Option<Seq<char>> {
    match item.tool_tip {
        Some(tip) => if tip_text(tip).len() > 0 {
            Some(tip_text(tip))
        } else {
            non_empty_spec(item.title)
        },
        None => non_empty_spec(item.title),
    }
}

/// The view of an optional string.
pub open spec fn opt_string(o: Option<String>) -> Option<Seq<char>> {
    match o {
        Some(s) => Some(s@),
        None => None,
    }
}

fn copy_string(s: &String) -> (r: String)
    ensures
        r@ == s@,
{
    let mut r = String::new();
    r.append(s.as_str());
    r
}

/// The tooltip the widget of `item` shows.
pub fn tooltip(item: &TrayItem) -> (r: Option<String>)
    ensures
        opt_string(r) == tooltip_spec(*item),
{
    if let Some(tip) = &item.tool_tip {
        let text = if tip.description.as_str().is_empty() {
            copy_string(&tip.title)
        } else if tip.title.as_str().is_empty() {
            copy_string(&tip.description)
        } else {
            let mut t = copy_string(&tip.title);
            push_char(&mut t, '\n');
            t.append(tip.description.as_str());
            t
        };
        assert(text@ =~= tip_text(*tip));
        if !text.as_str().is_empty() {
            return Some(text);
        }
    }
    match non_empty(&item.title) {
        Some(t) => {
            let mut r = String::new();
            r.append(t);
            Some(r)
        },
        None => None,
    }
}

// ---------------------------------------------------------------------
// Choosing a pixmap
// ---------------------------------------------------------------------

/// A pixmap with a positive size.
pub open spec fn usable(p: Pixmap) -> bool {
    p.width > 0 && p.height > 0
}

/// Preference key of a pixmap, smaller is better: pixmaps at least
/// `ICON_SIZE` wide come first, smallest first; then the others, widest
/// first.
pub open spec fn pixmap_rank(p: Pixmap) -> (int, int) {
    if p.width >= ICON_SIZE {
        (0, p.width as int)
    } else {
        (1, -(p.width as int))
    }
}

/// Lexicographic order on keys.
pub open spec fn rank_lt(a: (int, int), b: (int, int)) -> bool {
    a.0 < b.0 || (a.0 == b.0 && a.1 < b.1)
}

/// `i` is the first usable pixmap of least key.
pub open spec fn is_best_pixmap(ps: Seq<Pixmap>, i: int) -> bool {
    &&& 0 <= i < ps.len()
    &&& usable(ps[i])
    &&& forall|j: int|
        0 <= j < ps.len() && usable(#[trigger] ps[j]) ==> !rank_lt(pixmap_rank(ps[j]), pixmap_rank(ps[i]))
    &&& forall|j: int|
        0 <= j < i && usable(#[trigger] ps[j]) ==> rank_lt(pixmap_rank(ps[i]), pixmap_rank(ps[j]))
}

fn rank_less(a: &Pixmap, b: &Pixmap) -> (r: bool)
    ensures
        r == rank_lt(pixmap_rank(*a), pixmap_rank(*b)),
{
    let a_big = a.width >= ICON_SIZE;
    let b_big = b.width >= ICON_SIZE;
    if a_big && b_big {
        a.width < b.width
    } else if !a_big && !b_big {
        a.width > b.width
    } else {
        a_big
    }
}

/// Picks the smallest pixmap at least as big as the target size, or the
/// biggest one if none is big enough; pixmaps of zero or negative size are
/// skipped, and of equal candidates the first wins.
pub fn best_pixmap(pixmaps: &[Pixmap]) -> (r: Option<usize>)
    ensures
        match r {
            Some(i) => is_best_pixmap(pixmaps@, i as int),
            None => forall|j: int| 0 <= j < pixmaps@.len() ==> !usable(#[trigger] pixmaps@[j]),
        },
{
    let n = pixmaps.len();
    let mut best: Option<usize> = None;
    let mut i: usize = 0;
    while i < n
        invariant
            n == pixmaps@.len(),
            i <= n,
            match best {
                Some(b) => {
                    &&& b < i
                    &&& usable(pixmaps@[b as int])
                    &&& forall|j: int|
                        0 <= j < i && usable(#[trigger] pixmaps@[j]) ==> !rank_lt(
                            pixmap_rank(pixmaps@[j]),
                            pixmap_rank(pixmaps@[b as int]),
                        )
                    &&& forall|j: int|
                        0 <= j < b && usable(#[trigger] pixmaps@[j]) ==> rank_lt(
                            pixmap_rank(pixmaps@[b as int]),
                            pixmap_rank(pixmaps@[j]),
                        )
                },
                None => forall|j: int| 0 <= j < i ==> !usable(#[trigger] pixmaps@[j]),
            },
        decreases n - i,
    {
        let p = &pixmaps[i];
        if p.width > 0 && p.height > 0 {
            match best {
                None => {
                    best = Some(i);
                },
                Some(b) => {
                    if rank_less(p, &pixmaps[b]) {
                        best = Some(i);
                    }
                },
            }
        }
        i = i + 1;
    }
    best
}

/// Of usable pixmaps, the best one is at least `ICON_SIZE` wide and the
/// narrowest such when any is that wide, and the widest of all otherwise.
pub proof fn lemma_best_pixmap_size(ps: Seq<Pixmap>, i: int)
    requires
        is_best_pixmap(ps, i),
    ensures
        (exists|j: int| 0 <= j < ps.len() && usable(ps[j]) && ps[j].width >= ICON_SIZE) ==> {
            &&& ps[i].width >= ICON_SIZE
            &&& forall|j: int|
                0 <= j < ps.len() && usable(#[trigger] ps[j]) && ps[j].width >= ICON_SIZE
                    ==> ps[i].width <= ps[j].width
        },
        (forall|j: int| 0 <= j < ps.len() && usable(ps[j]) ==> ps[j].width < ICON_SIZE) ==> forall|
            j: int,
        |
            0 <= j < ps.len() && usable(#[trigger] ps[j]) ==> ps[j].width <= ps[i].width,
{
    if exists|j: int| 0 <= j < ps.len() && usable(ps[j]) && ps[j].width >= ICON_SIZE {
        let j = choose|j: int| 0 <= j < ps.len() && usable(ps[j]) && ps[j].width >= ICON_SIZE;
        assert(!rank_lt(pixmap_rank(ps[j]), pixmap_rank(ps[i])));
    }
}

/// At most one pixmap is the best one.
pub proof fn lemma_best_pixmap_unique(ps: Seq<Pixmap>, i: int, j: int)
    requires
        is_best_pixmap(ps, i),
        is_best_pixmap(ps, j),
    ensures
        i == j,
{
    if i < j {
        assert(rank_lt(pixmap_rank(ps[j]), pixmap_rank(ps[i])));
    } else if j < i {
        assert(rank_lt(pixmap_rank(ps[i]), pixmap_rank(ps[j])));
    }
}

// ---------------------------------------------------------------------
// Pixel format
// ---------------------------------------------------------------------

/// ARGB32 in network byte order turned into RGBA: every complete group of
/// four bytes is rotated left by one; trailing bytes stay as they are.
pub open spec fn rgba_spec(px: Seq<u8>) -> Seq<u8> {
    Seq::new(
        px.len(),
        |k: int|
            if k < px.len() - px.len() % 4 {
                px[k - k % 4 + (k % 4 + 1) % 4]
            } else {
                px[k]
            },
    )
}

/// Converts SNI pixmap bytes (ARGB32, network order) to RGBA bytes.
pub fn rgba_pixels(pixels: &Vec<u8>) -> (r: Vec<u8>)
    ensures
        r@ == rgba_spec(pixels@),
{
    let n = pixels.len();
    let full = n - n % 4;
    let mut out: Vec<u8> = Vec::new();
    let mut i: usize = 0;
    while i < full
        invariant
            n == pixels@.len(),
            full == n - n % 4,
            i <= full,
            i % 4 == 0,
            out@ == rgba_spec(pixels@).take(i as int),
        decreases full - i,
    {
        out.push(pixels[i + 1]);
        out.push(pixels[i + 2]);
        out.push(pixels[i + 3]);
        out.push(pixels[i]);
        assert(out@ =~= rgba_spec(pixels@).take(i + 4)) by {
            assert forall|k: int| i <= k < i + 4 implies #[trigger] rgba_spec(pixels@)[k] == out@[k] by {
                assert(k % 4 == k - i);
            }
        }
        i = i + 4;
    }
    while i < n
        invariant
            n == pixels@.len(),
            full == n - n % 4,
            full <= i <= n,
            out@ == rgba_spec(pixels@).take(i as int),
        decreases n - i,
    {
        out.push(pixels[i]);
        assert(out@ =~= rgba_spec(pixels@).take(i + 1));
        i = i + 1;
    }
    assert(rgba_spec(pixels@).take(n as int) =~= rgba_spec(pixels@));
    out
}

// ---------------------------------------------------------------------
// The icon
// ---------------------------------------------------------------------

/// The image a widget shows, given whether the icon theme has the wanted
/// icon name: that themed icon; else the best pixmap; else the wanted name
/// anyway (the theme may gain it later); else `image-missing`.
pub open spec fn icon_source_matches(item: TrayItem, name_in_theme: bool, src: IconSource) -> bool {
    let name = icon_name_spec(item);
    let best = match pixmaps_spec(item) {
        Some(ps) => exists|i: int| is_best_pixmap(ps@, i),
        None => false,
    };
    if name.is_some() && name_in_theme {
        src matches IconSource::Named(n) && n@ == name.unwrap()
    } else if best {
        let ps = pixmaps_spec(item).unwrap()@;
        match src {
            IconSource::Texture { width, height, rgba } => exists|i: int|
                #![trigger ps[i]]
                is_best_pixmap(ps, i) && width == ps[i].width && height == ps[i].height && rgba@
                    == rgba_spec(ps[i].pixels@),
            _ => false,
        }
    } else if name.is_some() {
        src matches IconSource::Named(n) && n@ == name.unwrap()
    } else {
        src matches IconSource::Named(n) && n@ == "image-missing"@
    }
}

/// The image the widget of `item` shows; `name_in_theme` says whether the
/// icon theme has the name that `wanted_icon_name` returns.
pub fn icon_source(item: &TrayItem, name_in_theme: bool) -> (r: IconSource)
    ensures
        icon_source_matches(*item, name_in_theme, r),
{
    let name = wanted_icon_name(item);
    if let Some(n) = name {
        if name_in_theme {
            let mut s = String::new();
            s.append(n);
            return IconSource::Named(s);
        }
    }
    if let Some(ps) = wanted_pixmaps(item) {
        if let Some(i) = best_pixmap(ps.as_slice()) {
            let p = &ps[i];
            let rgba = rgba_pixels(&p.pixels);
            let r = IconSource::Texture { width: p.width, height: p.height, rgba };
            proof {
                let ghost sp = pixmaps_spec(*item).unwrap()@;
                assert(sp == ps@);
                assert(is_best_pixmap(sp, i as int));
                assert(sp[i as int] == *p);
                assert(!(icon_name_spec(*item).is_some() && name_in_theme));
            }
            return r;
        } else {
            assert(forall|i: int| !is_best_pixmap(ps@, i));
        }
    }
    match name {
        Some(n) => {
            let mut s = String::new();
            s.append(n);
            IconSource::Named(s)
        },
        None => IconSource::Named(String::from_str("image-missing")),
    }
}

/// What the widget of `item` shows; `name_in_theme` says whether the icon
/// theme has the name that `wanted_icon_name` returns.
pub fn icon_view(item: &TrayItem, name_in_theme: bool) -> (r: IconView)
    ensures
        r.visible == (item.status != ItemStatus::Passive),
        icon_source_matches(*item, name_in_theme, r.source),
        opt_string(r.tooltip) == tooltip_spec(*item),
{
    IconView {
        visible: item_visible(item.status),
        source: icon_source(item, name_in_theme),
        tooltip: tooltip(item),
    }
}

} // verus!
