//! The volume widget: reading `wpctl get-volume`, and the icon, label and
//! tooltip that a volume and mute state are shown with.
use vstd::prelude::*;

use crate::text::{
    contains_str, has_substring, nth_word, push_signed, signed_decimal, words,
};

verus! {

/// How loud the sink is, as the icon shows it.
#[derive(Clone, Copy, Debug, PartialEq, Eq, Structural)]
pub enum VolumeLevel {
    Muted,
    Low,
    Medium,
    High,
}

/// The level for a volume in percent: muted when muted or at zero, low
/// below 34, medium below 67, high from there.
pub open spec fn volume_level_spec(percent: int, muted: bool) -> VolumeLevel {
    if muted || percent == 0 {
        VolumeLevel::Muted
    } else if percent < 34 {
        VolumeLevel::Low
    } else if percent < 67 {
        VolumeLevel::Medium
    } else {
        VolumeLevel::High
    }
}

/// Name of the symbolic icon of a level.
pub open spec fn level_icon_spec(level: VolumeLevel) -> Seq<char> {
    match level {
        VolumeLevel::Muted => "audio-volume-muted-symbolic"@,
        VolumeLevel::Low => "audio-volume-low-symbolic"@,
        VolumeLevel::Medium => "audio-volume-medium-symbolic"@,
        VolumeLevel::High => "audio-volume-high-symbolic"@,
    }
}

impl VolumeLevel {
    /// Name of the symbolic icon shown for this level.
    pub fn icon_name(&self) -> (r: &'static str)
        ensures
            r@ == level_icon_spec(*self),
    {
        match self {
            VolumeLevel::Muted => "audio-volume-muted-symbolic",
            VolumeLevel::Low => "audio-volume-low-symbolic",
            VolumeLevel::Medium => "audio-volume-medium-symbolic",
            VolumeLevel::High => "audio-volume-high-symbolic",
        }
    }
}

/// The level a volume is shown at.
pub fn volume_level(percent: i32, muted: bool) -> (r: VolumeLevel)
    ensures
        r == volume_level_spec(percent as int, muted),
{
    if muted || percent == 0 {
        VolumeLevel::Muted
    } else if percent < 34 {
        VolumeLevel::Low
    } else if percent < 67 {
        VolumeLevel::Medium
    } else {
        VolumeLevel::High
    }
}

/// Everything the volume widget shows.
pub struct VolumeView {
    pub level: VolumeLevel,
    /// `<percent>%`
    pub label: String,
    pub tooltip: String,
    /// The label is dimmed while muted.
    pub dim_label: bool,
}

/// Label text for a volume: the percentage and a `%` sign.
pub open spec fn volume_label_spec(percent: int) -> Seq<char> {
    signed_decimal(percent) + seq!['%']
}

/// Tooltip text: `Volume: <percent>%`, followed by ` (muted)` while muted.
pub open spec fn volume_tooltip_spec(percent: int, muted: bool) -> Seq<char> {
    if muted {
        "Volume: "@ + signed_decimal(percent) + "% (muted)"@
    } else {
        "Volume: "@ + signed_decimal(percent) + "%"@
    }
}

/// What the volume widget shows for a volume (in percent, rounded) and
/// mute state.
pub fn volume_view(percent: i32, muted: bool) -> (r: VolumeView)
    ensures
        r.level == volume_level_spec(percent as int, muted),
        r.label@ == volume_label_spec(percent as int),
        r.tooltip@ == volume_tooltip_spec(percent as int, muted),
        r.dim_label == muted,
{
    let mut label = String::new();
    push_signed(&mut label, percent as i64);
    label.append("%");
    proof {
        reveal_strlit("%");
    }
    assert(label@ =~= volume_label_spec(percent as int));
    let mut tooltip = String::from_str("Volume: ");
    push_signed(&mut tooltip, percent as i64);
    if muted {
        tooltip.append("% (muted)");
    } else {
        tooltip.append("%");
    }
    assert(tooltip@ =~= volume_tooltip_spec(percent as int, muted));
    VolumeView { level: volume_level(percent, muted), label, tooltip, dim_label: muted }
}

/// What `wpctl get-volume` prints, split up: the volume as written (the
/// second word, e.g. `0.45`) and whether the sink is muted.
pub struct VolumeReading {
    pub volume: String,
    pub muted: bool,
}

/// Reads `wpctl get-volume` output such as `Volume: 0.45 [MUTED]`: the
/// second white-space separated word is the volume, and the sink is muted
/// when `[MUTED]` occurs. `None` when there is no second word.
pub fn parse_volume(stdout: &str) -> (r: Option<VolumeReading>)
    ensures
        match r {
            Some(v) => {
                &&& words(stdout@).len() >= 2
                &&& v.volume@ == words(stdout@)[1]
                &&& v.muted == has_substring(stdout@, "[MUTED]"@)
            },
            None => words(stdout@).len() < 2,
        },
{
    match nth_word(stdout, 1) {
        Some(volume) => {
            let muted = contains_str(stdout, "[MUTED]");
            Some(VolumeReading { volume, muted })
        },
        None => None,
    }
}

/// Whether a `pactl subscribe` line reports a change that may affect the
/// default sink's volume: sink events (volume, mute) and server events
/// (default sink switches).
pub fn is_volume_event(line: &str) -> (r: bool)
    ensures
        r == (has_substring(line@, "on sink"@) || has_substring(line@, "on server"@)),
{
    contains_str(line, "on sink") || contains_str(line, "on server")
}

/// The `wpctl set-volume` step for one scroll notch: up raises the volume
/// by 5%, down lowers it.
pub fn scroll_step(upward: bool) -> (r: &'static str)
    ensures
        r@ == (if upward {
            "5%+"@
        } else {
            "5%-"@
        }),
{
    if upward {
        "5%+"
    } else {
        "5%-"
    }
}

/// Order of the levels, quietest first.
pub open spec fn level_rank(level: VolumeLevel) -> int {
    match level {
        VolumeLevel::Muted => 0,
        VolumeLevel::Low => 1,
        VolumeLevel::Medium => 2,
        VolumeLevel::High => 3,
    }
}

/// A muted sink is shown muted at any volume, and so is an unmuted sink at
/// zero; an unmuted sink at a positive volume is never shown muted, and a
/// louder volume is never shown at a lower level.
pub proof fn lemma_volume_levels(p: int, q: int)
    ensures
        volume_level_spec(p, true) == VolumeLevel::Muted,
        volume_level_spec(0, false) == VolumeLevel::Muted,
        p > 0 ==> volume_level_spec(p, false) != VolumeLevel::Muted,
        0 < p <= q ==> level_rank(volume_level_spec(p, false)) <= level_rank(
            volume_level_spec(q, false),
        ),
        p >= 67 ==> volume_level_spec(p, false) == VolumeLevel::High,
        0 < p < 34 ==> volume_level_spec(p, false) == VolumeLevel::Low,
{
}

} // verus!

