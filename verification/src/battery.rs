//! The battery widget: icon, label and tooltip for a snapshot of UPower's
//! display device.
use vstd::prelude::*;

use crate::text::{pad2, push_char, push_decimal, push_pad2, push_signed, signed_decimal, trunc_div, trunc_rem};

verus! {

/// UPower device state: charging.
pub const STATE_CHARGING: u32 = 1;

/// UPower device state: discharging.
pub const STATE_DISCHARGING: u32 = 2;

/// UPower device state: fully charged.
pub const STATE_FULLY_CHARGED: u32 = 4;

/// The properties of UPower's display device that the widget reads, with
/// the percentage already rounded to a whole number.
pub struct BatterySnapshot {
    pub present: bool,
    pub percent: i32,
    pub state: u32,
    pub icon_name: String,
    /// Seconds until empty, 0 when unknown.
    pub time_to_empty: i64,
    /// Seconds until full, 0 when unknown.
    pub time_to_full: i64,
}

/// Everything the battery widget shows while a battery is present.
pub struct BatteryView {
    pub icon_name: String,
    /// `<percent>%`
    pub label: String,
    pub tooltip: String,
}

/// A duration in seconds as `<h>h<mm>m` when it is an hour or more, else
/// as `<m>m`; hours and minutes are Rust's truncating `/` and `%`.
pub open spec fn duration_spec(seconds: int) -> Seq<char> {
    let hours = trunc_div(seconds, 3600);
    let minutes = trunc_div(trunc_rem(seconds, 3600), 60);
    if hours > 0 {
        signed_decimal(hours) + seq!['h'] + pad2(minutes as nat) + seq!['m']
    } else {
        signed_decimal(minutes) + seq!['m']
    }
}

/// Formats a duration given in seconds, e.g. `1h05m` or `42m`.
pub fn duration(seconds: i64) -> (r: String)
    ensures
        r@ == duration_spec(seconds as int),
{
    let mut out = String::new();
    if seconds >= 3600 {
        let s = seconds as u64;
        let hours = s / 3600;
        let minutes = (s % 3600) / 60;
        push_decimal(&mut out, hours);
        push_char(&mut out, 'h');
        push_pad2(&mut out, minutes);
        push_char(&mut out, 'm');
        assert(trunc_div(seconds as int, 3600) == hours);
        assert(trunc_rem(seconds as int, 3600) == s % 3600);
        assert(out@ =~= duration_spec(seconds as int));
    } else if seconds >= 0 {
        let minutes = (seconds as u64) / 60;
        push_decimal(&mut out, minutes);
        push_char(&mut out, 'm');
        assert(trunc_div(seconds as int, 3600) == 0);
        assert(trunc_rem(seconds as int, 3600) == seconds);
        assert(out@ =~= duration_spec(seconds as int));
    } else {
        let magnitude: u64 = (0i128 - seconds as i128) as u64;
        let rest: u64 = magnitude % 3600;
        let minutes: i64 = 0i64 - (rest / 60) as i64;
        push_signed(&mut out, minutes);
        push_char(&mut out, 'm');
        proof {
            let q = magnitude as int / 3600;
            assert(magnitude as int == 3600 * q + rest as int);
            assert(trunc_div(seconds as int, 3600) == -q);
            assert(trunc_rem(seconds as int, 3600) == -(rest as int));
            if rest == 0 {
                assert(trunc_div(trunc_rem(seconds as int, 3600), 60) == 0);
            } else {
                assert(trunc_div(trunc_rem(seconds as int, 3600), 60) == -((rest / 60) as int));
            }
        }
        assert(out@ =~= duration_spec(seconds as int));
    }
    out
}

/// Tooltip text: `Battery: <percent>%`, with what the state says in
/// parentheses: charging (and the time until full when known),
/// the time remaining when discharging and known, or full.
pub open spec fn battery_tooltip_spec(percent: int, state: u32, time_to_empty: int, time_to_full: int) -> Seq<char> {
    let head = "Battery: "@ + signed_decimal(percent) + "%"@;
    if state == STATE_CHARGING && time_to_full > 0 {
        head + " (charging, "@ + duration_spec(time_to_full) + " until full)"@
    } else if state == STATE_CHARGING {
        head + " (charging)"@
    } else if state == STATE_DISCHARGING && time_to_empty > 0 {
        head + " ("@ + duration_spec(time_to_empty) + " remaining)"@
    } else if state == STATE_FULLY_CHARGED {
        head + " (full)"@
    } else {
        head
    }
}

/// The battery tooltip.
pub fn battery_tooltip(percent: i32, state: u32, time_to_empty: i64, time_to_full: i64) -> (r: String)
    ensures
        r@ == battery_tooltip_spec(percent as int, state, time_to_empty as int, time_to_full as int),
{
    let mut t = String::from_str("Battery: ");
    push_signed(&mut t, percent as i64);
    t.append("%");
    if state == STATE_CHARGING && time_to_full > 0 {
        t.append(" (charging, ");
        let d = duration(time_to_full);
        t.append(d.as_str());
        t.append(" until full)");
    } else if state == STATE_CHARGING {
        t.append(" (charging)");
    } else if state == STATE_DISCHARGING && time_to_empty > 0 {
        t.append(" (");
        let d = duration(time_to_empty);
        t.append(d.as_str());
        t.append(" remaining)");
    } else if state == STATE_FULLY_CHARGED {
        t.append(" (full)");
    }
    assert(t@ =~= battery_tooltip_spec(percent as int, state, time_to_empty as int, time_to_full as int));
    t
}

/// The icon shown for an icon name reported by UPower: that name, or
/// `battery-symbolic` when it is empty.
pub open spec fn battery_icon_spec(icon_name: Seq<char>) -> Seq<char> {
    if icon_name.len() == 0 {
        "battery-symbolic"@
    } else {
        icon_name
    }
}

/// The icon name the battery widget shows.
pub fn battery_icon(icon_name: &str) -> (r: String)
    ensures
        r@ == battery_icon_spec(icon_name@),
{
    if icon_name.is_empty() {
        String::from_str("battery-symbolic")
    } else {
        String::from_str(icon_name)
    }
}

/// What the battery widget shows: nothing (the widget is hidden) when no
/// battery is present, else its icon, `<percent>%` and the tooltip.
pub fn battery_view(snapshot: &BatterySnapshot) -> (r: Option<BatteryView>)
    ensures
        match r {
            Some(v) => {
                &&& snapshot.present
                &&& v.icon_name@ == battery_icon_spec(snapshot.icon_name@)
                &&& v.label@ == signed_decimal(snapshot.percent as int) + seq!['%']
                &&& v.tooltip@ == battery_tooltip_spec(
                    snapshot.percent as int,
                    snapshot.state,
                    snapshot.time_to_empty as int,
                    snapshot.time_to_full as int,
                )
            },
            None => !snapshot.present,
        },
{
    if !snapshot.present {
        return None;
    }
    let mut label = String::new();
    push_signed(&mut label, snapshot.percent as i64);
    push_char(&mut label, '%');
    Some(
        BatteryView {
            icon_name: battery_icon(snapshot.icon_name.as_str()),
            label,
            tooltip: battery_tooltip(
                snapshot.percent,
                snapshot.state,
                snapshot.time_to_empty,
                snapshot.time_to_full,
            ),
        },
    )
}

} // verus!
