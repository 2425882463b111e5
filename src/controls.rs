//! Stepping the offsets and the trigger level from key presses.
use vstd::prelude::*;
use crate::consts::GRID_DIV_SIZE_INT;
use crate::data::head::{grid_divs, spec_grid_divs, ChannelInfo, DataHeader, spec_scale_by};
use crate::data::units::Voltage;
use crate::scaled_number::{checked_add, spec_add, Decimal, MAX_EXPONENT};

verus! {

/// The modifier keys held during a step.
#[derive(Debug, Clone, Copy, PartialEq, Eq, Structural)]
pub struct Modifiers {
    pub command: bool,
    pub shift: bool,
}

/// Samples an offset moves by: one with the command key, a division with
/// shift, a fifth of a division otherwise; negative when stepping down.
pub open spec fn spec_grid_offset_change(mods: Modifiers, positive: bool) -> int {
    let magnitude = if mods.command {
        1
    } else if mods.shift {
        GRID_DIV_SIZE_INT as int
    } else {
        GRID_DIV_SIZE_INT / 5
    };
    if positive {
        magnitude
    } else {
        -magnitude
    }
}

pub fn grid_offset_change(mods: Modifiers, positive: bool) -> (r: i64)
    ensures
        r == spec_grid_offset_change(mods, positive),
{
    let magnitude: i64 = if mods.command {
        1
    } else if mods.shift {
        GRID_DIV_SIZE_INT
    } else {
        GRID_DIV_SIZE_INT / 5
    };
    if positive {
        magnitude
    } else {
        -magnitude
    }
}

fn stepped_divs(offset: i64, mods: Modifiers, positive: bool) -> (r: Option<Decimal>)
    ensures
        r == (if i64::MIN <= offset + spec_grid_offset_change(mods, positive) <= i64::MAX {
            spec_grid_divs(offset + spec_grid_offset_change(mods, positive))
        } else {
            None
        }),
{
    let change = grid_offset_change(mods, positive);
    match offset.checked_add(change) {
        Some(n) => grid_divs(n),
        None => None,
    }
}

/// A channel's offset after one step, in grid divisions.
pub fn calc_new_vertical_offset(channel_info: &ChannelInfo, mods: Modifiers, positive: bool) -> (r: Option<Decimal>)
    ensures
        r == (if i64::MIN <= channel_info.offset + spec_grid_offset_change(mods, positive) <= i64::MAX {
            spec_grid_divs(channel_info.offset + spec_grid_offset_change(mods, positive))
        } else {
            None
        }),
{
    stepped_divs(channel_info.offset, mods, positive)
}

/// The horizontal offset after one step, in grid divisions.
pub fn calc_new_horizontal_offset(head: &DataHeader, mods: Modifiers, positive: bool) -> (r: Option<Decimal>)
    ensures
        r == (if i64::MIN <= head.time_base.h_offset + spec_grid_offset_change(mods, positive) <= i64::MAX {
            spec_grid_divs(head.time_base.h_offset + spec_grid_offset_change(mods, positive))
        } else {
            None
        }),
{
    stepped_divs(head.time_base.h_offset, mods, positive)
}

/// A trigger level step: one sample's worth of volts, five with shift;
/// negative when stepping down.
pub open spec fn spec_trigger_level_change(mods: Modifiers, positive: bool, per_unit: Decimal) -> Option<Decimal> {
    let k: int = if mods.shift {
        5
    } else {
        1
    };
    match spec_scale_by(per_unit, k) {
        Some(d) => Some(if positive {
            d
        } else {
            Decimal { mantissa: (-d.mantissa) as i64, exponent: d.exponent }
        }),
        None => None,
    }
}

pub fn trigger_level_change(mods: Modifiers, positive: bool, per_unit: Decimal) -> (r: Option<Decimal>)
    requires
        per_unit.wf(),
    ensures
        r == spec_trigger_level_change(mods, positive, per_unit),
        r matches Some(d) ==> d.wf(),
{
    let k: u32 = if mods.shift {
        5
    } else {
        1
    };
    match crate::data::head::scale_by(per_unit, k) {
        Some(d) => Some(if positive {
            d
        } else {
            Decimal { mantissa: -d.mantissa, exponent: d.exponent }
        }),
        None => None,
    }
}

/// The trigger level after one step, by the trigger channel's volts per
/// sample; `None` when a value does not fit.
pub open spec fn spec_new_trigger_level(head: DataHeader, mods: Modifiers, positive: bool) -> Option<Decimal> {
    match head.channels[head.trigger.items.channel.spec_index()].spec_scale_per_unit() {
        None => None,
        Some(per_unit) => match spec_trigger_level_change(mods, positive, per_unit) {
            None => None,
            Some(step) => spec_add(head.trigger.items.level.0, step),
        },
    }
}

pub fn calc_new_trigger_level(head: &DataHeader, mods: Modifiers, positive: bool) -> (r: Option<Voltage>)
    requires
        head.trigger.items.level.0.wf(),
        head.channels[0].scale.0.wf(),
        head.channels[1].scale.0.wf(),
    ensures
        r == (match spec_new_trigger_level(*head, mods, positive) {
            Some(d) => Some(Voltage(d)),
            None => None,
        }),
{
    let ch = head.channel(head.trigger.items.channel);
    let per_unit = match ch.scale_per_unit() {
        Some(p) => p,
        None => {
            return None;
        },
    };
    match trigger_level_change(mods, positive, per_unit) {
        Some(step) => match checked_add(head.trigger.items.level.0, step) {
            Some(v) => Some(Voltage(v)),
            None => None,
        },
        None => None,
    }
}

} // verus!
