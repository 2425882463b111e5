//! Tables of the settings the instrument offers, and picking a setting in them.
use vstd::prelude::*;
use crate::data::head::{ChannelInfo, DataHeader};
use crate::data::units::{ProbeAttenuation, Time, Voltage};
use crate::scaled_number::{same_value, value_eq, Decimal};

verus! {

/// Samples per grid division.
pub const GRID_DIV_SIZE_INT: i64 = 25;

/// Grid divisions across the screen.
pub const GRID_DIV_COUNT_HORIZONTAL: i64 = 12;

/// Samples across the screen.
pub const SAMPLES: usize = 300;

/// Time per division the instrument offers, shortest first.
pub open spec fn spec_time_bases() -> Seq<Decimal> {
    seq![
        Decimal { mantissa: 2i64, exponent: -9i32 },
        Decimal { mantissa: 5i64, exponent: -9i32 },
        Decimal { mantissa: 10i64, exponent: -9i32 },
        Decimal { mantissa: 20i64, exponent: -9i32 },
        Decimal { mantissa: 50i64, exponent: -9i32 },
        Decimal { mantissa: 100i64, exponent: -9i32 },
        Decimal { mantissa: 200i64, exponent: -9i32 },
        Decimal { mantissa: 500i64, exponent: -9i32 },
        Decimal { mantissa: 1i64, exponent: -6i32 },
        Decimal { mantissa: 2i64, exponent: -6i32 },
        Decimal { mantissa: 5i64, exponent: -6i32 },
        Decimal { mantissa: 10i64, exponent: -6i32 },
        Decimal { mantissa: 20i64, exponent: -6i32 },
        Decimal { mantissa: 50i64, exponent: -6i32 },
        Decimal { mantissa: 100i64, exponent: -6i32 },
        Decimal { mantissa: 200i64, exponent: -6i32 },
        Decimal { mantissa: 500i64, exponent: -6i32 },
        Decimal { mantissa: 1i64, exponent: -3i32 },
        Decimal { mantissa: 2i64, exponent: -3i32 },
        Decimal { mantissa: 5i64, exponent: -3i32 },
        Decimal { mantissa: 10i64, exponent: -3i32 },
        Decimal { mantissa: 20i64, exponent: -3i32 },
        Decimal { mantissa: 50i64, exponent: -3i32 },
        Decimal { mantissa: 100i64, exponent: -3i32 },
        Decimal { mantissa: 200i64, exponent: -3i32 },
        Decimal { mantissa: 500i64, exponent: -3i32 },
        Decimal { mantissa: 1i64, exponent: 0i32 },
        Decimal { mantissa: 2i64, exponent: 0i32 },
        Decimal { mantissa: 5i64, exponent: 0i32 },
        Decimal { mantissa: 10i64, exponent: 0i32 },
        Decimal { mantissa: 20i64, exponent: 0i32 },
        Decimal { mantissa: 50i64, exponent: 0i32 },
        Decimal { mantissa: 100i64, exponent: 0i32 },
        Decimal { mantissa: 200i64, exponent: 0i32 },
        Decimal { mantissa: 500i64, exponent: 0i32 },
        Decimal { mantissa: 1000i64, exponent: 0i32 },
    ]
}

/// Volts per division the instrument offers at 1X attenuation, smallest first.
pub open spec fn spec_vertical_scales() -> Seq<Decimal> {
    seq![
        Decimal { mantissa: 1i64, exponent: -2i32 },
        Decimal { mantissa: 2i64, exponent: -2i32 },
        Decimal { mantissa: 5i64, exponent: -2i32 },
        Decimal { mantissa: 1i64, exponent: -1i32 },
        Decimal { mantissa: 2i64, exponent: -1i32 },
        Decimal { mantissa: 5i64, exponent: -1i32 },
        Decimal { mantissa: 1i64, exponent: 0i32 },
        Decimal { mantissa: 2i64, exponent: 0i32 },
        Decimal { mantissa: 5i64, exponent: 0i32 },
        Decimal { mantissa: 10i64, exponent: 0i32 },
    ]
}

pub fn time_bases() -> (r: Vec<Time>)
    ensures
        r@.len() == spec_time_bases().len(),
        forall|i: int| 0 <= i < r@.len() ==> (#[trigger] r@[i]).0 == spec_time_bases()[i],
{
    let mut v: Vec<Time> = Vec::new();
    v.push(Time(Decimal { mantissa: 2, exponent: -9 }));
    v.push(Time(Decimal { mantissa: 5, exponent: -9 }));
    v.push(Time(Decimal { mantissa: 10, exponent: -9 }));
    v.push(Time(Decimal { mantissa: 20, exponent: -9 }));
    v.push(Time(Decimal { mantissa: 50, exponent: -9 }));
    v.push(Time(Decimal { mantissa: 100, exponent: -9 }));
    v.push(Time(Decimal { mantissa: 200, exponent: -9 }));
    v.push(Time(Decimal { mantissa: 500, exponent: -9 }));
    v.push(Time(Decimal { mantissa: 1, exponent: -6 }));
    v.push(Time(Decimal { mantissa: 2, exponent: -6 }));
    v.push(Time(Decimal { mantissa: 5, exponent: -6 }));
    v.push(Time(Decimal { mantissa: 10, exponent: -6 }));
    v.push(Time(Decimal { mantissa: 20, exponent: -6 }));
    v.push(Time(Decimal { mantissa: 50, exponent: -6 }));
    v.push(Time(Decimal { mantissa: 100, exponent: -6 }));
    v.push(Time(Decimal { mantissa: 200, exponent: -6 }));
    v.push(Time(Decimal { mantissa: 500, exponent: -6 }));
    v.push(Time(Decimal { mantissa: 1, exponent: -3 }));
    v.push(Time(Decimal { mantissa: 2, exponent: -3 }));
    v.push(Time(Decimal { mantissa: 5, exponent: -3 }));
    v.push(Time(Decimal { mantissa: 10, exponent: -3 }));
    v.push(Time(Decimal { mantissa: 20, exponent: -3 }));
    v.push(Time(Decimal { mantissa: 50, exponent: -3 }));
    v.push(Time(Decimal { mantissa: 100, exponent: -3 }));
    v.push(Time(Decimal { mantissa: 200, exponent: -3 }));
    v.push(Time(Decimal { mantissa: 500, exponent: -3 }));
    v.push(Time(Decimal { mantissa: 1, exponent: 0 }));
    v.push(Time(Decimal { mantissa: 2, exponent: 0 }));
    v.push(Time(Decimal { mantissa: 5, exponent: 0 }));
    v.push(Time(Decimal { mantissa: 10, exponent: 0 }));
    v.push(Time(Decimal { mantissa: 20, exponent: 0 }));
    v.push(Time(Decimal { mantissa: 50, exponent: 0 }));
    v.push(Time(Decimal { mantissa: 100, exponent: 0 }));
    v.push(Time(Decimal { mantissa: 200, exponent: 0 }));
    v.push(Time(Decimal { mantissa: 500, exponent: 0 }));
    v.push(Time(Decimal { mantissa: 1000, exponent: 0 }));
    assert(v@.len() == spec_time_bases().len());
    v
}

pub fn vertical_scales() -> (r: Vec<Voltage>)
    ensures
        r@.len() == spec_vertical_scales().len(),
        forall|i: int| 0 <= i < r@.len() ==> (#[trigger] r@[i]).0 == spec_vertical_scales()[i],
{
    let mut v: Vec<Voltage> = Vec::new();
    v.push(Voltage(Decimal { mantissa: 1, exponent: -2 }));
    v.push(Voltage(Decimal { mantissa: 2, exponent: -2 }));
    v.push(Voltage(Decimal { mantissa: 5, exponent: -2 }));
    v.push(Voltage(Decimal { mantissa: 1, exponent: -1 }));
    v.push(Voltage(Decimal { mantissa: 2, exponent: -1 }));
    v.push(Voltage(Decimal { mantissa: 5, exponent: -1 }));
    v.push(Voltage(Decimal { mantissa: 1, exponent: 0 }));
    v.push(Voltage(Decimal { mantissa: 2, exponent: 0 }));
    v.push(Voltage(Decimal { mantissa: 5, exponent: 0 }));
    v.push(Voltage(Decimal { mantissa: 10, exponent: 0 }));
    v
}

/// Probe attenuations the instrument offers.
pub fn probe_attenuations() -> (r: Vec<ProbeAttenuation>)
    ensures
        r@.len() == 5,
        r@[0].0 == 1 && r@[1].0 == 10 && r@[2].0 == 100 && r@[3].0 == 1000 && r@[4].0 == 10000,
{
    let mut v: Vec<ProbeAttenuation> = Vec::new();
    v.push(ProbeAttenuation(1));
    v.push(ProbeAttenuation(10));
    v.push(ProbeAttenuation(100));
    v.push(ProbeAttenuation(1000));
    v.push(ProbeAttenuation(10000));
    v
}

/// Index of the first entry of `t` equal in value to `x`, or `t.len()`.
pub open spec fn find_value(t: Seq<Decimal>, x: Decimal) -> nat
    decreases t.len(),
{
    if t.len() == 0 {
        0
    } else if same_value(t[0], x) {
        0
    } else {
        1 + find_value(t.skip(1), x)
    }
}

proof fn lemma_find_value(t: Seq<Decimal>, x: Decimal, i: int)
    requires
        0 <= i <= t.len(),
        forall|j: int| 0 <= j < i ==> !same_value(#[trigger] t[j], x),
        i == t.len() || same_value(t[i], x),
    ensures
        find_value(t, x) == i,
    decreases i,
{
    if i > 0 {
        let s = t.skip(1);
        assert forall|j: int| 0 <= j < i - 1 implies !same_value(#[trigger] s[j], x) by {
            assert(s[j] == t[j + 1]);
        }
        if i < t.len() {
            assert(s[i - 1] == t[i]);
        }
        lemma_find_value(s, x, i - 1);
    }
}

/// The entry of `t` that `x` selects (the first equal in value, else the
/// first entry) with its neighbours.
pub open spec fn spec_selection(t: Seq<Decimal>, x: Decimal) -> (int, Decimal, Option<Decimal>, Option<Decimal>) {
    let f = find_value(t, x);
    let i: int = if f < t.len() {
        f as int
    } else {
        0
    };
    (i, t[i], if i > 0 {
        Some(t[i - 1])
    } else {
        None
    }, if i + 1 < t.len() {
        Some(t[i + 1])
    } else {
        None
    })
}

fn select(t: &Vec<Decimal>, x: Decimal) -> (r: (usize, Decimal, Option<Decimal>, Option<Decimal>))
    requires
        x.wf(),
        t@.len() > 0,
        forall|j: int| 0 <= j < t@.len() ==> (#[trigger] t@[j]).wf(),
    ensures
        r.0 == spec_selection(t@, x).0,
        r.1 == spec_selection(t@, x).1,
        r.2 == spec_selection(t@, x).2,
        r.3 == spec_selection(t@, x).3,
{
    let mut i: usize = 0;
    while i < t.len() && !value_eq(t[i], x)
        invariant
            i <= t@.len(),
            x.wf(),
            forall|j: int| 0 <= j < t@.len() ==> (#[trigger] t@[j]).wf(),
            forall|j: int| 0 <= j < i ==> !same_value(#[trigger] t@[j], x),
        decreases t@.len() - i,
    {
        i = i + 1;
    }
    proof {
        lemma_find_value(t@, x, i as int);
    }
    let k = if i < t.len() {
        i
    } else {
        0
    };
    let prev = if k > 0 {
        Some(t[k - 1])
    } else {
        None
    };
    let next = if k + 1 < t.len() {
        Some(t[k + 1])
    } else {
        None
    };
    (k, t[k], prev, next)
}

/// The time base a header is set to, with the shorter and the longer one
/// (the first time base when the header's is not in the table).
pub fn selected_time_base(head: &DataHeader) -> (r: (usize, Time, Option<Time>, Option<Time>))
    requires
        head.time_base.scale.0.wf(),
    ensures
        ({
            let s = spec_selection(spec_time_bases(), head.time_base.scale.0);
            &&& r.0 == s.0
            &&& r.1.0 == s.1
            &&& r.2 == (match s.2 {
                Some(d) => Some(Time(d)),
                None => None,
            })
            &&& r.3 == (match s.3 {
                Some(d) => Some(Time(d)),
                None => None,
            })
        }),
{
    let bases = time_bases();
    let mut t: Vec<Decimal> = Vec::new();
    let mut i: usize = 0;
    while i < bases.len()
        invariant
            i <= bases@.len(),
            bases@.len() == spec_time_bases().len(),
            forall|j: int| 0 <= j < bases@.len() ==> (#[trigger] bases@[j]).0 == spec_time_bases()[j],
            t@ == spec_time_bases().take(i as int),
        decreases bases@.len() - i,
    {
        t.push(bases[i].0);
        i = i + 1;
        assert(t@ =~= spec_time_bases().take(i as int));
    }
    assert(t@ =~= spec_time_bases());
    let (k, d, p, n) = select(&t, head.time_base.scale.0);
    let p = match p {
        Some(d) => Some(Time(d)),
        None => None,
    };
    let n = match n {
        Some(d) => Some(Time(d)),
        None => None,
    };
    (k, Time(d), p, n)
}

/// The vertical scale a channel is set to, with the smaller and the larger
/// one (the first scale when the channel's is not in the table).
pub fn selected_voltage(channel_info: &ChannelInfo) -> (r: (usize, Voltage, Option<Voltage>, Option<Voltage>))
    requires
        channel_info.scale.0.wf(),
    ensures
        ({
            let s = spec_selection(spec_vertical_scales(), channel_info.scale.0);
            &&& r.0 == s.0
            &&& r.1.0 == s.1
            &&& r.2 == (match s.2 {
                Some(d) => Some(Voltage(d)),
                None => None,
            })
            &&& r.3 == (match s.3 {
                Some(d) => Some(Voltage(d)),
                None => None,
            })
        }),
{
    let scales = vertical_scales();
    let mut t: Vec<Decimal> = Vec::new();
    let mut i: usize = 0;
    while i < scales.len()
        invariant
            i <= scales@.len(),
            scales@.len() == spec_vertical_scales().len(),
            forall|j: int| 0 <= j < scales@.len() ==> (#[trigger] scales@[j]).0 == spec_vertical_scales()[j],
            t@ == spec_vertical_scales().take(i as int),
        decreases scales@.len() - i,
    {
        t.push(scales[i].0);
        i = i + 1;
        assert(t@ =~= spec_vertical_scales().take(i as int));
    }
    assert(t@ =~= spec_vertical_scales());
    let (k, d, p, n) = select(&t, channel_info.scale.0);
    let p = match p {
        Some(d) => Some(Voltage(d)),
        None => None,
    };
    let n = match n {
        Some(d) => Some(Voltage(d)),
        None => None,
    };
    (k, Voltage(d), p, n)
}

} // verus!
