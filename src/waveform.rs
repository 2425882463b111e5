//! Waveform buffers, held in a fixed-capacity `ArrayVec`.
use vstd::prelude::*;
use arrayvec::ArrayVec;
use crate::consts::SAMPLES;

verus! {

#[verifier::external_type_specification]
#[verifier::external_body]
#[verifier::reject_recursive_types(T)]
pub struct ExArrayVec<T, const CAP: usize>(ArrayVec<T, CAP>);

/// Bytes a waveform buffer holds.
pub const WAVEFORM_CAPACITY: usize = 1024;

/// The bytes a waveform buffer holds, in order.
pub uninterp spec fn waveform_bytes(w: ArrayVec<u8, 1024>) -> Seq<u8>;

/// Relies on `ArrayVec::new`: a new buffer is empty.
#[verifier::external_body]
fn waveform_new() -> (r: ArrayVec<u8, 1024>)
    ensures
        waveform_bytes(r) == Seq::<u8>::empty(),
{
    ArrayVec::new()
}

/// Relies on `ArrayVec::push`: the byte goes at the end; it panics only on a
/// full buffer, which `requires` leaves out.
#[verifier::external_body]
fn waveform_push(w: &mut ArrayVec<u8, 1024>, b: u8)
    requires
        waveform_bytes(*old(w)).len() < 1024,
    ensures
        waveform_bytes(*final(w)) == waveform_bytes(*old(w)).push(b),
{
    w.push(b)
}

/// A buffer holding `b[lo..hi]`.
pub fn waveform_from(b: &[u8], lo: usize, hi: usize) -> (r: ArrayVec<u8, 1024>)
    requires
        lo <= hi <= b@.len(),
        hi - lo <= 1024,
    ensures
        waveform_bytes(r) == b@.subrange(lo as int, hi as int),
{
    let mut w = waveform_new();
    let mut i = lo;
    while i < hi
        invariant
            lo <= i <= hi <= b@.len(),
            hi - lo <= 1024,
            waveform_bytes(w) == b@.subrange(lo as int, i as int),
        decreases hi - i,
    {
        waveform_push(&mut w, b[i]);
        i = i + 1;
        assert(b@.subrange(lo as int, i as int) == b@.subrange(lo as int, i - 1).push(b@[i - 1]));
    }
    w
}

/// A sample byte read as a signed value.
pub open spec fn signed(b: u8) -> int {
    if b < 128 {
        b as int
    } else {
        b - 256
    }
}

/// The samples of a waveform, in halves of a unit: a buffer of exactly
/// [`SAMPLES`] bytes has one sample per byte; any other is read as adjacent
/// pairs averaged into one sample each (an odd last byte is dropped).
pub open spec fn spec_samples(data: Seq<u8>) -> Seq<int> {
    if data.len() == SAMPLES {
        Seq::new(data.len(), |i: int| 2 * signed(data[i]))
    } else {
        Seq::new(data.len() / 2, |i: int| signed(data[2 * i]) + signed(data[2 * i + 1]))
    }
}

fn signed_exec(b: u8) -> (r: i16)
    ensures
        r == signed(b),
{
    if b < 128 {
        b as i16
    } else {
        b as i16 - 256
    }
}

/// The samples of a waveform as [`spec_samples`] gives them.
pub fn samples(data: &[u8]) -> (r: Vec<i16>)
    ensures
        r@.len() == spec_samples(data@).len(),
        forall|i: int| 0 <= i < r@.len() ==> r@[i] == #[trigger] spec_samples(data@)[i],
{
    let mut out: Vec<i16> = Vec::new();
    let n = data.len();
    if n == SAMPLES {
        let mut i: usize = 0;
        while i < n
            invariant
                n == data@.len() == SAMPLES,
                i <= n,
                out@.len() == i,
                forall|j: int| 0 <= j < i ==> out@[j] == #[trigger] spec_samples(data@)[j],
            decreases n - i,
        {
            out.push(2 * signed_exec(data[i]));
            i = i + 1;
        }
    } else {
        let m = n / 2;
        let mut i: usize = 0;
        while i < m
            invariant
                n == data@.len(),
                n != SAMPLES,
                m == n / 2,
                i <= m,
                out@.len() == i,
                forall|j: int| 0 <= j < i ==> out@[j] == #[trigger] spec_samples(data@)[j],
            decreases m - i,
        {
            out.push(signed_exec(data[2 * i]) + signed_exec(data[2 * i + 1]));
            i = i + 1;
        }
    }
    out
}

} // verus!
