//! Descriptor records and the colour derived from a fingerprint.
//!
//! A fingerprint is a byte sequence whose length is divisible by 3; each
//! consecutive triplet is one (R, G, B) sample. The derived colour of a
//! fingerprint of `3 * t` bytes is, per channel, the sum of that channel's
//! bytes divided by `255 * t`, a rational number in [0, 1]. The engine keeps
//! the colour exactly as the integer numerator (the channel sum) and the
//! triplet count, instead of a floating-point quotient.

use vstd::prelude::*;

verus! {

/// Largest triplet count a fingerprint may have. This machine limit keeps
/// every intermediate of the exact radius comparison inside `u128`.
pub const MAX_TRIPLETS: u64 = 16777216;

/// Largest fingerprint byte length: `3 * MAX_TRIPLETS`.
pub const MAX_FINGERPRINT_BYTES: usize = 50331648;

/// Lifecycle status of a record. Unrecognized status text is mapped to
/// `Pending` by the collaborator that parses the status vocabulary.
#[derive(Clone, Copy, PartialEq, Eq, Structural, Debug)]
pub enum Status {
    Filed,
    Deleted,
    Discarded,
    Pending,
}

/// Canonical lower-case text of each status.
pub open spec fn spec_status_str(s: Status) -> Seq<char> {
    match s {
        Status::Filed => "filed"@,
        Status::Deleted => "deleted"@,
        Status::Discarded => "discarded"@,
        Status::Pending => "pending"@,
    }
}

impl Status {
    /// The status as its canonical lower-case text.
    pub fn to_str(&self) -> (r: &'static str)
        ensures
            r@ == spec_status_str(*self),
    {
        match self {
            Status::Filed => "filed",
            Status::Deleted => "deleted",
            Status::Discarded => "discarded",
            Status::Pending => "pending",
        }
    }
}

/// The exact derived colour of a fingerprint: per-channel byte sums over
/// `triplets` RGB triplets. The real-valued channel is `r / (255 * triplets)`
/// (and likewise `g`, `b`); a fingerprint with no triplets has colour zero.
#[derive(Clone, Copy, PartialEq, Eq, Structural, Debug)]
pub struct ColorSum {
    pub r: u64,
    pub g: u64,
    pub b: u64,
    pub triplets: u64,
}

/// Sum of channel `ch` (0 = R, 1 = G, 2 = B) over the first `t` triplets
/// of `fp`.
pub open spec fn sum_channel(fp: Seq<u8>, ch: int, t: int) -> int
    decreases t,
{
    if t <= 0 {
        0
    } else {
        sum_channel(fp, ch, t - 1) + fp[3 * (t - 1) + ch]
    }
}

/// Bounds of a colour that `derive_color` can produce.
pub open spec fn color_wf(c: ColorSum) -> bool {
    &&& c.triplets <= MAX_TRIPLETS
    &&& c.r <= 255 * c.triplets
    &&& c.g <= 255 * c.triplets
    &&& c.b <= 255 * c.triplets
}

/// `c` is exactly the colour derived from fingerprint `fp`.
pub open spec fn is_derived_color(c: ColorSum, fp: Seq<u8>) -> bool {
    &&& c.triplets == fp.len() / 3
    &&& c.r == sum_channel(fp, 0, fp.len() as int / 3)
    &&& c.g == sum_channel(fp, 1, fp.len() as int / 3)
    &&& c.b == sum_channel(fp, 2, fp.len() as int / 3)
}

/// A channel sum over `t` triplets lies in `[0, 255 * t]`.
pub proof fn lemma_sum_channel_bound(fp: Seq<u8>, ch: int, t: int)
    requires
        0 <= ch < 3,
        0 <= t,
        3 * t <= fp.len(),
    ensures
        0 <= sum_channel(fp, ch, t) <= 255 * t,
    decreases t,
{
    if t > 0 {
        lemma_sum_channel_bound(fp, ch, t - 1);
    }
}

/// Derive the exact average colour of a fingerprint.
pub fn derive_color(fp: &Vec<u8>) -> (c: ColorSum)
    requires
        fp@.len() % 3 == 0,
        fp@.len() <= MAX_FINGERPRINT_BYTES,
    ensures
        is_derived_color(c, fp@),
        color_wf(c),
{
    let t: usize = fp.len() / 3;
    let mut r: u64 = 0;
    let mut g: u64 = 0;
    let mut b: u64 = 0;
    let mut i: usize = 0;
    while i < t
        invariant
            0 <= i <= t,
            t == fp@.len() / 3,
            3 * t == fp@.len(),
            t <= MAX_TRIPLETS,
            r == sum_channel(fp@, 0, i as int),
            g == sum_channel(fp@, 1, i as int),
            b == sum_channel(fp@, 2, i as int),
            r <= 255 * i,
            g <= 255 * i,
            b <= 255 * i,
        decreases t - i,
    {
        r = r + fp[3 * i] as u64;
        g = g + fp[3 * i + 1] as u64;
        b = b + fp[3 * i + 2] as u64;
        i = i + 1;
    }
    ColorSum { r, g, b, triplets: t as u64 }
}

/// Effective denominator of a colour with `t` triplets: an empty fingerprint
/// is given colour zero, so its denominator is taken as 1.
pub open spec fn mden(t: int) -> int {
    if t == 0 {
        1
    } else {
        t
    }
}

/// The channel value `s / (255 * t)` scaled to parts per thousand and
/// rounded to the nearest integer, halves away from zero:
/// `round(1000 * s / (255 * mden(t)))`.
pub open spec fn spec_permille(s: int, t: int) -> int {
    (2000 * s + 255 * mden(t)) / (510 * mden(t))
}

/// Render one colour channel for display: the [0, 1] channel value times
/// 1000, rounded to the nearest integer.
pub fn channel_permille(s: u64, t: u64) -> (r: u32)
    requires
        t <= MAX_TRIPLETS,
        s <= 255 * t,
    ensures
        r == spec_permille(s as int, t as int),
        r <= 1000,
{
    let m: u64 = if t == 0 {
        1
    } else {
        t
    };
    proof {
        assert(s <= 255 * m);
        assert(2000 * s + 255 * m <= 510255 * m) by (nonlinear_arith)
            requires
                s <= 255 * m,
        ;
        assert((2000 * s + 255 * m) / (510 * m) <= 1000) by (nonlinear_arith)
            requires
                m >= 1,
                2000 * s + 255 * m <= 510255 * m,
        ;
    }
    let num: u64 = 2000 * s + 255 * m;
    let den: u64 = 510 * m;
    (num / den) as u32
}

/// One photo descriptor: a dense key assigned in ingestion order, the
/// externally supplied identifier, display metadata, the fingerprint, its
/// derived colour, and the lifecycle status.
pub struct Record {
    pub key: usize,
    pub id: u64,
    pub width: u32,
    pub height: u32,
    pub size: u32,
    pub fingerprint: Vec<u8>,
    pub color: ColorSum,
    pub status: Status,
}

/// Internal consistency of one record as the corpus holds it: the
/// fingerprint is well-sized, the colour is exactly the derived one, and
/// discarded records are never materialized.
pub open spec fn record_wf(r: Record) -> bool {
    &&& r.fingerprint@.len() % 3 == 0
    &&& r.fingerprint@.len() <= MAX_FINGERPRINT_BYTES
    &&& is_derived_color(r.color, r.fingerprint@)
    &&& color_wf(r.color)
    &&& r.status != Status::Discarded
}

} // verus!
