//! WM_NORMAL_HINTS and the rule that fits a requested size to them.
use vstd::prelude::*;
use x11rb::properties::WmSizeHints;
use x11rb::x11_utils::TryParse;
use vstd::arithmetic::div_mod::{
    lemma_fundamental_div_mod,
    lemma_fundamental_div_mod_converse,
    lemma_mod_pos_bound,
};

verus! {

/// Smallest width given to a client that states no minimum.
pub const MIN_WIDTH: u16 = 256;

/// Smallest height given to a client that states no minimum.
pub const MIN_HEIGHT: u16 = 256;

/// Largest extent of a window in the core protocol.
pub const MAX_EXTENT: u16 = 65535;

/// A (width, height) pair as a client states it.
#[derive(PartialEq, Eq, Structural, Clone, Copy, Debug)]
pub struct Dimensions {
    pub width: i32,
    pub height: i32,
}

/// The sizing constraints of a client (its WM_NORMAL_HINTS); each field is
/// `None` where the client states nothing.
#[derive(PartialEq, Eq, Structural, Clone, Copy, Debug)]
pub struct SizeHints {
    /// Minimum (width, height).
    pub min_size: Option<Dimensions>,
    /// Maximum (width, height).
    pub max_size: Option<Dimensions>,
    /// Base (width, height) of the resize grid.
    pub base_size: Option<Dimensions>,
    /// Step (width, height) of the resize grid.
    pub size_increment: Option<Dimensions>,
}

/// The hints that a WM_SIZE_HINTS payload of 32-bit words (as bytes in the
/// server's order) encodes, or `None` where it is too short to parse.
pub uninterp spec fn parsed_size_hints(bytes: Seq<u8>) -> Option<SizeHints>;

/// Relies on x11rb's `WmSizeHints::try_parse`, which reads the ICCCM
/// WM_SIZE_HINTS layout: the result depends on the bytes alone.
#[verifier::external_body]
fn parse_size_hints(bytes: &[u8]) -> (r: Option<SizeHints>)
    ensures
        r == parsed_size_hints(bytes@),
{
    match WmSizeHints::try_parse(bytes) {
        Ok((h, _)) => Some(SizeHints {
            min_size: h.min_size.map(|p| Dimensions { width: p.0, height: p.1 }),
            max_size: h.max_size.map(|p| Dimensions { width: p.0, height: p.1 }),
            base_size: h.base_size.map(|p| Dimensions { width: p.0, height: p.1 }),
            size_increment: h.size_increment.map(|p| Dimensions { width: p.0, height: p.1 }),
        }),
        Err(_) => None,
    }
}

/// The hints that a client has: what its property parsed to, or no
/// constraints where the property is absent or malformed.
pub fn hints_or_default(parsed: Option<SizeHints>) -> (r: SizeHints)
    ensures
        r == match parsed {
            Some(h) => h,
            None => SizeHints { min_size: None, max_size: None, base_size: None, size_increment: None },
        },
{
    match parsed {
        Some(h) => h,
        None => SizeHints::new(),
    }
}

/// Read a client's WM_NORMAL_HINTS from the property payload (`None` when
/// the property is absent or not of 32-bit format). A malformed payload
/// gives no constraints rather than an error.
pub fn decode_normal_hints(payload: Option<&[u8]>) -> (r: SizeHints)
    ensures
        r == match payload {
            Some(b) => match parsed_size_hints(b@) {
                Some(h) => h,
                None => SizeHints { min_size: None, max_size: None, base_size: None, size_increment: None },
            },
            None => SizeHints { min_size: None, max_size: None, base_size: None, size_increment: None },
        },
{
    match payload {
        Some(b) => hints_or_default(parse_size_hints(b)),
        None => SizeHints::new(),
    }
}

/// The lower bound of one axis: the client's minimum, or the policy default,
/// kept within the extents the protocol allows.
pub open spec fn lower_bound(min: Option<i32>, default: int) -> int {
    match min {
        Some(m) => if m < 1 {
            1
        } else if m > MAX_EXTENT {
            MAX_EXTENT as int
        } else {
            m as int
        },
        None => default,
    }
}

/// The upper bound of one axis: the client's maximum, never below `lo`, or
/// the largest extent.
pub open spec fn upper_bound(max: Option<i32>, lo: int) -> int {
    match max {
        Some(m) => if m < lo {
            lo
        } else if m > MAX_EXTENT {
            MAX_EXTENT as int
        } else {
            m as int
        },
        None => MAX_EXTENT as int,
    }
}

pub open spec fn clamp_to(v: int, lo: int, hi: int) -> int {
    if v < lo {
        lo
    } else if v > hi {
        hi
    } else {
        v
    }
}

/// The largest `base + k * inc` (k a whole number) that does not exceed `c`,
/// where a grid is given and such a positive size exists; `c` otherwise.
pub open spec fn snap_down(c: int, base: Option<i32>, inc: Option<i32>) -> int {
    match (base, inc) {
        (Some(b), Some(i)) => if i >= 1 && b >= 0 && c >= b && b + ((c - b) / (i as int)) * i >= 1 {
            b + ((c - b) / (i as int)) * i
        } else {
            c
        },
        _ => c,
    }
}

/// Fit one axis: clamp to the bounds, then snap down to the grid.
pub open spec fn fit_axis(
    v: int,
    min: Option<i32>,
    max: Option<i32>,
    base: Option<i32>,
    inc: Option<i32>,
    default_min: int,
) -> int {
    let lo = lower_bound(min, default_min);
    snap_down(clamp_to(v, lo, upper_bound(max, lo)), base, inc)
}

pub open spec fn first(p: Option<Dimensions>) -> Option<i32> {
    match p {
        Some(q) => Some(q.width),
        None => None,
    }
}

pub open spec fn second(p: Option<Dimensions>) -> Option<i32> {
    match p {
        Some(q) => Some(q.height),
        None => None,
    }
}

impl SizeHints {
    /// No constraints stated.
    pub fn new() -> (r: SizeHints)
        ensures
            r.min_size is None,
            r.max_size is None,
            r.base_size is None,
            r.size_increment is None,
    {
        SizeHints { min_size: None, max_size: None, base_size: None, size_increment: None }
    }

    /// The width that a requested width `w` becomes.
    pub open spec fn fit_width_spec(self, w: int) -> int {
        fit_axis(
            w,
            first(self.min_size),
            first(self.max_size),
            first(self.base_size),
            first(self.size_increment),
            MIN_WIDTH as int,
        )
    }

    /// The height that a requested height `h` becomes.
    pub open spec fn fit_height_spec(self, h: int) -> int {
        fit_axis(
            h,
            second(self.min_size),
            second(self.max_size),
            second(self.base_size),
            second(self.size_increment),
            MIN_HEIGHT as int,
        )
    }

    /// Fit a requested size to these hints.
    pub fn fit_size(&self, width: i64, height: i64) -> (r: (u16, u16))
        ensures
            r.0 as int == self.fit_width_spec(width as int),
            r.1 as int == self.fit_height_spec(height as int),
    {
        let w = fit_one(
            width,
            pick(self.min_size, true),
            pick(self.max_size, true),
            pick(self.base_size, true),
            pick(self.size_increment, true),
            MIN_WIDTH,
        );
        let h = fit_one(
            height,
            pick(self.min_size, false),
            pick(self.max_size, false),
            pick(self.base_size, false),
            pick(self.size_increment, false),
            MIN_HEIGHT,
        );
        (w, h)
    }
}

fn pick(p: Option<Dimensions>, horizontal: bool) -> (r: Option<i32>)
    ensures
        r == if horizontal {
            first(p)
        } else {
            second(p)
        },
{
    match p {
        Some(q) => if horizontal {
            Some(q.width)
        } else {
            Some(q.height)
        },
        None => None,
    }
}

fn fit_one(
    v: i64,
    min: Option<i32>,
    max: Option<i32>,
    base: Option<i32>,
    inc: Option<i32>,
    default_min: u16,
) -> (r: u16)
    requires
        1 <= default_min,
    ensures
        r as int == fit_axis(v as int, min, max, base, inc, default_min as int),
{
    let lo: i64 = match min {
        Some(m) => if m < 1 {
            1
        } else if m > MAX_EXTENT as i32 {
            MAX_EXTENT as i64
        } else {
            m as i64
        },
        None => default_min as i64,
    };
    let hi: i64 = match max {
        Some(m) => if (m as i64) < lo {
            lo
        } else if m > MAX_EXTENT as i32 {
            MAX_EXTENT as i64
        } else {
            m as i64
        },
        None => MAX_EXTENT as i64,
    };
    let c: i64 = if v < lo {
        lo
    } else if v > hi {
        hi
    } else {
        v
    };
    assert(1 <= c <= MAX_EXTENT);
    match (base, inc) {
        (Some(b), Some(i)) => {
            if i >= 1 && b >= 0 && c >= b as i64 {
                let k: u32 = ((c - b as i64) as u32) / (i as u32);
                proof {
                    lemma_snap_below(c as int, b as int, i as int);
                }
                assert(k as int * i as int <= MAX_EXTENT);
                let step: i64 = (k as i64) * (i as i64);
                let r = b as i64 + step;
                if r >= 1 {
                    return r as u16;
                }
            }
            c as u16
        },
        _ => c as u16,
    }
}

/// The grid point below `c` lies between the base and `c`.
proof fn lemma_snap_below(c: int, b: int, i: int)
    requires
        i >= 1,
        b >= 0,
        c >= b,
    ensures
        b <= b + ((c - b) / i) * i <= c,
{
    let k = (c - b) / i;
    lemma_fundamental_div_mod(c - b, i);
    lemma_mod_pos_bound(c - b, i);
    assert(i * k == k * i) by (nonlinear_arith);
    assert(k >= 0) by (nonlinear_arith)
        requires
            k * i <= c - b,
            c - b < k * i + i,
            c - b >= 0,
            i >= 1,
    ;
    assert(k * i >= 0) by (nonlinear_arith)
        requires
            k >= 0,
            i >= 1,
    ;
}

/// The grid point below `c` is also the grid point below any size between
/// it and `c`.
proof fn lemma_snap_same(c: int, t: int, b: int, i: int)
    requires
        i >= 1,
        b >= 0,
        c >= b,
        b + ((c - b) / i) * i <= t <= c,
    ensures
        b + ((t - b) / i) * i == b + ((c - b) / i) * i,
{
    let k = (c - b) / i;
    lemma_fundamental_div_mod(c - b, i);
    lemma_mod_pos_bound(c - b, i);
    assert(i * k == k * i) by (nonlinear_arith);
    assert(k * i <= t - b < k * i + i);
    lemma_fundamental_div_mod_converse(t - b, i, k, (t - b) - k * i);
}

/// Fitting one axis twice gives what fitting it once gave.
pub proof fn lemma_fit_axis_idempotent(
    v: int,
    min: Option<i32>,
    max: Option<i32>,
    base: Option<i32>,
    inc: Option<i32>,
    default_min: int,
)
    requires
        1 <= default_min <= MAX_EXTENT,
    ensures
        fit_axis(fit_axis(v, min, max, base, inc, default_min), min, max, base, inc, default_min)
            == fit_axis(v, min, max, base, inc, default_min),
{
    let lo = lower_bound(min, default_min);
    let hi = upper_bound(max, lo);
    let c = clamp_to(v, lo, hi);
    let s = snap_down(c, base, inc);
    match (base, inc) {
        (Some(b), Some(i)) => {
            if i >= 1 && b >= 0 && c >= b && b + ((c - b) / (i as int)) * i >= 1 {
                let r = b + ((c - b) / (i as int)) * i;
                lemma_snap_below(c, b as int, i as int);
                lemma_snap_same(c, r, b as int, i as int);
                if r < lo {
                    lemma_snap_same(c, lo, b as int, i as int);
                }
            }
        },
        _ => {},
    }
}

/// Fitting a size to the hints is idempotent: a fitted size fits unchanged.
pub proof fn lemma_fit_size_idempotent(h: SizeHints, w: int, ht: int)
    ensures
        h.fit_width_spec(h.fit_width_spec(w)) == h.fit_width_spec(w),
        h.fit_height_spec(h.fit_height_spec(ht)) == h.fit_height_spec(ht),
{
    lemma_fit_axis_idempotent(
        w,
        first(h.min_size),
        first(h.max_size),
        first(h.base_size),
        first(h.size_increment),
        MIN_WIDTH as int,
    );
    lemma_fit_axis_idempotent(
        ht,
        second(h.min_size),
        second(h.max_size),
        second(h.base_size),
        second(h.size_increment),
        MIN_HEIGHT as int,
    );
}

} // verus!
