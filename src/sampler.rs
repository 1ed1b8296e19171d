//! Reproducible pseudo-random sites: a 64-bit linear congruential generator
//! drives coordinates drawn from `[-COORD_LIMIT, COORD_LIMIT]`.
use vstd::prelude::*;
use crate::geometry::{point_ok, sites_ok, Point, COORD_LIMIT};

verus! {

pub const LCG_MUL: u64 = 6364136223846793005;

pub const LCG_INC: u64 = 1442695040888963407;

pub const STATE_MOD: u128 = 0x1_0000_0000_0000_0000;

/// Number of distinct coordinate values.
pub const COORD_SPAN: u64 = 20_000_001;

pub open spec fn next_state(st: int) -> int {
    (st * LCG_MUL + LCG_INC) % (STATE_MOD as int)
}

/// The generator's state after `k` steps from `seed`.
pub open spec fn state_after(seed: u64, k: nat) -> int
    decreases k,
{
    if k == 0 {
        seed as int
    } else {
        next_state(state_after(seed, (k - 1) as nat))
    }
}

/// The coordinate drawn from a state: its high 31 bits, reduced to the span.
pub open spec fn coord_from(st: int) -> int {
    (st / 0x2_0000_0000) % (COORD_SPAN as int) - COORD_LIMIT
}

/// Site `k` of the sequence drawn from `seed`.
pub open spec fn sample_point(seed: u64, k: nat) -> Point {
    Point {
        x: coord_from(state_after(seed, 2 * k + 1)) as i64,
        y: coord_from(state_after(seed, 2 * k + 2)) as i64,
    }
}

fn advance(st: u64) -> (r: u64)
    ensures
        r as int == next_state(st as int),
{
    assert((st as int) * (LCG_MUL as int) <= 0xFFFF_FFFF_FFFF_FFFF * (LCG_MUL as int)) by (nonlinear_arith);
    (((st as u128) * (LCG_MUL as u128) + LCG_INC as u128) % STATE_MOD) as u64
}

fn coord(st: u64) -> (r: i64)
    ensures
        r as int == coord_from(st as int),
        -COORD_LIMIT <= r <= COORD_LIMIT,
{
    ((st / 0x2_0000_0000) % COORD_SPAN) as i64 - COORD_LIMIT
}

/// Draws `count` sites from `seed`; the same seed and count give the same
/// sites.
pub fn generate(count: usize, seed: u64) -> (r: Vec<Point>)
    ensures
        r@.len() == count,
        forall|k: int| 0 <= k < count ==> #[trigger] r@[k] == sample_point(seed, k as nat),
        sites_ok(r@),
{
    let mut r: Vec<Point> = Vec::new();
    let mut st = seed;
    let mut k: usize = 0;
    while k < count
        invariant
            k <= count,
            r@.len() == k,
            st as int == state_after(seed, 2 * k as nat),
            forall|x: int| 0 <= x < k ==> #[trigger] r@[x] == sample_point(seed, x as nat),
            forall|x: int| 0 <= x < k ==> #[trigger] point_ok(r@[x]),
        decreases count - k,
    {
        let s1 = advance(st);
        let s2 = advance(s1);
        st = s2;
        let p = Point { x: coord(s1), y: coord(s2) };
        proof {
            let i1: nat = (2 * k + 1) as nat;
            let i2: nat = (2 * k + 2) as nat;
            assert(state_after(seed, i1) == next_state(state_after(seed, (i1 - 1) as nat)));
            assert(state_after(seed, i2) == next_state(state_after(seed, (i2 - 1) as nat)));
            assert(p == sample_point(seed, k as nat));
        }
        r.push(p);
        k += 1;
        proof {
            assert(st as int == state_after(seed, 2 * k as nat));
        }
    }
    r
}

} // verus!
