//! Progress values of the two memory bars, from available and total memory.
use vstd::prelude::*;
use crate::frac::Frac;

verus! {

/// Halves a part and its total together until the total fits in `u32`.
pub open spec fn scaled(part: nat, total: nat) -> (nat, nat)
    decreases total,
{
    if total <= u32::MAX {
        (part, total)
    } else {
        scaled(part / 2, total / 2)
    }
}

/// The smaller of two numbers.
pub open spec fn min_nat(a: nat, b: nat) -> nat {
    if a <= b {
        a
    } else {
        b
    }
}

/// `min(2 * (1 - avail / total), 1)`: the used bar fills as free memory drops below half.
pub open spec fn used_progress(avail: nat, total: nat) -> Frac {
    let s = scaled(min_nat(avail, total), total);
    Frac { num: min_nat(2 * (s.1 - s.0) as nat, s.1) as u32, den: s.1 as u32 }
}

/// `1 - min(2 * avail / total, 1)`: the free bar fills as free memory drops below half.
pub open spec fn free_progress(avail: nat, total: nat) -> Frac {
    let s = scaled(min_nat(avail, total), total);
    Frac { num: (s.1 - min_nat(2 * s.0, s.1)) as u32, den: s.1 as u32 }
}

proof fn lemma_scaled_bounds(part: nat, total: nat)
    requires
        part <= total,
        total > 0,
    ensures
        scaled(part, total).0 <= scaled(part, total).1,
        0 < scaled(part, total).1 <= u32::MAX,
    decreases total,
{
    if total > u32::MAX {
        lemma_scaled_bounds(part / 2, total / 2);
    }
}

fn scale(part: u64, total: u64) -> (r: (u32, u32))
    requires
        part <= total,
        total > 0,
    ensures
        (r.0 as nat, r.1 as nat) == scaled(part as nat, total as nat),
{
    let mut p: u64 = part;
    let mut t: u64 = total;
    while t > 0xffff_ffffu64
        invariant
            p <= t,
            t > 0,
            scaled(p as nat, t as nat) == scaled(part as nat, total as nat),
        decreases t,
    {
        p = p / 2;
        t = t / 2;
    }
    (p as u32, t as u32)
}

/// Progress of the used-memory bar, from available and total memory in one unit.
/// `None` when the total is zero; available memory above the total counts as the total.
pub fn used_memory_progress(avail: u64, total: u64) -> (r: Option<Frac>)
    ensures
        total == 0 ==> r.is_none(),
        total > 0 ==> r == Some(used_progress(avail as nat, total as nat)),
        r.is_some() ==> r.unwrap().is_unit(),
{
    if total == 0 {
        return None;
    }
    let a = if avail <= total { avail } else { total };
    proof {
        lemma_scaled_bounds(a as nat, total as nat);
    }
    let (p, t) = scale(a, total);
    let twice: u64 = 2 * ((t - p) as u64);
    let num: u32 = if twice <= t as u64 { twice as u32 } else { t };
    Some(Frac { num, den: t })
}

/// Progress of the free-memory bar, from available and total memory in one unit.
/// `None` when the total is zero; available memory above the total counts as the total.
pub fn free_memory_progress(avail: u64, total: u64) -> (r: Option<Frac>)
    ensures
        total == 0 ==> r.is_none(),
        total > 0 ==> r == Some(free_progress(avail as nat, total as nat)),
        r.is_some() ==> r.unwrap().is_unit(),
{
    if total == 0 {
        return None;
    }
    let a = if avail <= total { avail } else { total };
    proof {
        lemma_scaled_bounds(a as nat, total as nat);
    }
    let (p, t) = scale(a, total);
    let twice: u64 = 2 * (p as u64);
    let taken: u32 = if twice <= t as u64 { twice as u32 } else { t };
    Some(Frac { num: t - taken, den: t })
}

} // verus!
