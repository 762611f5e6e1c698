//! Fixed-point levels and the attack/release recurrence that smooths them.

use vstd::prelude::*;

verus! {

/// Thousandths of a decibel in one decibel.
pub const LEVELS_PER_DB: i32 = 1000;

/// The lowest level that is ever shown: -120 dB.
pub const LEVEL_FLOOR: i32 = -120_000;

/// The highest level that is ever shown: +120 dB.
pub const LEVEL_CEILING: i32 = 120_000;

/// The coefficient that stands for 1.0: coefficients are parts per million.
pub const UNITY: u32 = 1_000_000;

/// Whether `x` lies between the floor and the ceiling.
pub open spec fn level_in_range(x: int) -> bool {
    LEVEL_FLOOR <= x <= LEVEL_CEILING
}

/// Whether every entry of `frame` lies between the floor and the ceiling.
pub open spec fn frame_in_range(frame: Seq<i32>) -> bool {
    forall|i: int| 0 <= i < frame.len() ==> level_in_range(#[trigger] frame[i] as int)
}

/// `x` moved to the nearest level between the floor and the ceiling.
pub open spec fn clamped(x: int) -> int {
    if x < LEVEL_FLOOR {
        LEVEL_FLOOR as int
    } else if x > LEVEL_CEILING {
        LEVEL_CEILING as int
    } else {
        x
    }
}

/// Moves a level into the range between the floor and the ceiling.
pub fn clamp_level(x: i32) -> (r: i32)
    ensures
        r == clamped(x as int),
        level_in_range(r as int),
{
    if x < LEVEL_FLOOR {
        LEVEL_FLOOR
    } else if x > LEVEL_CEILING {
        LEVEL_CEILING
    } else {
        x
    }
}

/// The quotient of `a` by `b`, rounded up.
pub open spec fn div_ceil(a: int, b: int) -> int {
    (a + b - 1) / b
}

/// How far a level moves towards its target: `alpha` millionths of the
/// `distance`, rounded up, so that a level apart from its target always moves.
pub open spec fn smoothing_stride(distance: int, alpha: int) -> int {
    div_ceil(distance * alpha, UNITY as int)
}

/// One step of the attack/release recurrence: from `previous` towards
/// `current`, by the attack coefficient when the level rises and by the
/// release coefficient when it falls or stays.
pub open spec fn smoothed(previous: int, current: int, attack: int, release: int) -> int {
    if current > previous {
        previous + smoothing_stride(current - previous, attack)
    } else {
        previous - smoothing_stride(previous - current, release)
    }
}

/// A stride never exceeds the distance, and is positive when both the
/// distance and the coefficient are.
pub proof fn lemma_stride_bounds(distance: int, alpha: int)
    requires
        0 <= distance,
        0 <= alpha <= UNITY,
    ensures
        0 <= smoothing_stride(distance, alpha) <= distance,
        distance > 0 && alpha > 0 ==> smoothing_stride(distance, alpha) >= 1,
{
    let u = UNITY as int;
    let p = distance * alpha;
    assert(0 <= p <= distance * u) by (nonlinear_arith)
        requires
            0 <= distance,
            0 <= alpha <= u,
            p == distance * alpha,
    ;
    assert(distance > 0 && alpha > 0 ==> p >= 1) by (nonlinear_arith)
        requires
            0 <= distance,
            0 <= alpha,
            p == distance * alpha,
    ;
    let q = (p + u - 1) / u;
    assert(q * u <= p + u - 1 < q * u + u) by (nonlinear_arith)
        requires
            q == (p + u - 1) / u,
            u == 1_000_000,
    ;
    assert(q <= distance) by (nonlinear_arith)
        requires
            q * u <= p + u - 1,
            p <= distance * u,
            u == 1_000_000,
    ;
    assert(q >= 0) by (nonlinear_arith)
        requires
            p + u - 1 < q * u + u,
            p >= 0,
            u == 1_000_000,
    ;
    assert(p >= 1 ==> q >= 1) by (nonlinear_arith)
        requires
            p + u - 1 < q * u + u,
            u == 1_000_000,
    ;
}

/// Attack/release smoothing of one level.
///
/// The result lies between `previous` and `current`, both included: a rising
/// level never overshoots and a falling one never undershoots.
pub fn smooth_level(previous: i32, current: i32, attack: u32, release: u32) -> (r: i32)
    requires
        attack <= UNITY,
        release <= UNITY,
    ensures
        r == smoothed(previous as int, current as int, attack as int, release as int),
        current > previous ==> previous <= r <= current,
        current <= previous ==> current <= r <= previous,
{
    let unit: i64 = UNITY as i64;
    if current > previous {
        let distance: i64 = current as i64 - previous as i64;
        proof {
            lemma_stride_bounds(distance as int, attack as int);
            assert(0 <= distance * attack <= distance * 1_000_000) by (nonlinear_arith)
                requires
                    0 <= distance,
                    0 <= attack <= 1_000_000,
            ;
        }
        let stride: i64 = (distance * (attack as i64) + unit - 1) / unit;
        (previous as i64 + stride) as i32
    } else {
        let distance: i64 = previous as i64 - current as i64;
        proof {
            lemma_stride_bounds(distance as int, release as int);
            assert(0 <= distance * release <= distance * 1_000_000) by (nonlinear_arith)
                requires
                    0 <= distance,
                    0 <= release <= 1_000_000,
            ;
        }
        let stride: i64 = (distance * (release as i64) + unit - 1) / unit;
        (previous as i64 - stride) as i32
    }
}

/// For a positive divisor, the quotient of a negative number is the negated
/// quotient of its magnitude, rounded up.
pub proof fn lemma_div_of_negative(n: int, b: int)
    requires
        0 < n,
        0 < b,
    ensures
        (-n) / b == -div_ceil(n, b),
{
    let q = (n + b - 1) / b;
    let r = (n + b - 1) % b;
    assert(n + b - 1 == q * b + r && 0 <= r < b) by (nonlinear_arith)
        requires
            q == (n + b - 1) / b,
            r == (n + b - 1) % b,
            b > 0,
    ;
    let s = b - 1 - r;
    assert(-n == (-q) * b + s) by (nonlinear_arith)
        requires
            n + b - 1 == q * b + r,
            s == b - 1 - r,
    ;
    assert(0 <= s < b);
    vstd::arithmetic::div_mod::lemma_fundamental_div_mod_converse(-n, b, -q, s);
}

/// Division that rounds towards minus infinity, as division does in
/// contracts.
pub fn div_floor(a: i128, b: i128) -> (q: i128)
    requires
        0 < b <= 0x4000_0000_0000_0000_0000_0000_0000_0000,
        -0x4000_0000_0000_0000_0000_0000_0000_0000 <= a,
    ensures
        q == a as int / b as int,
{
    if a >= 0 {
        a / b
    } else {
        let n: i128 = -a;
        proof {
            lemma_div_of_negative(n as int, b as int);
            let ni = n as int;
            let bi = b as int;
            assert(0 <= (ni + bi - 1) / bi <= ni + bi - 1) by (nonlinear_arith)
                requires
                    0 < ni,
                    0 < bi,
            ;
        }
        -((n + (b - 1)) / b)
    }
}

/// `a` moved towards `b` by `factor` millionths of the way, rounded towards
/// minus infinity.
pub open spec fn mixed(a: int, b: int, factor: int) -> int {
    a + ((b - a) * factor) / (UNITY as int)
}

/// A mix lies between its two ends.
pub proof fn lemma_mixed_between(a: int, b: int, factor: int)
    requires
        0 <= factor <= UNITY,
    ensures
        a <= b ==> a <= mixed(a, b, factor) <= b,
        b <= a ==> b <= mixed(a, b, factor) <= a,
{
    let u = UNITY as int;
    let p = (b - a) * factor;
    let q = p / u;
    assert(q * u <= p < q * u + u) by (nonlinear_arith)
        requires
            q == p / u,
            u == 1_000_000,
    ;
    if a <= b {
        assert(0 <= p <= (b - a) * u) by (nonlinear_arith)
            requires
                p == (b - a) * factor,
                0 <= factor <= u,
                a <= b,
        ;
        assert(0 <= q <= b - a) by (nonlinear_arith)
            requires
                q * u <= p < q * u + u,
                0 <= p <= (b - a) * u,
                u == 1_000_000,
        ;
    }
    if b <= a {
        assert((b - a) * u <= p <= 0) by (nonlinear_arith)
            requires
                p == (b - a) * factor,
                0 <= factor <= u,
                b <= a,
        ;
        assert(b - a <= q <= 0) by (nonlinear_arith)
            requires
                q * u <= p < q * u + u,
                (b - a) * u <= p <= 0,
                u == 1_000_000,
        ;
    }
}

/// A mix of a level with itself is that level, whatever the factor.
pub proof fn lemma_mixed_same(a: int, factor: int)
    ensures
        mixed(a, a, factor) == a,
{
    assert((a - a) * factor == 0) by (nonlinear_arith);
}

/// Mixes two levels: `factor` millionths of `b` and the rest of `a`.
pub fn mix_levels(a: i32, b: i32, factor: u32) -> (r: i32)
    requires
        factor <= UNITY,
    ensures
        r == mixed(a as int, b as int, factor as int),
        a <= b ==> a <= r <= b,
        b <= a ==> b <= r <= a,
{
    let distance: i128 = b as i128 - a as i128;
    proof {
        lemma_mixed_between(a as int, b as int, factor as int);
        assert(-0x1_0000_0000 * 1_000_000 <= distance * factor <= 0x1_0000_0000 * 1_000_000)
            by (nonlinear_arith)
            requires
                -0x1_0000_0000 <= distance <= 0x1_0000_0000,
                0 <= factor <= 1_000_000,
        ;
    }
    let step: i128 = div_floor(distance * (factor as i128), UNITY as i128);
    (a as i128 + step) as i32
}

/// The levels that the recurrence goes through when it starts at `start`
/// and is fed `inputs`, one level for each input.
pub open spec fn smoothed_run(start: int, inputs: Seq<int>, attack: int, release: int) -> Seq<int>
    decreases inputs.len(),
{
    if inputs.len() == 0 {
        Seq::empty()
    } else {
        let before = smoothed_run(start, inputs.drop_last(), attack, release);
        let previous = if before.len() == 0 {
            start
        } else {
            before.last()
        };
        before.push(smoothed(previous, inputs.last(), attack, release))
    }
}

/// Whether each entry is greater than the one before.
pub open spec fn strictly_increasing(values: Seq<int>) -> bool {
    forall|i: int, j: int| 0 <= i < j < values.len() ==> values[i] < values[j]
}

/// Whether each entry is less than the one before.
pub open spec fn strictly_decreasing(values: Seq<int>) -> bool {
    forall|i: int, j: int| 0 <= i < j < values.len() ==> values[i] > values[j]
}

/// One step keeps the level between where it was and where it is sent.
pub proof fn lemma_smoothed_between(previous: int, current: int, attack: int, release: int)
    requires
        0 <= attack <= UNITY,
        0 <= release <= UNITY,
    ensures
        current > previous ==> previous <= smoothed(previous, current, attack, release)
            <= current,
        current <= previous ==> current <= smoothed(previous, current, attack, release)
            <= previous,
        current > previous && attack > 0 ==> smoothed(previous, current, attack, release)
            > previous,
        current < previous && release > 0 ==> smoothed(previous, current, attack, release)
            < previous,
{
    if current > previous {
        lemma_stride_bounds(current - previous, attack);
    } else {
        lemma_stride_bounds(previous - current, release);
    }
}

/// Attack never overshoots: fed strictly increasing inputs from a level that
/// is not above the first of them, the smoothed level never falls and never
/// exceeds the input of its step.
pub proof fn lemma_attack_is_monotone(start: int, inputs: Seq<int>, attack: int, release: int)
    requires
        0 <= attack <= UNITY,
        0 <= release <= UNITY,
        strictly_increasing(inputs),
        inputs.len() > 0 ==> start <= inputs[0],
    ensures
        smoothed_run(start, inputs, attack, release).len() == inputs.len(),
        forall|i: int|
            0 <= i < inputs.len() ==> start <= #[trigger] smoothed_run(
                start,
                inputs,
                attack,
                release,
            )[i] <= inputs[i],
        forall|i: int, j: int|
            0 <= i <= j < inputs.len() ==> #[trigger] smoothed_run(
                start,
                inputs,
                attack,
                release,
            )[i] <= #[trigger] smoothed_run(start, inputs, attack, release)[j],
    decreases inputs.len(),
{
    if inputs.len() > 0 {
        let shorter = inputs.drop_last();
        assert(strictly_increasing(shorter)) by {
            assert forall|i: int, j: int| 0 <= i < j < shorter.len() implies shorter[i]
                < shorter[j] by {
                assert(inputs[i] < inputs[j]);
            }
        }
        lemma_attack_is_monotone(start, shorter, attack, release);
        let before = smoothed_run(start, shorter, attack, release);
        let run = smoothed_run(start, inputs, attack, release);
        let previous = if before.len() == 0 {
            start
        } else {
            before.last()
        };
        let last = inputs.len() - 1;
        if before.len() > 0 {
            assert(before[last - 1] <= shorter[last - 1]);
            assert(inputs[last - 1] < inputs[last]);
        }
        assert(previous <= inputs.last());
        lemma_smoothed_between(previous, inputs.last(), attack, release);
        assert(run == before.push(smoothed(previous, inputs.last(), attack, release)));
        assert forall|i: int| 0 <= i < inputs.len() implies start <= #[trigger] run[i]
            <= inputs[i] by {
            if i < last {
                assert(run[i] == before[i]);
                assert(start <= before[i] <= shorter[i]);
            } else if before.len() > 0 {
                assert(start <= before[last - 1]);
            }
        }
        assert forall|i: int, j: int| 0 <= i <= j < inputs.len() implies #[trigger] run[i]
            <= #[trigger] run[j] by {
            if j < last {
                assert(before[i] <= before[j]);
            } else if i < last {
                assert(before[i] <= before[last - 1]);
            }
        }
    }
}

/// Release never undershoots: fed strictly decreasing inputs from a level
/// that is not below the first of them, the smoothed level never rises and
/// never falls below the input of its step.
pub proof fn lemma_release_is_monotone(start: int, inputs: Seq<int>, attack: int, release: int)
    requires
        0 <= attack <= UNITY,
        0 <= release <= UNITY,
        strictly_decreasing(inputs),
        inputs.len() > 0 ==> start >= inputs[0],
    ensures
        smoothed_run(start, inputs, attack, release).len() == inputs.len(),
        forall|i: int|
            0 <= i < inputs.len() ==> start >= #[trigger] smoothed_run(
                start,
                inputs,
                attack,
                release,
            )[i] >= inputs[i],
        forall|i: int, j: int|
            0 <= i <= j < inputs.len() ==> #[trigger] smoothed_run(
                start,
                inputs,
                attack,
                release,
            )[i] >= #[trigger] smoothed_run(start, inputs, attack, release)[j],
    decreases inputs.len(),
{
    if inputs.len() > 0 {
        let shorter = inputs.drop_last();
        assert(strictly_decreasing(shorter)) by {
            assert forall|i: int, j: int| 0 <= i < j < shorter.len() implies shorter[i]
                > shorter[j] by {
                assert(inputs[i] > inputs[j]);
            }
        }
        lemma_release_is_monotone(start, shorter, attack, release);
        let before = smoothed_run(start, shorter, attack, release);
        let run = smoothed_run(start, inputs, attack, release);
        let previous = if before.len() == 0 {
            start
        } else {
            before.last()
        };
        let last = inputs.len() - 1;
        if before.len() > 0 {
            assert(before[last - 1] >= shorter[last - 1]);
            assert(inputs[last - 1] > inputs[last]);
        }
        assert(previous >= inputs.last());
        lemma_smoothed_between(previous, inputs.last(), attack, release);
        assert(run == before.push(smoothed(previous, inputs.last(), attack, release)));
        assert forall|i: int| 0 <= i < inputs.len() implies start >= #[trigger] run[i]
            >= inputs[i] by {
            if i < last {
                assert(run[i] == before[i]);
                assert(start >= before[i] >= shorter[i]);
            } else if before.len() > 0 {
                assert(start >= before[last - 1]);
            }
        }
        assert forall|i: int, j: int| 0 <= i <= j < inputs.len() implies #[trigger] run[i]
            >= #[trigger] run[j] by {
            if j < last {
                assert(before[i] >= before[j]);
            } else if i < last {
                assert(before[i] >= before[last - 1]);
            }
        }
    }
}

/// The level after `steps` steps of the recurrence towards one `target`.
pub open spec fn settled(level: int, target: int, attack: int, release: int, steps: nat) -> int
    decreases steps,
{
    if steps == 0 {
        level
    } else {
        smoothed(settled(level, target, attack, release, (steps - 1) as nat), target, attack, release)
    }
}

/// With a release above zero a level held over a constant lower input comes
/// down by at least one thousandth of a decibel in each step until it
/// arrives: after as many steps as it was thousandths above, it has arrived
/// and stays.
pub proof fn lemma_release_settles(level: int, target: int, attack: int, release: int, steps: nat)
    requires
        0 <= attack <= UNITY,
        0 < release <= UNITY,
        target <= level,
    ensures
        target <= settled(level, target, attack, release, steps) <= level,
        settled(level, target, attack, release, steps) - target <= if level - target
            >= steps {
            level - target - steps
        } else {
            0
        },
        steps >= level - target ==> settled(level, target, attack, release, steps) == target,
    decreases steps,
{
    if steps > 0 {
        lemma_release_settles(level, target, attack, release, (steps - 1) as nat);
        let before = settled(level, target, attack, release, (steps - 1) as nat);
        lemma_smoothed_between(before, target, attack, release);
    }
}

} // verus!
