//! The delays that the settings offer, in seconds.
use vstd::arithmetic::power2::{
    lemma2_to64, lemma_pow2_adds, lemma_pow2_pos, lemma_pow2_strictly_increases, lemma_pow2_unfold,
    pow2,
};
use vstd::prelude::*;

use crate::double::{magnitude, pattern_order_is_value_order, Double, EXPONENT_STEP, INFINITY_BITS};

verus! {

/// The bit pattern of 0.05.
pub const MIN_QUIT_DELAY_BITS: u64 = 0x3FA9_9999_9999_999A;

/// The bit pattern of 10.0.
pub const MAX_QUIT_DELAY_BITS: u64 = 0x4024_0000_0000_0000;

/// The bit pattern of 1.0.
pub const MIN_RESTART_DELAY_BITS: u64 = 0x3FF0_0000_0000_0000;

/// The bit pattern of 60.0.
pub const MAX_RESTART_DELAY_BITS: u64 = 0x404E_0000_0000_0000;

/// The bit pattern of 2.0.
pub const DEFAULT_QUIT_DELAY_BITS: u64 = 0x4000_0000_0000_0000;

/// The bit pattern of 10.0.
pub const DEFAULT_RESTART_DELAY_BITS: u64 = 0x4024_0000_0000_0000;

/// The bit pattern of 0.01.
pub const CHOICE_TOLERANCE_BITS: u64 = 0x3F84_7AE1_47AE_147B;

/// The two numbers differ by less than 0.01.
pub open spec fn close_to(a: Double, b: Double) -> bool {
    a.finite() && b.finite() && -magnitude(CHOICE_TOLERANCE_BITS as int) < a.units() - b.units()
        < magnitude(CHOICE_TOLERANCE_BITS as int)
}

/// The smallest exponent that a pattern is scaled from.
const BASE_EXPONENT: u64 = 1016;

/// The largest exponent that a pattern is scaled from.
const TOP_EXPONENT: u64 = 1029;

fn power_of_two(n: u64) -> (r: u128)
    requires
        n <= TOP_EXPONENT - BASE_EXPONENT,
    ensures
        r == pow2(n as nat),
        r <= 0x2000,
{
    let mut r: u128 = 1;
    proof {
        reveal(pow2);
        assert(pow2(0) == 1) by {
            lemma2_to64();
        }
    }
    for i in 0..n
        invariant
            n <= TOP_EXPONENT - BASE_EXPONENT,
            r == pow2(i as nat),
            r <= 0x2000,
    {
        proof {
            lemma_pow2_unfold((i + 1) as nat);
            lemma2_to64();
            if i < 12 {
                lemma_pow2_strictly_increases(i as nat, 12);
            }
        }
        r = r * 2;
    }
    r
}

/// A pattern's value in units of 2^-59 = 2^1015 * 2^-1074.
fn scaled(pattern: u64) -> (r: u128)
    requires
        BASE_EXPONENT <= pattern / EXPONENT_STEP <= TOP_EXPONENT,
    ensures
        r * pow2(1015) == magnitude(pattern as int),
        r <= 0x8_0000_0000_0000_0000,
{
    let exponent: u64 = pattern / EXPONENT_STEP;
    let fraction: u64 = pattern % EXPONENT_STEP;
    let power = power_of_two(exponent - BASE_EXPONENT);
    let significand: u128 = fraction as u128 + EXPONENT_STEP as u128;
    proof {
        let shift = (exponent - BASE_EXPONENT) as nat;
        lemma_pow2_adds(shift, 1015);
        assert(significand * power * pow2(1015) == significand * (power * pow2(1015)))
            by (nonlinear_arith);
        assert(significand * power <= 0x20_0000_0000_0000 * 0x2000) by (nonlinear_arith)
            requires
                0 <= significand <= 0x20_0000_0000_0000,
                0 <= power <= 0x2000,
        ;
    }
    significand * power
}

/// Whether a number differs by less than 0.01 from one of at least 2^-5 and
/// less than 2^6.
pub fn is_close_to(a: Double, b: Double) -> (r: bool)
    requires
        0x3FA0_0000_0000_0000 <= b.bits < 0x4050_0000_0000_0000,
    ensures
        r == close_to(a, b),
{
    proof {
        assert(b.bits < INFINITY_BITS);
        lemma_pow2_pos(1015);
    }
    if a.bits >= INFINITY_BITS {
        proof {
            if a.finite() {
                bounds(b.bits as int);
                tolerance_bound();
                if a.unsigned_bits() > 0 {
                    pattern_order_is_value_order(0, a.unsigned_bits());
                }
            }
        }
        return false;
    }
    let exponent: u64 = a.bits / EXPONENT_STEP;
    if exponent < BASE_EXPONENT || exponent > TOP_EXPONENT {
        proof {
            bounds(b.bits as int);
            tolerance_bound();
            if exponent < BASE_EXPONENT {
                pattern_order_is_value_order(a.bits as int, 1016 * EXPONENT_STEP as int);
                pattern_order_is_value_order(a.bits as int, 0);
            } else {
                pattern_order_is_value_order(a.bits as int, 1030 * EXPONENT_STEP as int);
            }
        }
        return false;
    }
    let left = scaled(a.bits);
    let right = scaled(b.bits);
    let tolerance = scaled(CHOICE_TOLERANCE_BITS);
    let r = left < right + tolerance && right < left + tolerance;
    proof {
        let p = pow2(1015) as int;
        assert((left < right + tolerance) == (left * p - right * p < tolerance * p))
            by (nonlinear_arith)
            requires
                p > 0,
        ;
        assert((right < left + tolerance) == (right * p - left * p < tolerance * p))
            by (nonlinear_arith)
            requires
                p > 0,
        ;
    }
    r
}

/// The value of the smallest pattern that is scaled.
spec fn span() -> int {
    magnitude(1016 * EXPONENT_STEP)
}

/// The value of the smallest pattern with an exponent.
proof fn value_of_power(exponent: int)
    requires
        1016 <= exponent <= 1030,
    ensures
        magnitude(exponent * EXPONENT_STEP) == pow2((exponent - 1016) as nat) * span(),
        span() > 0,
{
    let step = EXPONENT_STEP as int;
    let pattern = exponent * step;
    assert(pattern / step == exponent && pattern % step == 0);
    assert((1016 * step) / step == 1016 && (1016 * step) % step == 0);
    lemma_pow2_adds((exponent - 1016) as nat, 1015);
    lemma_pow2_pos(1015);
    let power = pow2((exponent - 1016) as nat) as int;
    let base = pow2(1015) as int;
    assert(step * (power * base) == power * (step * base)) by (nonlinear_arith);
    assert(step * base > 0) by (nonlinear_arith)
        requires
            step > 0,
            base > 0,
    ;
}

/// Bounds on the value of a pattern that a number is compared with.
proof fn bounds(pattern: int)
    requires
        1018 <= pattern / (EXPONENT_STEP as int) <= 1028,
    ensures
        4 * span() <= magnitude(pattern) <= 0x2000 * span(),
        0x4000 * span() == magnitude(1030 * EXPONENT_STEP as int),
{
    value_of_power(1018);
    value_of_power(1029);
    value_of_power(1030);
    lemma2_to64();
    pattern_order_is_value_order(pattern, 1018 * EXPONENT_STEP as int);
    pattern_order_is_value_order(pattern, 1029 * EXPONENT_STEP as int);
}

/// A bound on the tolerance.
proof fn tolerance_bound()
    ensures
        0 < magnitude(CHOICE_TOLERANCE_BITS as int) < 2 * span(),
        span() > 0,
{
    value_of_power(1017);
    lemma2_to64();
    pattern_order_is_value_order(0, CHOICE_TOLERANCE_BITS as int);
    pattern_order_is_value_order(CHOICE_TOLERANCE_BITS as int, 1017 * EXPONENT_STEP as int);
}

/// A delay that can be picked.
#[derive(Debug)]
pub struct DelayChoice {
    pub secs: Double,
    pub title: String,
}

/// The contents of a list of choices.
pub open spec fn choices_of(list: Seq<DelayChoice>) -> Seq<(Double, Seq<char>)> {
    Seq::new(list.len(), |i: int| (list[i].secs, list[i].title@))
}

/// The choice for the default quit delay, 2 seconds.
pub const DEFAULT_DELAY_INDEX: usize = 3;

/// The choice for the default restart delay, 10 seconds.
pub const DEFAULT_RESTART_DELAY_INDEX: usize = 1;

/// The quit delays that can be picked, with their titles.
pub open spec fn quit_delay_table() -> Seq<(Double, Seq<char>)> {
    seq![
        (Double { bits: 0x3FA9_9999_9999_999A }, "0.05 seconds"@),
        (Double { bits: 0x3FE0_0000_0000_0000 }, "0.5 seconds"@),
        (Double { bits: 0x3FF0_0000_0000_0000 }, "1 second"@),
        (Double { bits: 0x4000_0000_0000_0000 }, "2 seconds"@),
        (Double { bits: 0x4008_0000_0000_0000 }, "3 seconds"@),
        (Double { bits: 0x4014_0000_0000_0000 }, "5 seconds"@),
        (Double { bits: 0x4024_0000_0000_0000 }, "10 seconds"@),
    ]
}

/// The quit delays that can be picked, with their titles.
pub fn quit_delay_choices() -> (r: Vec<DelayChoice>)
    ensures
        choices_of(r@) == quit_delay_table(),
{
    let mut r: Vec<DelayChoice> = Vec::new();
    r.push(DelayChoice { secs: Double { bits: 0x3FA9_9999_9999_999A }, title: "0.05 seconds".to_owned() });
    r.push(DelayChoice { secs: Double { bits: 0x3FE0_0000_0000_0000 }, title: "0.5 seconds".to_owned() });
    r.push(DelayChoice { secs: Double { bits: 0x3FF0_0000_0000_0000 }, title: "1 second".to_owned() });
    r.push(DelayChoice { secs: Double { bits: 0x4000_0000_0000_0000 }, title: "2 seconds".to_owned() });
    r.push(DelayChoice { secs: Double { bits: 0x4008_0000_0000_0000 }, title: "3 seconds".to_owned() });
    r.push(DelayChoice { secs: Double { bits: 0x4014_0000_0000_0000 }, title: "5 seconds".to_owned() });
    r.push(DelayChoice { secs: Double { bits: 0x4024_0000_0000_0000 }, title: "10 seconds".to_owned() });
    assert(choices_of(r@) =~= quit_delay_table());
    r
}

/// The restart delays that can be picked, with their titles.
pub open spec fn restart_delay_table() -> Seq<(Double, Seq<char>)> {
    seq![
        (Double { bits: 0x4014_0000_0000_0000 }, "5 seconds"@),
        (Double { bits: 0x4024_0000_0000_0000 }, "10 seconds"@),
        (Double { bits: 0x403E_0000_0000_0000 }, "30 seconds"@),
        (Double { bits: 0x404E_0000_0000_0000 }, "1 minute"@),
    ]
}

/// The restart delays that can be picked, with their titles.
pub fn restart_delay_choices() -> (r: Vec<DelayChoice>)
    ensures
        choices_of(r@) == restart_delay_table(),
{
    let mut r: Vec<DelayChoice> = Vec::new();
    r.push(DelayChoice { secs: Double { bits: 0x4014_0000_0000_0000 }, title: "5 seconds".to_owned() });
    r.push(DelayChoice { secs: Double { bits: 0x4024_0000_0000_0000 }, title: "10 seconds".to_owned() });
    r.push(DelayChoice { secs: Double { bits: 0x403E_0000_0000_0000 }, title: "30 seconds".to_owned() });
    r.push(DelayChoice { secs: Double { bits: 0x404E_0000_0000_0000 }, title: "1 minute".to_owned() });
    assert(choices_of(r@) =~= restart_delay_table());
    r
}

/// The first choice that a delay is close to, else the default one.
pub open spec fn choice_for(
    table: Seq<(Double, Seq<char>)>,
    delay: Double,
    default_index: int,
) -> int {
    if exists|i: int| first_choice(table, delay, i) {
        choose|i: int| first_choice(table, delay, i)
    } else {
        default_index
    }
}

/// The delay is close to this choice and to none before it.
pub open spec fn first_choice(table: Seq<(Double, Seq<char>)>, delay: Double, i: int) -> bool {
    &&& 0 <= i < table.len()
    &&& close_to(delay, table[i].0)
    &&& forall|j: int| 0 <= j < i ==> !close_to(delay, #[trigger] table[j].0)
}

fn pick(choices: &Vec<DelayChoice>, delay: Double, default_index: usize) -> (r: usize)
    requires
        forall|i: int|
            0 <= i < choices@.len() ==> 0x3FA0_0000_0000_0000 <= (#[trigger] choices@[i]).secs.bits
                < 0x4050_0000_0000_0000,
    ensures
        r == choice_for(choices_of(choices@), delay, default_index as int),
{
    let ghost table = choices_of(choices@);
    for i in 0..choices.len()
        invariant
            table == choices_of(choices@),
            forall|i: int|
                0 <= i < choices@.len() ==> 0x3FA0_0000_0000_0000 <= (#[trigger] choices@[i]).secs.bits
                < 0x4050_0000_0000_0000,
            forall|j: int| 0 <= j < i ==> !close_to(delay, #[trigger] table[j].0),
    {
        if is_close_to(delay, choices[i].secs) {
            proof {
                assert(first_choice(table, delay, i as int));
                let k = choose|k: int| first_choice(table, delay, k);
                if k < i {
                    assert(!close_to(delay, table[k].0));
                } else if i < k {
                    assert(!close_to(delay, table[i as int].0));
                }
            }
            return i;
        }
    }
    assert forall|k: int| !first_choice(table, delay, k) by {
        if 0 <= k < table.len() {
            assert(!close_to(delay, table[k].0));
        }
    }
    default_index
}

/// Which quit delay to show as picked.
pub fn quit_delay_index(delay: Double) -> (r: usize)
    ensures
        r == choice_for(quit_delay_table(), delay, DEFAULT_DELAY_INDEX as int),
        r < quit_delay_table().len(),
{
    let choices = quit_delay_choices();
    assert forall|i: int| 0 <= i < choices@.len() implies 0x3FA0_0000_0000_0000 <= (
    #[trigger] choices@[i]).secs.bits < 0x4050_0000_0000_0000 by {
        let table = quit_delay_table();
        assert(choices_of(choices@).len() == table.len());
        assert(table[i] == choices_of(choices@)[i]);
        assert(i == 0 || i == 1 || i == 2 || i == 3 || i == 4 || i == 5 || i == 6);
    }
    pick(&choices, delay, DEFAULT_DELAY_INDEX)
}

/// Which restart delay to show as picked.
pub fn restart_delay_index(delay: Double) -> (r: usize)
    ensures
        r == choice_for(restart_delay_table(), delay, DEFAULT_RESTART_DELAY_INDEX as int),
        r < restart_delay_table().len(),
{
    let choices = restart_delay_choices();
    assert forall|i: int| 0 <= i < choices@.len() implies 0x3FA0_0000_0000_0000 <= (
    #[trigger] choices@[i]).secs.bits < 0x4050_0000_0000_0000 by {
        let table = restart_delay_table();
        assert(choices_of(choices@).len() == table.len());
        assert(table[i] == choices_of(choices@)[i]);
        assert(i == 0 || i == 1 || i == 2 || i == 3);
    }
    pick(&choices, delay, DEFAULT_RESTART_DELAY_INDEX)
}

/// The value of a pattern, in units of the smallest pattern's least significant
/// bit that is scaled.
spec fn scaled_value(pattern: int) -> int {
    (pattern % (EXPONENT_STEP as int) + EXPONENT_STEP) * pow2(
        (pattern / (EXPONENT_STEP as int) - BASE_EXPONENT) as nat,
    )
}

proof fn scaled_value_is_value(pattern: int)
    requires
        BASE_EXPONENT <= pattern / (EXPONENT_STEP as int) <= TOP_EXPONENT,
    ensures
        magnitude(pattern) == scaled_value(pattern) * pow2(1015),
        pow2(1015) > 0,
{
    let exponent = pattern / (EXPONENT_STEP as int);
    let significand = pattern % (EXPONENT_STEP as int) + EXPONENT_STEP;
    let shift = (exponent - BASE_EXPONENT) as nat;
    lemma_pow2_adds(shift, 1015);
    lemma_pow2_pos(1015);
    let power = pow2(shift) as int;
    let base = pow2(1015) as int;
    assert(significand * power * base == significand * (power * base)) by (nonlinear_arith);
}

/// The scaled value of a pattern with a given exponent and fraction.
proof fn scaled_value_at(pattern: int, exponent: int, fraction: int, power: int)
    requires
        pattern == exponent * EXPONENT_STEP + fraction,
        0 <= fraction < EXPONENT_STEP,
        exponent >= BASE_EXPONENT,
        pow2((exponent - BASE_EXPONENT) as nat) == power,
    ensures
        scaled_value(pattern) == (fraction + EXPONENT_STEP) * power,
{
    assert(pattern / (EXPONENT_STEP as int) == exponent);
    assert(pattern % (EXPONENT_STEP as int) == fraction);
}

/// Two delays of at least 2^-5 whose scaled values are far enough apart are not
/// close to each other.
proof fn far_apart(a: Double, b: Double)
    requires
        0x3FA0_0000_0000_0000 <= a.bits < 0x4050_0000_0000_0000,
        0x3FA0_0000_0000_0000 <= b.bits < 0x4050_0000_0000_0000,
        scaled_value(b.bits as int) - scaled_value(a.bits as int) >= 0x20_0000_0000_0000
            || scaled_value(a.bits as int) - scaled_value(b.bits as int) >= 0x20_0000_0000_0000,
    ensures
        !close_to(a, b),
{
    scaled_value_is_value(a.bits as int);
    scaled_value_is_value(b.bits as int);
    scaled_value_is_value(CHOICE_TOLERANCE_BITS as int);
    lemma2_to64();
    let (x, y) = (scaled_value(a.bits as int), scaled_value(b.bits as int));
    let t = scaled_value(CHOICE_TOLERANCE_BITS as int);
    let p = pow2(1015) as int;
    scaled_value_at(CHOICE_TOLERANCE_BITS as int, 1016, 0x4_7AE1_47AE_147B, 1);
    assert(t == (0x4_7AE1_47AE_147B + EXPONENT_STEP) * 1);
    assert(0x4_7AE1_47AE_147B + EXPONENT_STEP == 0x14_7AE1_47AE_147B);
    if y - x >= 0x20_0000_0000_0000 {
        assert(y * p - x * p >= t * p) by (nonlinear_arith)
            requires
                y - x >= t,
                p > 0,
        ;
    } else {
        assert(x * p - y * p >= t * p) by (nonlinear_arith)
            requires
                x - y >= t,
                p > 0,
        ;
    }
}

proof fn choices_are_far_apart(table: Seq<(Double, Seq<char>)>)
    requires
        table == quit_delay_table() || table == restart_delay_table(),
    ensures
        forall|i: int, j: int|
            0 <= i < j < table.len() ==> !close_to(
                (#[trigger] table[j]).0,
                (#[trigger] table[i]).0,
            ),
        forall|i: int| 0 <= i < table.len() ==> (#[trigger] table[i]).0.finite(),
{
    lemma2_to64();
    scaled_value_at(0x3FA9_9999_9999_999A, 1018, 0x9_9999_9999_999A, 4);
    scaled_value_at(0x3FE0_0000_0000_0000, 1022, 0x0, 64);
    scaled_value_at(0x3FF0_0000_0000_0000, 1023, 0x0, 128);
    scaled_value_at(0x4000_0000_0000_0000, 1024, 0x0, 256);
    scaled_value_at(0x4008_0000_0000_0000, 1024, 0x8_0000_0000_0000, 256);
    scaled_value_at(0x4014_0000_0000_0000, 1025, 0x4_0000_0000_0000, 512);
    scaled_value_at(0x4024_0000_0000_0000, 1026, 0x4_0000_0000_0000, 1024);
    scaled_value_at(0x403E_0000_0000_0000, 1027, 0xE_0000_0000_0000, 2048);
    scaled_value_at(0x404E_0000_0000_0000, 1028, 0xE_0000_0000_0000, 4096);
    assert forall|i: int, j: int| 0 <= i < j < table.len() implies !close_to(
        (#[trigger] table[j]).0,
        (#[trigger] table[i]).0,
    ) by {
        far_apart(table[j].0, table[i].0);
    }
}

/// A delay that was picked is shown as picked.
pub proof fn picked_delays_are_shown(i: int)
    ensures
        0 <= i < quit_delay_table().len() ==> choice_for(
            quit_delay_table(),
            quit_delay_table()[i].0,
            DEFAULT_DELAY_INDEX as int,
        ) == i,
        0 <= i < restart_delay_table().len() ==> choice_for(
            restart_delay_table(),
            restart_delay_table()[i].0,
            DEFAULT_RESTART_DELAY_INDEX as int,
        ) == i,
{
    picked_is_chosen(quit_delay_table(), i, DEFAULT_DELAY_INDEX as int);
    picked_is_chosen(restart_delay_table(), i, DEFAULT_RESTART_DELAY_INDEX as int);
}

proof fn picked_is_chosen(table: Seq<(Double, Seq<char>)>, i: int, default_index: int)
    requires
        table == quit_delay_table() || table == restart_delay_table(),
    ensures
        0 <= i < table.len() ==> choice_for(table, table[i].0, default_index) == i,
{
    if 0 <= i < table.len() {
        choices_are_far_apart(table);
        tolerance_bound();
        let delay = table[i].0;
        assert(close_to(delay, table[i].0));
        assert forall|j: int| 0 <= j < i implies !close_to(delay, #[trigger] table[j].0) by {}
        assert(first_choice(table, delay, i));
        let k = choose|k: int| first_choice(table, delay, k);
        if k < i {
            assert(!close_to(delay, table[k].0));
        } else if i < k {
            assert(!close_to(delay, table[i].0));
        }
    }
}

} // verus!
