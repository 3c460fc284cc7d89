//! Supersampling: the scene is rendered once per jitter offset, each
//! render shifted by a fraction of a pixel and added into an accumulator
//! with its weight. What is decided here is the offsets, the weights and the
//! order of the passes; rendering them is the renderer's.

use vstd::prelude::*;

verus! {

/// The jitter pattern of `level` (0 to 5): `2^level` sample offsets on an
/// integer grid of sixteenths of a pixel, within `[-8, 8)` on each axis.
pub open spec fn jitter_table(level: nat) -> Seq<(int, int)> {
    if level == 0 {
        seq![(0, 0)]
    } else if level == 1 {
        seq![(4, 4), (-4, -4)]
    } else if level == 2 {
        seq![(-2, -6), (6, -2), (-6, 2), (2, 6)]
    } else if level == 3 {
        seq![
            (1, -3), (-1, 3), (5, 1), (-3, -5), (-5, 5), (-7, -1), (3, 7), (7, -7),
        ]
    } else if level == 4 {
        seq![
            (1, 1), (-1, -3), (-3, 2), (4, -1), (-5, -2), (2, 5), (5, 3), (3, -5),
            (-2, 6), (0, -7), (-4, -6), (-6, 4), (-8, 0), (7, -4), (6, 7), (-7, -8),
        ]
    } else {
        seq![
            (-4, -7), (-7, -5), (-3, -5), (-5, -4), (-1, -4), (-2, -2), (-6, -1), (-4, 0),
            (-7, 1), (-1, 2), (-6, 3), (-3, 3), (-7, 6), (-3, 6), (-5, 7), (-1, 7),
            (5, -7), (1, -6), (6, -5), (4, -4), (2, -3), (7, -2), (1, -1), (4, -1),
            (2, 1), (6, 2), (0, 4), (4, 4), (2, 5), (7, 5), (5, 6), (3, 7),
        ]
    }
}

/// `vectors` as integer pairs.
pub open spec fn offsets(vectors: Seq<(i8, i8)>) -> Seq<(int, int)> {
    vectors.map_values(|v: (i8, i8)| (v.0 as int, v.1 as int))
}

/// The jitter pattern of a sample level, clamped to the six levels there
/// are: level `n` has `2^n` offsets.
pub fn jitter_vectors(sample_level: usize) -> (vectors: Vec<(i8, i8)>)
    ensures
        offsets(vectors@) == jitter_table(if sample_level < 5 {
            sample_level as nat
        } else {
            5
        }),
{
    let mut vectors: Vec<(i8, i8)> = Vec::new();
    if sample_level == 0 {
        vectors.push((0, 0));
        assert(offsets(vectors@) =~= jitter_table(0));
    } else if sample_level == 1 {
        vectors.push((4, 4));
        vectors.push((-4, -4));
        assert(offsets(vectors@) =~= jitter_table(1));
    } else if sample_level == 2 {
        vectors.push((-2, -6));
        vectors.push((6, -2));
        vectors.push((-6, 2));
        vectors.push((2, 6));
        assert(offsets(vectors@) =~= jitter_table(2));
    } else if sample_level == 3 {
        vectors.push((1, -3));
        vectors.push((-1, 3));
        vectors.push((5, 1));
        vectors.push((-3, -5));
        vectors.push((-5, 5));
        vectors.push((-7, -1));
        vectors.push((3, 7));
        vectors.push((7, -7));
        assert(offsets(vectors@) =~= jitter_table(3));
    } else if sample_level == 4 {
        vectors.push((1, 1));
        vectors.push((-1, -3));
        vectors.push((-3, 2));
        vectors.push((4, -1));
        vectors.push((-5, -2));
        vectors.push((2, 5));
        vectors.push((5, 3));
        vectors.push((3, -5));
        vectors.push((-2, 6));
        vectors.push((0, -7));
        vectors.push((-4, -6));
        vectors.push((-6, 4));
        vectors.push((-8, 0));
        vectors.push((7, -4));
        vectors.push((6, 7));
        vectors.push((-7, -8));
        assert(offsets(vectors@) =~= jitter_table(4));
    } else {
        vectors.push((-4, -7));
        vectors.push((-7, -5));
        vectors.push((-3, -5));
        vectors.push((-5, -4));
        vectors.push((-1, -4));
        vectors.push((-2, -2));
        vectors.push((-6, -1));
        vectors.push((-4, 0));
        vectors.push((-7, 1));
        vectors.push((-1, 2));
        vectors.push((-6, 3));
        vectors.push((-3, 3));
        vectors.push((-7, 6));
        vectors.push((-3, 6));
        vectors.push((-5, 7));
        vectors.push((-1, 7));
        vectors.push((5, -7));
        vectors.push((1, -6));
        vectors.push((6, -5));
        vectors.push((4, -4));
        vectors.push((2, -3));
        vectors.push((7, -2));
        vectors.push((1, -1));
        vectors.push((4, -1));
        vectors.push((2, 1));
        vectors.push((6, 2));
        vectors.push((0, 4));
        vectors.push((4, 4));
        vectors.push((2, 5));
        vectors.push((7, 5));
        vectors.push((5, 6));
        vectors.push((3, 7));
        assert(offsets(vectors@) =~= jitter_table(5));
    }
    vectors
}

/// The numerator of sample `i`'s weight over `64 * count`: `1 / count`, and
/// when unbiased an offset spread evenly over `1 / 32` so that the rounding
/// of the accumulation cancels out rather than piling up.
pub open spec fn weight_numerator(i: int, count: int, unbiased: bool) -> int {
    if unbiased {
        65 - count + 2 * i
    } else {
        64
    }
}

/// A sample's weight as an exact fraction.
#[derive(Clone, Copy, Debug, PartialEq, Eq, Structural)]
pub struct SampleWeight {
    pub numerator: i64,
    pub denominator: i64,
}

/// The weight of sample `i` of `count`: `1 / count + (1 / 32) * (-1/2 +
/// (i + 1/2) / count)` when unbiased, `1 / count` otherwise, over the
/// common denominator `64 * count`.
pub fn sample_weight(i: usize, count: usize, unbiased: bool) -> (weight: SampleWeight)
    requires
        i <= u32::MAX,
        count <= u32::MAX,
    ensures
        weight.numerator == weight_numerator(i as int, count as int, unbiased),
        weight.denominator == 64 * count,
{
    let i = i as i64;
    let count = count as i64;
    let numerator = if unbiased {
        65 - count + 2 * i
    } else {
        64
    };
    SampleWeight { numerator, denominator: 64 * count }
}

/// The numerators of the first `n` weights of `count`, added up.
pub open spec fn weight_sum(n: nat, count: int, unbiased: bool) -> int
    decreases n,
{
    if n == 0 {
        0
    } else {
        weight_sum((n - 1) as nat, count, unbiased) + weight_numerator(n - 1, count, unbiased)
    }
}

proof fn lemma_weight_sum(n: nat, count: int, unbiased: bool)
    ensures
        weight_sum(n, count, unbiased) == if unbiased {
            n * (65 - count) + n * (n - 1)
        } else {
            64 * n as int
        },
    decreases n,
{
    if n > 0 {
        let m = (n - 1) as nat;
        lemma_weight_sum(m, count, unbiased);
        assert(weight_sum(n, count, unbiased) == weight_sum(m, count, unbiased) + weight_numerator(
            m as int,
            count,
            unbiased,
        ));
        assert(n * (65 - count) == m * (65 - count) + (65 - count)) by (nonlinear_arith)
            requires n == m + 1;
        assert(n * (n - 1) == m * (m - 1) + 2 * m) by (nonlinear_arith)
            requires n == m + 1;
        assert(64 * n == 64 * m + 64) by (nonlinear_arith)
            requires n == m + 1;
    } else {
        assert(n * (65 - count) + n * (n - 1) == 0) by (nonlinear_arith)
            requires n == 0;
    }
}

/// The weights of a frame's samples add up to exactly one, biased or not,
/// so the accumulator ends the frame as an ordinary colour at full alpha.
pub proof fn the_weights_sum_to_one(count: nat, unbiased: bool)
    ensures
        weight_sum(count, count as int, unbiased) == 64 * count,
{
    lemma_weight_sum(count, count as int, unbiased);
    assert(count * (65 - count) + count * (count - 1) == 64 * count) by (nonlinear_arith);
}

/// Unbiased weights rise evenly, by `2 / (64 * count)` from one sample to
/// the next, and are balanced around the plain `1 / count`: the first and
/// the last add up to twice it. Biased weights are all `1 / count`.
pub proof fn unbiased_weights_rise_evenly_around_the_mean(count: int, i: int)
    requires
        1 <= count,
        0 <= i < count,
    ensures
        i + 1 < count ==> weight_numerator(i + 1, count, true) - weight_numerator(i, count, true) == 2,
        weight_numerator(0, count, true) + weight_numerator(count - 1, count, true) == 2 * 64,
        weight_numerator(i, count, false) == 64,
{
}

/// One step of a supersampled frame.
#[derive(Clone, Copy, Debug, PartialEq, Eq, Structural)]
pub enum SsaaStep {
    /// Shift the camera's view by `x`, `y` sixteenths of a pixel.
    Jitter { x: i8, y: i8 },
    /// Weigh the next accumulation by `numerator / denominator`.
    Weight { numerator: i64, denominator: i64 },
    /// Clear the sample target.
    ClearSample,
    /// Render the scene into the sample target.
    RenderScene,
    /// Clear the accumulator to transparent black.
    ClearAccumulator,
    /// Add the weighted sample into the accumulator.
    Accumulate,
}

/// The steps of sample `i` of `count`, at jitter offset `offset`: shift the
/// view, set the weight, clear the sample target and render into it, then
/// (the first time only) clear the accumulator, and accumulate.
pub open spec fn sample_steps(offset: (int, int), i: int, count: int, unbiased: bool) -> Seq<SsaaStep> {
    let head = seq![
        SsaaStep::Jitter { x: offset.0 as i8, y: offset.1 as i8 },
        SsaaStep::Weight {
            numerator: weight_numerator(i, count, unbiased) as i64,
            denominator: (64 * count) as i64,
        },
        SsaaStep::ClearSample,
        SsaaStep::RenderScene,
    ];
    if i == 0 {
        head.push(SsaaStep::ClearAccumulator).push(SsaaStep::Accumulate)
    } else {
        head.push(SsaaStep::Accumulate)
    }
}

/// The steps of the first `n` samples of a frame with jitter `table`.
pub open spec fn frame_steps(table: Seq<(int, int)>, n: nat, unbiased: bool) -> Seq<SsaaStep>
    decreases n,
{
    if n == 0 {
        Seq::empty()
    } else {
        frame_steps(table, (n - 1) as nat, unbiased) + sample_steps(
            table[n - 1],
            n - 1,
            table.len() as int,
            unbiased,
        )
    }
}

/// The level a sample level is clamped to.
pub open spec fn clamped_level(sample_level: usize) -> nat {
    if sample_level < 5 {
        sample_level as nat
    } else {
        5
    }
}

/// The steps of a supersampled frame at `sample_level`, in order: for each
/// jitter offset, shift the view and set the weight, clear the sample target
/// and render the scene into it, and add it into the accumulator, which is
/// cleared only in the first sample, just before its first accumulation.
pub fn ssaa_steps(sample_level: usize, unbiased: bool) -> (steps: Vec<SsaaStep>)
    ensures
        steps@ == frame_steps(jitter_table(clamped_level(sample_level)), jitter_table(clamped_level(sample_level)).len(), unbiased),
{
    let jitter = jitter_vectors(sample_level);
    let ghost table = jitter_table(clamped_level(sample_level));
    proof {
        jitter_tables_have_power_of_two_sizes(clamped_level(sample_level));
    }
    let count = jitter.len();
    let mut steps: Vec<SsaaStep> = Vec::new();
    let mut i: usize = 0;
    while i < count
        invariant
            count == jitter@.len(),
            offsets(jitter@) == table,
            table.len() <= 32,
            i <= count,
            steps@ == frame_steps(table, i as nat, unbiased),
        decreases count - i,
    {
        let (x, y) = jitter[i];
        let weight = sample_weight(i, count, unbiased);
        let ghost before = steps@;
        steps.push(SsaaStep::Jitter { x, y });
        steps.push(SsaaStep::Weight { numerator: weight.numerator, denominator: weight.denominator });
        steps.push(SsaaStep::ClearSample);
        steps.push(SsaaStep::RenderScene);
        if i == 0 {
            steps.push(SsaaStep::ClearAccumulator);
        }
        steps.push(SsaaStep::Accumulate);
        proof {
            assert(table[i as int] == (x as int, y as int));
            assert(steps@ =~= before + sample_steps(table[i as int], i as int, count as int, unbiased));
        }
        i = i + 1;
    }
    steps
}

/// Every jitter table has `2^level` offsets.
pub proof fn jitter_tables_have_power_of_two_sizes(level: nat)
    requires
        level <= 5,
    ensures
        jitter_table(level).len() == vstd::arithmetic::power2::pow2(level),
        jitter_table(level).len() <= 32,
{
    vstd::arithmetic::power2::lemma2_to64();
}

/// Whether no two offsets of `table` are the same.
pub open spec fn offsets_distinct(table: Seq<(int, int)>) -> bool {
    forall|i: int, j: int| 0 <= i < j < table.len() ==> #[trigger] table[i] != #[trigger] table[j]
}

/// Whether no two offsets of `table` share a column or a row.
pub open spec fn one_per_row_and_column(table: Seq<(int, int)>) -> bool {
    forall|i: int, j: int|
        0 <= i < j < table.len() ==> (#[trigger] table[i]).0 != (#[trigger] table[j]).0 && table[i].1 != table[j].1
}

/// Whether every offset of `table` lies in the sixteenths of a pixel from
/// -8 to 7 on both axes.
pub open spec fn within_the_pixel(table: Seq<(int, int)>) -> bool {
    forall|i: int| 0 <= i < table.len() ==> -8 <= (#[trigger] table[i]).0 <= 7 && -8 <= table[i].1 <= 7
}

/// Where offset `x` stands among the columns of the pattern of `level`
/// (1 to 4), or -1.
spec fn column_of(level: nat, x: int) -> int {
    if level == 1 {
        if x == 4 { 0 } else if x == -4 { 1 } else { -1 }
    } else if level == 2 {
        if x == -2 { 0 } else if x == 6 { 1 } else if x == -6 { 2 } else if x == 2 { 3 } else { -1 }
    } else if level == 3 {
        if x == 1 { 0 } else if x == -1 { 1 } else if x == 5 { 2 } else if x == -3 { 3 } else if x == -5 { 4 } else if x == -7 { 5 } else if x == 3 { 6 } else if x == 7 { 7 } else { -1 }
    } else if level == 4 {
        if x == 1 { 0 } else if x == -1 { 1 } else if x == -3 { 2 } else if x == 4 { 3 } else if x == -5 { 4 } else if x == 2 { 5 } else if x == 5 { 6 } else if x == 3 { 7 } else if x == -2 { 8 } else if x == 0 { 9 } else if x == -4 { 10 } else if x == -6 { 11 } else if x == -8 { 12 } else if x == 7 { 13 } else if x == 6 { 14 } else if x == -7 { 15 } else { -1 }
    } else if level == 5 {
        -1
    } else {
        -1
    }
}

/// Where offset `y` stands among the rows of the pattern of `level` (1 to
/// 4), or -1.
spec fn row_of(level: nat, y: int) -> int {
    if level == 1 {
        if y == 4 { 0 } else if y == -4 { 1 } else { -1 }
    } else if level == 2 {
        if y == -6 { 0 } else if y == -2 { 1 } else if y == 2 { 2 } else if y == 6 { 3 } else { -1 }
    } else if level == 3 {
        if y == -3 { 0 } else if y == 3 { 1 } else if y == 1 { 2 } else if y == -5 { 3 } else if y == 5 { 4 } else if y == -1 { 5 } else if y == 7 { 6 } else if y == -7 { 7 } else { -1 }
    } else if level == 4 {
        if y == 1 { 0 } else if y == -3 { 1 } else if y == 2 { 2 } else if y == -1 { 3 } else if y == -2 { 4 } else if y == 5 { 5 } else if y == 3 { 6 } else if y == -5 { 7 } else if y == 6 { 8 } else if y == -7 { 9 } else if y == -6 { 10 } else if y == 4 { 11 } else if y == 0 { 12 } else if y == -4 { 13 } else if y == 7 { 14 } else if y == -8 { 15 } else { -1 }
    } else if level == 5 {
        -1
    } else {
        -1
    }
}

/// Where offset `(x, y)` stands in the pattern of 32 samples, or -1.
spec fn position_of_offset(x: int, y: int) -> int {
    if x == -4 && y == -7 {
        0
    } else if x == -7 && y == -5 {
        1
    } else if x == -3 && y == -5 {
        2
    } else if x == -5 && y == -4 {
        3
    } else if x == -1 && y == -4 {
        4
    } else if x == -2 && y == -2 {
        5
    } else if x == -6 && y == -1 {
        6
    } else if x == -4 && y == 0 {
        7
    } else if x == -7 && y == 1 {
        8
    } else if x == -1 && y == 2 {
        9
    } else if x == -6 && y == 3 {
        10
    } else if x == -3 && y == 3 {
        11
    } else if x == -7 && y == 6 {
        12
    } else if x == -3 && y == 6 {
        13
    } else if x == -5 && y == 7 {
        14
    } else if x == -1 && y == 7 {
        15
    } else if x == 5 && y == -7 {
        16
    } else if x == 1 && y == -6 {
        17
    } else if x == 6 && y == -5 {
        18
    } else if x == 4 && y == -4 {
        19
    } else if x == 2 && y == -3 {
        20
    } else if x == 7 && y == -2 {
        21
    } else if x == 1 && y == -1 {
        22
    } else if x == 4 && y == -1 {
        23
    } else if x == 2 && y == 1 {
        24
    } else if x == 6 && y == 2 {
        25
    } else if x == 0 && y == 4 {
        26
    } else if x == 4 && y == 4 {
        27
    } else if x == 2 && y == 5 {
        28
    } else if x == 7 && y == 5 {
        29
    } else if x == 5 && y == 6 {
        30
    } else if x == 3 && y == 7 {
        31
    } else {
        -1
    }
}

/// Each offset of a pattern is found again at its own place: by its column
/// and by its row up to sixteen samples, by both beyond; and it lies inside
/// the pixel.
proof fn lemma_offsets_found_again(level: nat, i: int)
    requires
        level <= 5,
        0 <= i < jitter_table(level).len(),
    ensures
        1 <= level <= 4 ==> column_of(level, jitter_table(level)[i].0) == i && row_of(level, jitter_table(level)[i].1) == i,
        level == 5 ==> position_of_offset(jitter_table(level)[i].0, jitter_table(level)[i].1) == i,
        -8 <= jitter_table(level)[i].0 <= 7 && -8 <= jitter_table(level)[i].1 <= 7,
{
    if i == 0 {
    } else if i == 1 {
    } else if i == 2 {
    } else if i == 3 {
    } else if i == 4 {
    } else if i == 5 {
    } else if i == 6 {
    } else if i == 7 {
    } else if i == 8 {
    } else if i == 9 {
    } else if i == 10 {
    } else if i == 11 {
    } else if i == 12 {
    } else if i == 13 {
    } else if i == 14 {
    } else if i == 15 {
    } else if i == 16 {
    } else if i == 17 {
    } else if i == 18 {
    } else if i == 19 {
    } else if i == 20 {
    } else if i == 21 {
    } else if i == 22 {
    } else if i == 23 {
    } else if i == 24 {
    } else if i == 25 {
    } else if i == 26 {
    } else if i == 27 {
    } else if i == 28 {
    } else if i == 29 {
    } else if i == 30 {
    } else if i == 31 {
    }
}

/// Every jitter pattern samples as many distinct positions as it has
/// offsets, all inside the pixel; up to sixteen samples no two share a row
/// or a column of the pixel's sixteenths.
pub proof fn jitter_patterns_sample_distinct_positions(level: nat)
    requires
        level <= 5,
    ensures
        offsets_distinct(jitter_table(level)),
        within_the_pixel(jitter_table(level)),
        1 <= level <= 4 ==> one_per_row_and_column(jitter_table(level)),
{
    let t = jitter_table(level);
    assert forall|i: int| 0 <= i < t.len() implies -8 <= (#[trigger] t[i]).0 <= 7 && -8 <= t[i].1 <= 7 by {
        lemma_offsets_found_again(level, i);
    }
    assert forall|i: int, j: int| 0 <= i < j < t.len() implies #[trigger] t[i] != #[trigger] t[j] && (1 <= level <= 4 ==> t[i].0 != t[j].0 && t[i].1 != t[j].1) by {
        lemma_offsets_found_again(level, i);
        lemma_offsets_found_again(level, j);
    }
}

proof fn lemma_frame_steps(table: Seq<(int, int)>, n: nat, unbiased: bool)
    requires
        1 <= n <= table.len(),
    ensures
        frame_steps(table, n, unbiased).len() == 5 * n + 1,
        forall|k: int|
            0 <= k < 6 ==> #[trigger] frame_steps(table, n, unbiased)[k] == sample_steps(
                table[0],
                0,
                table.len() as int,
                unbiased,
            )[k],
        forall|k: int|
            6 <= k < frame_steps(table, n, unbiased).len() ==> #[trigger] frame_steps(table, n, unbiased)[k]
                != SsaaStep::ClearAccumulator,
    decreases n,
{
    let steps = frame_steps(table, n, unbiased);
    if n == 1 {
        assert(frame_steps(table, 0, unbiased) =~= Seq::<SsaaStep>::empty());
        assert(steps =~= sample_steps(table[0], 0, table.len() as int, unbiased));
    } else {
        let m = (n - 1) as nat;
        lemma_frame_steps(table, m, unbiased);
        let prefix = frame_steps(table, m, unbiased);
        let last = sample_steps(table[n - 1], n - 1, table.len() as int, unbiased);
        assert(steps == prefix + last);
        assert(last.len() == 5);
        assert forall|k: int| 6 <= k < steps.len() implies #[trigger] steps[k] != SsaaStep::ClearAccumulator by {
            if k < prefix.len() {
                assert(steps[k] == prefix[k]);
            } else {
                assert(steps[k] == last[k - prefix.len()]);
            }
        }
        assert forall|k: int| 0 <= k < 6 implies #[trigger] steps[k] == sample_steps(
            table[0],
            0,
            table.len() as int,
            unbiased,
        )[k] by {
            assert(steps[k] == prefix[k]);
        }
    }
}

/// In a frame, the accumulator is cleared exactly once: in the first
/// sample, after its scene is rendered and just before the first
/// accumulation, so nothing of an earlier frame is added to and nothing of
/// this one is lost. A frame of `n` samples takes `5 n + 1` steps.
pub proof fn the_accumulator_is_cleared_once_before_the_first_sample(table: Seq<(int, int)>, unbiased: bool)
    requires
        table.len() >= 1,
    ensures
        ({
            let steps = frame_steps(table, table.len(), unbiased);
            &&& steps.len() == 5 * table.len() + 1
            &&& steps[3] == SsaaStep::RenderScene
            &&& steps[4] == SsaaStep::ClearAccumulator
            &&& steps[5] == SsaaStep::Accumulate
            &&& forall|k: int| 0 <= k < 5 ==> #[trigger] steps[k] != SsaaStep::Accumulate
            &&& forall|k: int|
                0 <= k < steps.len() && k != 4 ==> #[trigger] steps[k] != SsaaStep::ClearAccumulator
        }),
{
    lemma_frame_steps(table, table.len(), unbiased);
    let steps = frame_steps(table, table.len(), unbiased);
    let first = sample_steps(table[0], 0, table.len() as int, unbiased);
    assert(steps[3] == first[3]);
    assert(steps[4] == first[4]);
    assert(steps[5] == first[5]);
    assert forall|k: int| 0 <= k < 5 implies #[trigger] steps[k] != SsaaStep::Accumulate by {
        assert(steps[k] == first[k]);
    }
    assert forall|k: int| 0 <= k < steps.len() && k != 4 implies #[trigger] steps[k] != SsaaStep::ClearAccumulator by {
        if k < 6 {
            assert(steps[k] == first[k]);
        }
    }
}

} // verus!
