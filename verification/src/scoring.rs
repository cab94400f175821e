//! Scoring and pacing: what a line clear is worth, the level a score has
//! reached, and how fast pieces fall at a level.

use vstd::prelude::*;
use vstd::arithmetic::power2::{
    lemma2_to64, lemma_pow2_strictly_increases, lemma_pow2_unfold, pow2,
};

verus! {

/// Points for clearing a single row.
pub const BASE_BONUS: u32 = 100;

/// The level a new game starts at.
pub const BASE_LEVEL: u32 = 1;

/// Milliseconds between automatic descents at the first level.
pub const BASE_SPEED: u32 = 300;

/// The highest score that is kept. A score that would pass it stays there.
pub const MAX_SCORE: u32 = u32::MAX;

/// Points for clearing `rows` rows at once: nothing for none, then 100,
/// 200, 400, 800, doubling with every further row.
pub open spec fn clear_bonus(rows: nat) -> nat {
    if rows == 0 {
        0
    } else {
        100 * pow2((rows - 1) as nat)
    }
}

/// The score after `rows` rows were cleared at once, held at [`MAX_SCORE`].
pub open spec fn awarded(score: nat, rows: nat) -> nat {
    if score + clear_bonus(rows) > MAX_SCORE {
        MAX_SCORE as nat
    } else {
        score + clear_bonus(rows)
    }
}

/// The level reached with a score: 1 up to 1000 points, 2 up to 3000,
/// 3 up to 5000, 4 up to 7000, and 5 beyond.
pub open spec fn level_for(score: nat) -> nat {
    if score <= 1000 {
        1
    } else if score <= 3000 {
        2
    } else if score <= 5000 {
        3
    } else if score <= 7000 {
        4
    } else {
        5
    }
}

/// The least time between automatic descents at a level, in milliseconds.
pub open spec fn speed_for(level: nat) -> nat {
    if level <= 1 {
        300
    } else if level == 2 {
        200
    } else if level == 3 {
        100
    } else if level == 4 {
        50
    } else {
        20
    }
}

/// The concrete bonuses for one to four rows.
pub proof fn lemma_clear_bonus_values()
    ensures
        clear_bonus(0) == 0,
        clear_bonus(1) == 100,
        clear_bonus(2) == 200,
        clear_bonus(3) == 400,
        clear_bonus(4) == 800,
{
    lemma_pow2_small();
}

/// The powers of two below the fourth.
proof fn lemma_pow2_small()
    ensures
        pow2(0) == 1,
        pow2(1) == 2,
        pow2(2) == 4,
        pow2(3) == 8,
{
    lemma2_to64();
}

/// A higher score never lowers the level, and a higher level never slows
/// the fall.
pub proof fn lemma_pacing_monotonic(low: nat, high: nat)
    requires
        low <= high,
    ensures
        level_for(low) <= level_for(high),
        speed_for(level_for(low)) >= speed_for(level_for(high)),
        speed_for(low) >= speed_for(high),
{
}

/// A line clear never lowers the score.
pub proof fn lemma_award_grows(score: nat, rows: nat)
    requires
        score <= MAX_SCORE,
    ensures
        score <= awarded(score, rows) <= MAX_SCORE,
        rows == 0 ==> awarded(score, rows) == score,
{
}

/// The score after `rows` rows were cleared at once: for one row or more,
/// `100 * 2^(rows - 1)` points are added. The score never passes
/// [`MAX_SCORE`].
pub fn award(score: u32, rows: usize) -> (total: u32)
    ensures
        total == awarded(score as nat, rows as nat),
{
    if rows == 0 {
        return score;
    }
    let limit: u64 = MAX_SCORE as u64;
    let mut bonus: u64 = BASE_BONUS as u64;
    let mut done: usize = 1;
    proof {
        lemma_pow2_small();
    }
    while done < rows && bonus <= limit
        invariant
            1 <= done <= rows,
            limit == MAX_SCORE,
            bonus == clear_bonus(done as nat),
            bonus <= 2 * limit,
        decreases rows - done,
    {
        proof {
            lemma_pow2_unfold(done as nat);
        }
        bonus = bonus * 2;
        done = done + 1;
    }
    proof {
        if done < rows {
            lemma_pow2_strictly_increases((done - 1) as nat, (rows - 1) as nat);
            assert(clear_bonus(rows as nat) > clear_bonus(done as nat)) by (nonlinear_arith)
                requires
                    pow2((done - 1) as nat) < pow2((rows - 1) as nat),
                    clear_bonus(rows as nat) == 100 * pow2((rows - 1) as nat),
                    clear_bonus(done as nat) == 100 * pow2((done - 1) as nat),
            ;
        }
    }
    let sum: u64 = score as u64 + bonus;
    if sum > limit {
        MAX_SCORE
    } else {
        sum as u32
    }
}

/// The level reached with a score.
pub fn derived_level(score: u32) -> (level: u32)
    ensures
        level == level_for(score as nat),
        1 <= level <= 5,
{
    if score <= 1_000 {
        1
    } else if score <= 3_000 {
        2
    } else if score <= 5_000 {
        3
    } else if score <= 7_000 {
        4
    } else {
        5
    }
}

/// The least time between automatic descents at a level, in milliseconds.
pub fn derived_speed(level: u32) -> (speed: u32)
    ensures
        speed == speed_for(level as nat),
        20 <= speed <= 300,
{
    if level <= 1 {
        300
    } else if level == 2 {
        200
    } else if level == 3 {
        100
    } else if level == 4 {
        50
    } else {
        20
    }
}

} // verus!
