use vstd::prelude::*;

verus! {

/// Largest number of rating points that change hands in one game.
pub const K_FACTOR: i64 = 32;

/// Rating of a player on first appearance.
pub const STARTING_RATING: i64 = 1000;

/// Points a player gains from a win, as a function of `d`, the opponent's
/// rating minus the player's own.
///
/// This is `round(K * (1 - E))` with `K = 32` and `E = 1 / (1 + 10^(d / 400))`,
/// the player's expected score. Each branch starts at the smallest integer
/// difference at which that real value reaches the branch's count. At an integer
/// difference the real value is never halfway between two integers, so the
/// rounding rule never has to break a tie.
pub open spec fn win_gain(d: int) -> int {
    if d >= 720 {
        32
    } else if d >= 524 {
        31
    } else if d >= 429 {
        30
    } else if d >= 365 {
        29
    } else if d >= 315 {
        28
    } else if d >= 274 {
        27
    } else if d >= 238 {
        26
    } else if d >= 206 {
        25
    } else if d >= 177 {
        24
    } else if d >= 150 {
        23
    } else if d >= 125 {
        22
    } else if d >= 101 {
        21
    } else if d >= 78 {
        20
    } else if d >= 55 {
        19
    } else if d >= 33 {
        18
    } else if d >= 11 {
        17
    } else if d >= -10 {
        16
    } else if d >= -32 {
        15
    } else if d >= -54 {
        14
    } else if d >= -77 {
        13
    } else if d >= -100 {
        12
    } else if d >= -124 {
        11
    } else if d >= -149 {
        10
    } else if d >= -176 {
        9
    } else if d >= -205 {
        8
    } else if d >= -237 {
        7
    } else if d >= -273 {
        6
    } else if d >= -314 {
        5
    } else if d >= -364 {
        4
    } else if d >= -428 {
        3
    } else if d >= -523 {
        2
    } else if d >= -719 {
        1
    } else {
        0
    }
}

/// Change of a player's rating after one game: `round(K * (S - E))`, where the
/// actual score `S` is `half_points / 2` (2 for a win, 1 for a draw, 0 for a loss).
/// Since `K * (1 - S)` is a whole number, this is `win_gain(d) - K * (1 - S)`.
pub open spec fn score_change(own: int, opponent: int, half_points: int) -> int {
    win_gain(opponent - own) - (K_FACTOR / 2) * (2 - half_points)
}

/// A rating held in an `i64`. Ratings have no floor and may go negative; only at the
/// bounds of `i64` does a rating stop, at the bound it would cross.
pub open spec fn fit_rating(r: int) -> int {
    if r < i64::MIN {
        i64::MIN as int
    } else if r > i64::MAX {
        i64::MAX as int
    } else {
        r
    }
}

/// Ratings of the first and the second player after a game that the first won, or
/// that ended in a draw. Each side is rounded on its own.
pub open spec fn new_ratings(ra: int, rb: int, is_draw: bool) -> (int, int) {
    let (ha, hb) = if is_draw { (1int, 1int) } else { (2int, 0int) };
    (fit_rating(ra + score_change(ra, rb, ha)), fit_rating(rb + score_change(rb, ra, hb)))
}

/// A win against an opponent `d` points above, and a win against one `d` points
/// below, together give exactly `K` points.
pub proof fn lemma_win_gain_symmetric(d: int)
    ensures
        win_gain(d) + win_gain(-d) == 32,
        0 <= win_gain(d) <= 32,
{
}

/// A decisive game is zero-sum: what the winner gains the loser loses, so the sum
/// of the two ratings is kept exactly (as long as neither rating reaches a bound of
/// `i64`). Ratings may go below zero for this.
pub proof fn lemma_decisive_zero_sum(ra: int, rb: int)
    requires
        i64::MIN + 32 <= ra <= i64::MAX - 32,
        i64::MIN + 32 <= rb <= i64::MAX - 32,
    ensures
        new_ratings(ra, rb, false).0 + new_ratings(ra, rb, false).1 == ra + rb,
{
    lemma_win_gain_symmetric(rb - ra);
    assert(ra - rb == -(rb - ra));
}

/// A draw is zero-sum too: what one player gains the other loses (as long as
/// neither rating reaches a bound of `i64`).
pub proof fn lemma_draw_zero_sum(ra: int, rb: int)
    requires
        i64::MIN + 32 <= ra <= i64::MAX - 32,
        i64::MIN + 32 <= rb <= i64::MAX - 32,
    ensures
        new_ratings(ra, rb, true).0 + new_ratings(ra, rb, true).1 == ra + rb,
{
    lemma_win_gain_symmetric(rb - ra);
    assert(ra - rb == -(rb - ra));
}

/// A draw between two players of equal rating leaves both ratings unchanged.
pub proof fn lemma_even_draw_unchanged(r: int)
    requires
        i64::MIN <= r <= i64::MAX,
    ensures
        new_ratings(r, r, true) == (r, r),
{
}

/// The gain of a win against an opponent `d` points above the player.
fn win_gain_exec(d: i64) -> (g: i64)
    ensures
        g == win_gain(d as int),
{
    if d >= 720 {
        32
    } else if d >= 524 {
        31
    } else if d >= 429 {
        30
    } else if d >= 365 {
        29
    } else if d >= 315 {
        28
    } else if d >= 274 {
        27
    } else if d >= 238 {
        26
    } else if d >= 206 {
        25
    } else if d >= 177 {
        24
    } else if d >= 150 {
        23
    } else if d >= 125 {
        22
    } else if d >= 101 {
        21
    } else if d >= 78 {
        20
    } else if d >= 55 {
        19
    } else if d >= 33 {
        18
    } else if d >= 11 {
        17
    } else if d >= -10 {
        16
    } else if d >= -32 {
        15
    } else if d >= -54 {
        14
    } else if d >= -77 {
        13
    } else if d >= -100 {
        12
    } else if d >= -124 {
        11
    } else if d >= -149 {
        10
    } else if d >= -176 {
        9
    } else if d >= -205 {
        8
    } else if d >= -237 {
        7
    } else if d >= -273 {
        6
    } else if d >= -314 {
        5
    } else if d >= -364 {
        4
    } else if d >= -428 {
        3
    } else if d >= -523 {
        2
    } else if d >= -719 {
        1
    } else {
        0
    }
}

/// The rating difference `opponent - own`, cut to `[-1000, 1000]`, a range
/// outside which the gain no longer changes.
fn capped_difference(own: i64, opponent: i64) -> (d: i64)
    ensures
        win_gain(d as int) == win_gain(opponent as int - own as int),
{
    let diff = opponent as i128 - own as i128;
    if diff > 1000 {
        1000
    } else if diff < -1000 {
        -1000
    } else {
        diff as i64
    }
}

/// `rating + change`, stopping at the bounds of `i64`.
fn apply_change(rating: i64, change: i64) -> (r: i64)
    requires
        -64 <= change <= 64,
    ensures
        r == fit_rating(rating + change),
{
    if change >= 0 && rating > i64::MAX - change {
        i64::MAX
    } else if change < 0 && rating < i64::MIN - change {
        i64::MIN
    } else {
        rating + change
    }
}

/// New ratings of two players after a game: the first player won when `is_draw` is
/// false, else it was a draw.
pub fn compute_new_ratings(ra: i64, rb: i64, is_draw: bool) -> (r: (i64, i64))
    ensures
        r.0 == new_ratings(ra as int, rb as int, is_draw).0,
        r.1 == new_ratings(ra as int, rb as int, is_draw).1,
{
    let (ha, hb): (i64, i64) = if is_draw {
        (1, 1)
    } else {
        (2, 0)
    };
    let change_a = win_gain_exec(capped_difference(ra, rb)) - (K_FACTOR / 2) * (2 - ha);
    let change_b = win_gain_exec(capped_difference(rb, ra)) - (K_FACTOR / 2) * (2 - hb);
    (apply_change(ra, change_a), apply_change(rb, change_b))
}

} // verus!
