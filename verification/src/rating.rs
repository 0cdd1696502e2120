//! The paired-context rating model: one integer skill value per
//! (team, context), a logistic win-probability table, and the zero-sum
//! update rule.  Ratings are fixed-point values in thousandths of a rating
//! point; probabilities are fixed-point values in parts per million.

use vstd::prelude::*;
use crate::schedule::{SflRecord, SflStage};
use crate::team::{SflRatingSetting, SflTeam};

verus! {

/// The baseline rating every (team, context) pair starts from.
pub const INITIAL_RATING: i64 = 1500000;

/// Probabilities are parts of this scale.
pub const PROB_SCALE: i64 = 1000000;

/// The learning rate of the update rule, in rating thousandths.
pub const K_FACTOR: i64 = 16000;

/// Ratings handed to the probability and update functions must stay within
/// this bound; the fit pass keeps them far inside it.
pub const RATING_BOUND: i64 = 1000000000000;

/// The logistic curve sampled every 50 rating points: entry `k` is the win
/// probability, in parts per million, of a side rated `50 * k` points below
/// its opponent.
pub open spec fn prob_table(k: int) -> int {
    if k <= 0 {
        500000
    } else if k == 1 {
        428550
    } else if k == 2 {
        359935
    } else if k == 3 {
        296637
    } else if k == 4 {
        240253
    } else if k == 5 {
        191687
    } else if k == 6 {
        150980
    } else if k == 7 {
        117648
    } else if k == 8 {
        90909
    } else if k == 9 {
        69764
    } else if k == 10 {
        53239
    } else if k == 11 {
        40463
    } else if k == 12 {
        30653
    } else if k == 13 {
        23165
    } else if k == 14 {
        17475
    } else if k == 15 {
        13160
    } else {
        9901
    }
}

/// The win probability of the side rated `d >= 0` thousandths below its
/// opponent: the table value at floor(d / 50000), interpolated linearly
/// toward the next entry, and clamped at 800 points of difference.
pub open spec fn under_prob(d: int) -> int {
    if d >= 800000 {
        prob_table(16)
    } else {
        prob_table(d / 50000) - ((prob_table(d / 50000) - prob_table(d / 50000 + 1)) * (d % 50000))
            / 50000
    }
}

/// The win probability of a side rated `a` against a side rated `b`, in
/// parts per million.
pub open spec fn win_prob_spec(a: int, b: int) -> int {
    if b >= a {
        under_prob(b - a)
    } else {
        (PROB_SCALE as int) - under_prob(a - b)
    }
}

/// How many rating thousandths the update rule moves both sides by.
pub open spec fn rating_delta(a: int, b: int, a_win: bool) -> int {
    if a_win {
        ((K_FACTOR as int) * ((PROB_SCALE as int) - win_prob_spec(a, b))) / (PROB_SCALE as int)
    } else {
        ((K_FACTOR as int) * win_prob_spec(a, b)) / (PROB_SCALE as int)
    }
}

/// The ratings after one game between sides rated `a` and `b`: the winner
/// gains the probability-weighted surprise, the loser loses exactly as much.
pub open spec fn updated_ratings(a: int, b: int, a_win: bool) -> (int, int) {
    if a_win {
        (a + rating_delta(a, b, a_win), b - rating_delta(a, b, a_win))
    } else {
        (a - rating_delta(a, b, a_win), b + rating_delta(a, b, a_win))
    }
}

/// The rating update is zero-sum: no game creates or destroys rating mass.
pub proof fn lemma_update_zero_sum(a: int, b: int, a_win: bool)
    ensures
        updated_ratings(a, b, a_win).0 + updated_ratings(a, b, a_win).1 == a + b,
{
}

/// The two win probabilities of one pairing complement each other exactly,
/// whichever side is asked about first.
pub proof fn lemma_win_probability_symmetry(a: int, b: int)
    ensures
        win_prob_spec(a, b) + win_prob_spec(b, a) == PROB_SCALE as int,
{
    if a == b {
        assert(0int / 50000 == 0) by (nonlinear_arith);
        assert(0int % 50000 == 0) by (nonlinear_arith);
        assert((prob_table(0) - prob_table(1)) * 0 == 0) by (nonlinear_arith);
        assert(0int / 50000 == 0 && 0int % 50000 == 0 ==> under_prob(0) == 500000 - ((prob_table(0)
            - prob_table(1)) * 0) / 50000);
        assert(0int / 50000 == 0) by (nonlinear_arith);
        assert(under_prob(0) == 500000);
    }
}

/// The interpolated table value stays strictly inside the open unit
/// interval.
proof fn lemma_under_prob_bounds(d: int)
    requires
        d >= 0,
    ensures
        9901 <= under_prob(d) <= 500000,
{
    if d < 800000 {
        let k = d / 50000;
        let f = d % 50000;
        assert(0 <= k < 16);
        assert(0 <= f < 50000);
        let hi = prob_table(k);
        let lo = prob_table(k + 1);
        assert(lo <= hi);
        let step = ((hi - lo) * f) / 50000;
        assert(step >= 0) by {
            assert((hi - lo) * f >= 0) by (nonlinear_arith)
                requires
                    hi - lo >= 0,
                    f >= 0,
            ;
        }
        assert(step <= hi - lo) by {
            assert((hi - lo) * f <= (hi - lo) * 50000) by (nonlinear_arith)
                requires
                    hi - lo >= 0,
                    0 <= f < 50000,
            ;
        }
    }
}

/// The probability table as an executable lookup.
fn prob_table_at(k: u64) -> (p: u64)
    ensures
        p == prob_table(k as int),
        9901 <= p <= 500000,
{
    if k == 0 {
        500000
    } else if k == 1 {
        428550
    } else if k == 2 {
        359935
    } else if k == 3 {
        296637
    } else if k == 4 {
        240253
    } else if k == 5 {
        191687
    } else if k == 6 {
        150980
    } else if k == 7 {
        117648
    } else if k == 8 {
        90909
    } else if k == 9 {
        69764
    } else if k == 10 {
        53239
    } else if k == 11 {
        40463
    } else if k == 12 {
        30653
    } else if k == 13 {
        23165
    } else if k == 14 {
        17475
    } else if k == 15 {
        13160
    } else {
        9901
    }
}

/// The win probability of the weaker side, `d >= 0` thousandths below.
fn under_prob_at(d: i64) -> (p: u64)
    requires
        d >= 0,
    ensures
        p == under_prob(d as int),
        9901 <= p <= 500000,
{
    proof {
        lemma_under_prob_bounds(d as int);
    }
    if d >= 800000 {
        prob_table_at(16)
    } else {
        let k: u64 = (d / 50000) as u64;
        let f: u64 = (d % 50000) as u64;
        let hi = prob_table_at(k);
        let lo = prob_table_at(k + 1);
        assert(lo <= hi);
        let step: u64 = ((hi - lo) * f) / 50000;
        proof {
            assert((hi - lo) * f <= (hi - lo) * 50000 <= 500000 * 50000) by (nonlinear_arith)
                requires
                    0 <= hi - lo <= 500000,
                    0 <= f <= 50000,
            ;
        }
        hi - step
    }
}

/// The win probability of each side of a pairing: `r.0` for the side rated
/// `a_rate`, `r.1` for the side rated `b_rate`.  The two parts always sum
/// to the whole probability scale.
pub fn get_win_percentage(a_rate: i64, b_rate: i64) -> (r: (u64, u64))
    requires
        -RATING_BOUND <= a_rate <= RATING_BOUND,
        -RATING_BOUND <= b_rate <= RATING_BOUND,
    ensures
        r.0 == win_prob_spec(a_rate as int, b_rate as int),
        r.0 + r.1 == PROB_SCALE,
        0 < r.0 < PROB_SCALE,
        0 < r.1 < PROB_SCALE,
{
    if b_rate >= a_rate {
        let p = under_prob_at(b_rate - a_rate);
        (p, (PROB_SCALE as u64) - p)
    } else {
        let p = under_prob_at(a_rate - b_rate);
        ((PROB_SCALE as u64) - p, p)
    }
}

/// One rating update: the winner gains `K * (1 - pWinner)`, the loser loses
/// exactly as much, so the pair's total rating is conserved.
pub fn update_rating(a_rate: i64, b_rate: i64, a_win: bool) -> (r: (i64, i64))
    requires
        -RATING_BOUND <= a_rate <= RATING_BOUND,
        -RATING_BOUND <= b_rate <= RATING_BOUND,
    ensures
        (r.0 as int, r.1 as int) == updated_ratings(a_rate as int, b_rate as int, a_win),
        r.0 + r.1 == a_rate + b_rate,
        r.0 - a_rate <= K_FACTOR && a_rate - r.0 <= K_FACTOR,
{
    let (pa, _) = get_win_percentage(a_rate, b_rate);
    if a_win {
        let delta: i64 = ((K_FACTOR as u64) * ((PROB_SCALE as u64) - pa) / (PROB_SCALE as u64))
            as i64;
        proof {
            assert(K_FACTOR * (PROB_SCALE - win_prob_spec(a_rate as int, b_rate as int))
                <= K_FACTOR * PROB_SCALE) by (nonlinear_arith)
                requires
                    0 < PROB_SCALE - win_prob_spec(a_rate as int, b_rate as int) < PROB_SCALE,
                    K_FACTOR == 16000,
                    PROB_SCALE == 1000000,
            ;
            assert(K_FACTOR * (PROB_SCALE - win_prob_spec(a_rate as int, b_rate as int)) >= 0)
                by (nonlinear_arith)
                requires
                    0 < PROB_SCALE - win_prob_spec(a_rate as int, b_rate as int) < PROB_SCALE,
                    K_FACTOR == 16000,
            ;
        }
        (a_rate + delta, b_rate - delta)
    } else {
        let delta: i64 = ((K_FACTOR as u64) * pa / (PROB_SCALE as u64)) as i64;
        proof {
            assert(0 <= K_FACTOR * win_prob_spec(a_rate as int, b_rate as int) <= K_FACTOR
                * PROB_SCALE) by (nonlinear_arith)
                requires
                    0 < win_prob_spec(a_rate as int, b_rate as int) < PROB_SCALE,
                    K_FACTOR == 16000,
                    PROB_SCALE == 1000000,
            ;
        }
        (a_rate - delta, b_rate + delta)
    }
}

// Context keying.  A record's acting side is keyed by home-or-away and by
// the decisive-role flag of its game type: four contexts per team, laid out
// densely as team index * 4 + home bit + 2 * decisive bit.

/// The rating slot of the `team` side of a record.
pub open spec fn rate_index_a(r: SflRecord) -> int {
    r.sfl_match.team.index_spec() * 4 + (if r.sfl_match.is_home {
        1int
    } else {
        0int
    }) + (if r.game_type.is_leader_spec() {
        2int
    } else {
        0int
    })
}

/// The rating slot of the `opponent_team` side of a record.
pub open spec fn rate_index_b(r: SflRecord) -> int {
    r.sfl_match.opponent_team.index_spec() * 4 + (if r.sfl_match.is_home {
        0int
    } else {
        1int
    }) + (if r.game_type.is_leader_spec() {
        2int
    } else {
        0int
    })
}

/// The dense rating slots of a record's two sides under the
/// home-away-and-game-type keying.
pub fn rating_context_indexes(record: &SflRecord) -> (pair: (usize, usize))
    ensures
        pair.0 == rate_index_a(*record),
        pair.1 == rate_index_b(*record),
        pair.0 < 48,
        pair.1 < 48,
{
    let team_index = record.sfl_match.team.get_index() * 4;
    let opponent_team_index = record.sfl_match.opponent_team.get_index() * 4;
    let mut team_mod_index: usize = 0;
    let mut opponent_team_mod_index: usize = 0;
    if record.sfl_match.is_home {
        team_mod_index = team_mod_index + 1;
    } else {
        opponent_team_mod_index = opponent_team_mod_index + 1;
    }
    if record.game_type.is_leader() {
        team_mod_index = team_mod_index + 2;
        opponent_team_mod_index = opponent_team_mod_index + 2;
    }
    (team_index + team_mod_index, opponent_team_index + opponent_team_mod_index)
}

/// The context key pair of a record under each keying scheme, as
/// (team, context tag) pairs.  The tag encodes the scheme and the bits the
/// scheme reads.
pub open spec fn key_pair_spec(setting: SflRatingSetting, r: SflRecord) -> (
    (SflTeam, u8),
    (SflTeam, u8),
) {
    match setting {
        SflRatingSetting::TeamOnly => ((r.sfl_match.team, 0u8), (r.sfl_match.opponent_team, 0u8)),
        SflRatingSetting::HomeAway => if r.sfl_match.is_home {
            ((r.sfl_match.team, 121u8), (r.sfl_match.opponent_team, 120u8))
        } else {
            ((r.sfl_match.team, 120u8), (r.sfl_match.opponent_team, 121u8))
        },
        SflRatingSetting::GameType => if r.game_type.is_leader_spec() {
            ((r.sfl_match.team, 112u8), (r.sfl_match.opponent_team, 112u8))
        } else {
            ((r.sfl_match.team, 102u8), (r.sfl_match.opponent_team, 102u8))
        },
        SflRatingSetting::HomeAwayGameType => if r.sfl_match.is_home {
            if r.game_type.is_leader_spec() {
                ((r.sfl_match.team, 111u8), (r.sfl_match.opponent_team, 110u8))
            } else {
                ((r.sfl_match.team, 101u8), (r.sfl_match.opponent_team, 100u8))
            }
        } else {
            if r.game_type.is_leader_spec() {
                ((r.sfl_match.team, 110u8), (r.sfl_match.opponent_team, 111u8))
            } else {
                ((r.sfl_match.team, 100u8), (r.sfl_match.opponent_team, 101u8))
            }
        },
    }
}

/// The context key pair of a record under the chosen keying scheme.
pub fn rating_key_pair(setting: &SflRatingSetting, record: &SflRecord) -> (pair: (
    (SflTeam, u8),
    (SflTeam, u8),
))
    ensures
        pair == key_pair_spec(*setting, *record),
{
    let team = record.sfl_match.team;
    let opponent = record.sfl_match.opponent_team;
    match setting {
        SflRatingSetting::TeamOnly => ((team, 0u8), (opponent, 0u8)),
        SflRatingSetting::HomeAway => if record.sfl_match.is_home {
            ((team, 121u8), (opponent, 120u8))
        } else {
            ((team, 120u8), (opponent, 121u8))
        },
        SflRatingSetting::GameType => if record.game_type.is_leader() {
            ((team, 112u8), (opponent, 112u8))
        } else {
            ((team, 102u8), (opponent, 102u8))
        },
        SflRatingSetting::HomeAwayGameType => if record.sfl_match.is_home {
            if record.game_type.is_leader() {
                ((team, 111u8), (opponent, 110u8))
            } else {
                ((team, 101u8), (opponent, 100u8))
            }
        } else {
            if record.game_type.is_leader() {
                ((team, 110u8), (opponent, 111u8))
            } else {
                ((team, 100u8), (opponent, 101u8))
            }
        },
    }
}

/// The largest dense index among a list of teams.
pub open spec fn max_index_of(teams: Seq<SflTeam>) -> int
    decreases teams.len(),
{
    if teams.len() == 0 {
        -1
    } else if teams.last().index_spec() > max_index_of(teams.drop_last()) {
        teams.last().index_spec()
    } else {
        max_index_of(teams.drop_last())
    }
}

/// The baseline rating vector for the home-away-and-game-type keying: four
/// contexts per team slot up to the largest index among the given teams.
pub fn create_key_function_and_init_ratings(setting: SflRatingSetting, teams: Vec<SflTeam>) -> (
    ratings: Vec<i64>)
    requires
        setting == SflRatingSetting::HomeAwayGameType,
        teams@.len() > 0,
    ensures
        ratings@.len() == 4 * (max_index_of(teams@) + 1),
        forall|k: int| 0 <= k < ratings@.len() ==> ratings@[k] == INITIAL_RATING,
        forall|t: int|
            0 <= t < teams@.len() ==> teams@[t].index_spec() * 4 + 3 < ratings@.len(),
{
    let mut max: usize = teams[0].get_index();
    proof {
        assert(teams@.take(1).drop_last() =~= Seq::<SflTeam>::empty());
        assert(teams@.take(1).last() == teams@[0]);
        assert(max_index_of(Seq::<SflTeam>::empty()) == -1);
        assert(max_index_of(teams@.take(1)) == teams@[0].index_spec());
    }
    let mut k: usize = 1;
    while k < teams.len()
        invariant
            1 <= k <= teams@.len(),
            max < 12,
            max == max_index_of(teams@.take(k as int)),
            forall|j: int| 0 <= j < k ==> teams@[j].index_spec() <= max,
        decreases teams@.len() - k,
    {
        let idx = teams[k].get_index();
        proof {
            assert(teams@.take(k as int + 1).drop_last() =~= teams@.take(k as int));
            assert(teams@.take(k as int + 1).last() == teams@[k as int]);
        }
        if idx > max {
            max = idx;
        }
        k = k + 1;
    }
    proof {
        assert(teams@.take(teams@.len() as int) =~= teams@);
    }
    let len: usize = (max + 1) * 4;
    let mut ratings: Vec<i64> = Vec::new();
    let mut i: usize = 0;
    while i < len
        invariant
            i <= len,
            len == (max + 1) * 4,
            max < 12,
            ratings@.len() == i,
            forall|j: int| 0 <= j < i ==> ratings@[j] == INITIAL_RATING,
        decreases len - i,
    {
        ratings.push(INITIAL_RATING);
        i = i + 1;
    }
    ratings
}

// The fit pass.

/// The rating vector after one record of the fit pass: games that are not
/// both valid and actually played leave it untouched.
pub open spec fn fit_one(rs: Seq<int>, r: SflRecord) -> Seq<int> {
    if r.is_valid && !r.is_prediction && 0 <= rate_index_a(r) < rs.len() && 0 <= rate_index_b(r)
        < rs.len() {
        let next = updated_ratings(rs[rate_index_a(r)], rs[rate_index_b(r)], r.win_flag);
        rs.update(rate_index_a(r), next.0).update(rate_index_b(r), next.1)
    } else {
        rs
    }
}

/// The rating vector after the first `n` records of one fixture.
pub open spec fn fit_upto(rs: Seq<int>, s: Seq<SflRecord>, n: int) -> Seq<int>
    decreases n,
{
    if n <= 0 {
        rs
    } else {
        fit_one(fit_upto(rs, s, n - 1), s[n - 1])
    }
}

/// The rating vector after the first `n` fixtures, each folded in full, in
/// chronological fixture order.
pub open spec fn fit_fixtures_upto(rs: Seq<int>, ss: Seq<Seq<SflRecord>>, n: int) -> Seq<int>
    decreases n,
{
    if n <= 0 {
        rs
    } else {
        fit_upto(fit_fixtures_upto(rs, ss, n - 1), ss[n - 1], ss[n - 1].len() as int)
    }
}

/// A fixture of nothing but predictions moves no rating.
pub proof fn lemma_fit_upto_fresh(rs: Seq<int>, s: Seq<SflRecord>, n: int)
    requires
        forall|j: int| 0 <= j < s.len() ==> (#[trigger] s[j]).is_prediction,
        n <= s.len(),
    ensures
        fit_upto(rs, s, n) == rs,
    decreases n,
{
    if n > 0 {
        lemma_fit_upto_fresh(rs, s, n - 1);
    }
}

/// A season of nothing but predictions leaves the baseline ratings alone.
pub proof fn lemma_fit_fixtures_fresh(rs: Seq<int>, ss: Seq<Seq<SflRecord>>, n: int)
    requires
        n <= ss.len(),
        forall|i: int, j: int|
            #![all_triggers]
            0 <= i < n && 0 <= j < ss[i].len() ==> ss[i][j].is_prediction,
    ensures
        fit_fixtures_upto(rs, ss, n) == rs,
    decreases n,
{
    if n > 0 {
        lemma_fit_fixtures_fresh(rs, ss, n - 1);
        lemma_fit_upto_fresh(rs, ss[n - 1], ss[n - 1].len() as int);
    }
}

/// The record sequences of a fixture list, as mathematical sequences.
pub open spec fn views_of(rss: Seq<Vec<SflRecord>>) -> Seq<Seq<SflRecord>> {
    rss.map_values(|v: Vec<SflRecord>| v@)
}

/// The baseline rating vector of the full league: four contexts for each of
/// the twelve teams.
pub open spec fn initial_ratings() -> Seq<int> {
    Seq::new(48, |i: int| INITIAL_RATING as int)
}

/// The integer values of a rating vector.
pub open spec fn ratings_view(rs: Seq<i64>) -> Seq<int> {
    rs.map_values(|x: i64| x as int)
}

/// Every rating stays within `steps` updates' worth of drift from the
/// baseline.
pub open spec fn drift_ok(rs: Seq<i64>, steps: int) -> bool {
    forall|k: int|
        0 <= k < rs.len() ==> (INITIAL_RATING as int) - 16000 * steps <= (#[trigger] rs[k]) as int
            <= (INITIAL_RATING as int) + 16000 * steps
}

/// Drift bounds only widen as the step count grows.
pub proof fn lemma_drift_mono(rs: Seq<i64>, m: int, n: int)
    requires
        drift_ok(rs, m),
        0 <= m <= n,
    ensures
        drift_ok(rs, n),
{
    assert forall|k: int| 0 <= k < rs.len() implies (INITIAL_RATING as int) - 16000 * n <= (
    #[trigger] rs[k]) as int <= (INITIAL_RATING as int) + 16000 * n by {
        assert((INITIAL_RATING as int) - 16000 * m <= rs[k] as int <= (INITIAL_RATING as int)
            + 16000 * m);
        assert(16000 * m <= 16000 * n) by (nonlinear_arith)
            requires
                m <= n,
        ;
    }
}

/// A skill estimate per (team, context) pair, fitted once from the already
/// played records and then read-only during simulation.
pub struct SflRating {
    pub ratings: Vec<i64>,
}

impl SflRating {
    /// An empty rating holder; `calc_ratings` fills it.
    pub fn new() -> (r: SflRating)
        ensures
            r.ratings@.len() == 0,
    {
        SflRating { ratings: Vec::new() }
    }

    /// Fits the ratings from scratch: every valid, actually played record,
    /// in fixture order, moves its two context ratings by the zero-sum
    /// update rule.  The vector always covers the full league, whatever
    /// stage the records came from.  Fixture counts are bounded so the
    /// fixed-point drift stays far inside the working range.
    pub fn calc_ratings(&mut self, sfl_stage: &SflStage, sfl_records: &Vec<Vec<SflRecord>>)
        requires
            sfl_records@.len() <= 1000,
            forall|i: int| 0 <= i < sfl_records@.len() ==> (#[trigger] sfl_records@[i])@.len()
                <= 50,
        ensures
            final(self).ratings@.len() == 48,
            ratings_view(final(self).ratings@) == fit_fixtures_upto(
                initial_ratings(),
                views_of(sfl_records@),
                sfl_records@.len() as int,
            ),
            drift_ok(final(self).ratings@, 50000),
    {
        let mut ratings: Vec<i64> = Vec::new();
        let mut i: usize = 0;
        while i < 48
            invariant
                i <= 48,
                ratings@.len() == i,
                forall|j: int| 0 <= j < i ==> ratings@[j] == INITIAL_RATING,
            decreases 48 - i,
        {
            ratings.push(INITIAL_RATING);
            i = i + 1;
        }
        proof {
            assert(ratings_view(ratings@) =~= initial_ratings());
        }
        let ghost vs = views_of(sfl_records@);
        let mut fi: usize = 0;
        while fi < sfl_records.len()
            invariant
                fi <= sfl_records@.len(),
                sfl_records@.len() <= 1000,
                forall|i2: int| 0 <= i2 < sfl_records@.len() ==> (#[trigger] sfl_records@[i2])@.len()
                    <= 50,
                vs == views_of(sfl_records@),
                vs.len() == sfl_records@.len(),
                forall|i2: int| 0 <= i2 < vs.len() ==> #[trigger] vs[i2] == sfl_records@[i2]@,
                ratings@.len() == 48,
                ratings_view(ratings@) == fit_fixtures_upto(initial_ratings(), vs, fi as int),
                drift_ok(ratings@, 50 * (fi as int)),
            decreases sfl_records@.len() - fi,
        {
            let records = &sfl_records[fi];
            proof {
                lemma_drift_mono(ratings@, 50 * (fi as int), 50 * (fi as int));
                assert(drift_ok(ratings@, 50 * (fi as int) + 0));
            }
            let mut j: usize = 0;
            while j < records.len()
                invariant
                    j <= records@.len(),
                    records@.len() <= 50,
                    records@ == vs[fi as int],
                    vs.len() == sfl_records@.len(),
                    fi < sfl_records@.len() <= 1000,
                    ratings@.len() == 48,
                    ratings_view(ratings@) == fit_upto(
                        fit_fixtures_upto(initial_ratings(), vs, fi as int),
                        vs[fi as int],
                        j as int,
                    ),
                    drift_ok(ratings@, 50 * (fi as int) + j),
                decreases records@.len() - j,
            {
                let record = &records[j];
                if record.is_valid && !record.is_prediction {
                    let (team_index, opponent_team_index) = rating_context_indexes(record);
                    proof {
                        let steps = 50 * (fi as int) + j;
                        assert(0 <= steps <= 50050);
                        assert(16000 * steps <= 16000 * 50050) by (nonlinear_arith)
                            requires
                                steps <= 50050,
                        ;
                        assert(16000 * steps >= 0) by (nonlinear_arith)
                            requires
                                steps >= 0,
                        ;
                    }
                    let team_rating = ratings[team_index];
                    let opponent_team_rating = ratings[opponent_team_index];
                    let (updated, updated_opponent) = update_rating(
                        team_rating,
                        opponent_team_rating,
                        record.win_flag,
                    );
                    ratings[team_index] = updated;
                    ratings[opponent_team_index] = updated_opponent;
                    proof {
                        assert(ratings_view(ratings@) =~= fit_upto(
                            fit_fixtures_upto(initial_ratings(), vs, fi as int),
                            vs[fi as int],
                            j as int + 1,
                        ));
                        let steps = 50 * (fi as int) + j;
                        assert forall|k: int| 0 <= k < ratings@.len() implies (INITIAL_RATING
                            as int) - 16000 * (steps + 1) <= (#[trigger] ratings@[k]) as int <= (
                        INITIAL_RATING as int) + 16000 * (steps + 1) by {
                            assert(16000 * (steps + 1) == 16000 * steps + 16000) by (
                            nonlinear_arith);
                        }
                        assert(drift_ok(ratings@, steps + 1));
                    }
                } else {
                    proof {
                        assert(ratings_view(ratings@) =~= fit_upto(
                            fit_fixtures_upto(initial_ratings(), vs, fi as int),
                            vs[fi as int],
                            j as int + 1,
                        ));
                        lemma_drift_mono(ratings@, 50 * (fi as int) + j, 50 * (fi as int) + j + 1);
                    }
                }
                j = j + 1;
            }
            proof {
                lemma_drift_mono(ratings@, 50 * (fi as int) + j, 50 * ((fi as int) + 1));
            }
            fi = fi + 1;
        }
        proof {
            lemma_drift_mono(ratings@, 50 * (fi as int), 50000);
        }
        self.ratings = ratings;
    }

    /// The fitted rating of one (team, context) slot.
    pub fn get_rating(&self, team_index: usize, is_home: bool, is_reader: bool) -> (r: i64)
        requires
            team_index * 4 + 3 < self.ratings@.len(),
        ensures
            r == self.ratings@[team_index * 4 + (if is_home {
                1int
            } else {
                0int
            }) + (if is_reader {
                2int
            } else {
                0int
            })],
    {
        let len = self.ratings.len();
        assert(team_index * 4 + 3 < len);
        let index = team_index * 4 + (if is_home {
            1
        } else {
            0
        }) + (if is_reader {
            2
        } else {
            0
        });
        self.ratings[index]
    }
}

} // verus!
