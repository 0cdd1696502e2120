//! The Monte Carlo driver: replays the season trial by trial — sample the
//! unplayed games from the fixed rating snapshot, score every fixture,
//! resolve standings, the playoff stepladder and the grand final — and
//! accumulates placement histograms and point sums.

use vstd::prelude::*;
use rand::rngs::StdRng;
use crate::rating::{
    drift_ok, get_win_percentage, rating_context_indexes, SflRating, INITIAL_RATING, RATING_BOUND,
};
use crate::results::{
    col_sum, lemma_col_sum_bump, lemma_col_sum_zero, lemma_row_sum_update, lemma_row_sum_zero,
    result_shape, row_sum, DivisionPlaceDetail, SflSimulationResult, SflStats,
};
use crate::rng::{rng_below, rng_from_seed};
use crate::schedule::{record_eq, SflMatch, SflRecord, SflStage};
use crate::scoring::{correct_spec, resolved_at};
use crate::team::SflTeam;

verus! {

/// Whether the trials draw from the rating model or uniformly.
#[derive(Clone, Copy, Debug)]
pub struct SimulationOption {
    pub enable_rate: bool,
}

/// The record store's fixed shape: sixty regular fixtures of twelve games,
/// no game worth more than the anchor value.
pub open spec fn records_wf(rss: Seq<Vec<SflRecord>>) -> bool {
    &&& rss.len() == 60
    &&& forall|i: int| 0 <= i < 60 ==> (#[trigger] rss[i])@.len() == 12
    &&& forall|i: int, j: int|
        #![all_triggers]
        0 <= i < 60 && 0 <= j < 12 ==> rss[i]@[j].point <= 20
}

/// The whole simulation engine is well formed: the combined regular stage,
/// its record store, a full rating snapshot within the working range, and
/// shaped accumulators.
pub open spec fn sim_wf(s: SflSimulation) -> bool {
    &&& s.sfl_stage == SflStage::JP2024AllDivision
    &&& records_wf(s.sfl_records@)
    &&& s.sfl_rating.ratings@.len() == 48
    &&& forall|k: int|
        0 <= k < 48 ==> -RATING_BOUND <= #[trigger] s.sfl_rating.ratings@[k] <= RATING_BOUND
    &&& s.sfl_stats.points@.len() == 12
    &&& s.sfl_stats.battles@.len() == 12
    &&& result_shape(s.result)
}

/// A deep copy of the record store, preserving every field the engine reads.
fn clone_records(rss: &Vec<Vec<SflRecord>>) -> (r: Vec<Vec<SflRecord>>)
    ensures
        r@.len() == rss@.len(),
        forall|i: int| 0 <= i < rss@.len() ==> (#[trigger] r@[i])@.len() == rss@[i]@.len(),
        forall|i: int, j: int|
            #![all_triggers]
            0 <= i < rss@.len() && 0 <= j < rss@[i]@.len() ==> record_eq(r@[i]@[j], rss@[i]@[j]),
{
    let mut r: Vec<Vec<SflRecord>> = Vec::new();
    let mut i: usize = 0;
    while i < rss.len()
        invariant
            i <= rss@.len(),
            r@.len() == i,
            forall|a: int| 0 <= a < i ==> (#[trigger] r@[a])@.len() == rss@[a]@.len(),
            forall|a: int, b: int|
                #![all_triggers]
                0 <= a < i && 0 <= b < rss@[a]@.len() ==> record_eq(r@[a]@[b], rss@[a]@[b]),
        decreases rss@.len() - i,
    {
        let inner = &rss[i];
        let mut row: Vec<SflRecord> = Vec::new();
        let mut j: usize = 0;
        while j < inner.len()
            invariant
                j <= inner@.len(),
                row@.len() == j,
                inner@ == rss@[i as int]@,
                i < rss@.len(),
                forall|b: int| 0 <= b < j ==> record_eq(#[trigger] row@[b], inner@[b]),
            decreases inner@.len() - j,
        {
            row.push(inner[j].clone());
            j = j + 1;
        }
        r.push(row);
        i = i + 1;
    }
    r
}

/// Samples one regular fixture and scores it: every point is derived
/// afresh, predictions get a drawn outcome, known results keep theirs, and
/// one draw is consumed per known result so the stream's consumption does
/// not depend on how much of the season is already played.
fn sample_fixture(records: &mut Vec<SflRecord>, ratings: &Vec<i64>, enable_rate: bool, rng: &mut StdRng)
    requires
        old(records)@.len() == 12,
        ratings@.len() == 48,
        forall|k: int| 0 <= k < 48 ==> -RATING_BOUND <= #[trigger] ratings@[k] <= RATING_BOUND,
    ensures
        final(records)@.len() == 12,
        forall|j: int| 0 <= j < 12 ==> (#[trigger] final(records)@[j]).point <= 20,
        forall|j: int|
            0 <= j < 12 ==> {
                &&& (#[trigger] final(records)@[j]).sfl_match == old(records)@[j].sfl_match
                &&& final(records)@[j].set_number == old(records)@[j].set_number
                &&& final(records)@[j].game_type == old(records)@[j].game_type
                &&& final(records)@[j].is_prediction == old(records)@[j].is_prediction
            },
        forall|j: int|
            0 <= j < 12 && !old(records)@[j].is_prediction ==> (
            #[trigger] final(records)@[j]).win_flag == old(records)@[j].win_flag,
        final(records)@ == crate::scoring::resolve_spec(final(records)@),
{
    let mut j: usize = 0;
    while j < 12
        invariant
            j <= 12,
            records@.len() == 12,
            ratings@.len() == 48,
            forall|k: int| 0 <= k < 48 ==> -RATING_BOUND <= #[trigger] ratings@[k] <= RATING_BOUND,
            forall|b: int| 0 <= b < j ==> (#[trigger] records@[b]).point == 0,
            forall|b: int|
                0 <= b < 12 ==> {
                    &&& (#[trigger] records@[b]).sfl_match == old(records)@[b].sfl_match
                    &&& records@[b].set_number == old(records)@[b].set_number
                    &&& records@[b].game_type == old(records)@[b].game_type
                    &&& records@[b].is_prediction == old(records)@[b].is_prediction
                },
            forall|b: int|
                0 <= b < 12 && !old(records)@[b].is_prediction ==> (
                #[trigger] records@[b]).win_flag == old(records)@[b].win_flag,
        decreases 12 - j,
    {
        records[j].point = 0;
        if !records[j].is_prediction {
            // A throwaway draw keeps the stream aligned however many
            // results are already known.
            let _ = rng_below(rng, 2);
        } else {
            let (team_index, opponent_team_index) = rating_context_indexes(&records[j]);
            let win: bool = if enable_rate {
                let team_rating = ratings[team_index];
                let opponent_team_rating = ratings[opponent_team_index];
                let (team_win_percentage, _) = get_win_percentage(
                    team_rating,
                    opponent_team_rating,
                );
                rng_below(rng, 1000000) < team_win_percentage
            } else {
                rng_below(rng, 2) == 1
            };
            records[j].win_flag = win;
            records[j].is_valid = true;
        }
        j = j + 1;
    }
    let ghost sampled = records@;
    SflStage::JP2024AllDivision.correct_records(records);
    proof {
        assert forall|b: int| 0 <= b < 12 implies (#[trigger] records@[b]).point <= 20 by {
            assert(records@[b] == resolved_at(sampled, b));
        }
        assert forall|b: int| 0 <= b < 12 implies {
            &&& (#[trigger] records@[b]).sfl_match == old(records)@[b].sfl_match
            &&& records@[b].set_number == old(records)@[b].set_number
            &&& records@[b].game_type == old(records)@[b].game_type
            &&& records@[b].is_prediction == old(records)@[b].is_prediction
        } by {
            assert(records@[b] == resolved_at(sampled, b));
        }
        assert forall|b: int|
            0 <= b < 12 && !old(records)@[b].is_prediction implies (
        #[trigger] records@[b]).win_flag == old(records)@[b].win_flag by {
            assert(records@[b] == resolved_at(sampled, b));
        }
        crate::scoring::lemma_resolve_idempotent(sampled);
    }
}

/// Samples every game of a synthesized playoff or grand-final fixture.
fn sample_series(records: &mut Vec<SflRecord>, ratings: &Vec<i64>, enable_rate: bool, rng: &mut StdRng)
    requires
        ratings@.len() == 48,
        forall|k: int| 0 <= k < 48 ==> -RATING_BOUND <= #[trigger] ratings@[k] <= RATING_BOUND,
    ensures
        final(records)@.len() == old(records)@.len(),
        forall|j: int|
            0 <= j < old(records)@.len() ==> (#[trigger] final(records)@[j]).sfl_match == old(
                records,
            )@[j].sfl_match,
{
    let mut j: usize = 0;
    while j < records.len()
        invariant
            j <= records@.len(),
            records@.len() == old(records)@.len(),
            ratings@.len() == 48,
            forall|k: int| 0 <= k < 48 ==> -RATING_BOUND <= #[trigger] ratings@[k] <= RATING_BOUND,
            forall|b: int|
                0 <= b < records@.len() ==> (#[trigger] records@[b]).sfl_match == old(
                    records,
                )@[b].sfl_match,
        decreases records@.len() - j,
    {
        let (team_index, opponent_team_index) = rating_context_indexes(&records[j]);
        let win: bool = if enable_rate {
            let team_rating = ratings[team_index];
            let opponent_team_rating = ratings[opponent_team_index];
            let (team_win_percentage, _) = get_win_percentage(team_rating, opponent_team_rating);
            rng_below(rng, 1000000) < team_win_percentage
        } else {
            rng_below(rng, 2) == 1
        };
        records[j].win_flag = win;
        records[j].is_valid = true;
        j = j + 1;
    }
}

/// The contribution of one record to a fixture's point-breakdown column:
/// opening/mid points of the away (`team`) side go to column 0 and of the
/// home side to column 1; anchor and tiebreak points to columns 2 and 3.
pub open spec fn breakdown_of(r: SflRecord, c: int) -> int {
    if r.is_valid && r.point != 0 {
        if c == (if r.game_type.is_leader_spec() {
            2int
        } else {
            0int
        }) + (if r.win_flag {
            0int
        } else {
            1int
        }) {
            r.point as int
        } else {
            0
        }
    } else {
        0
    }
}

/// Column `c` of the point breakdown over the first `n` records.
pub open spec fn fixture_breakdown(s: Seq<SflRecord>, c: int, n: int) -> int
    decreases n,
{
    if n <= 0 {
        0
    } else {
        fixture_breakdown(s, c, n - 1) + breakdown_of(s[n - 1], c)
    }
}

/// Adds one trial's per-fixture point breakdown — opening/mid points and
/// anchor/tiebreak points, split by winning side — into the running sums.
fn accumulate_match_points(match_points: &mut Vec<Vec<u32>>, records: &Vec<Vec<SflRecord>>)
    requires
        old(match_points)@.len() == 60,
        forall|i: int| 0 <= i < 60 ==> (#[trigger] old(match_points)@[i])@.len() == 4,
        forall|i: int, j: int|
            #![all_triggers]
            0 <= i < 60 && 0 <= j < 4 ==> old(match_points)@[i]@[j] <= 24000000,
        records@.len() == 60,
        forall|i: int| 0 <= i < 60 ==> (#[trigger] records@[i])@.len() == 12,
        forall|i: int, j: int|
            #![all_triggers]
            0 <= i < 60 && 0 <= j < 12 ==> records@[i]@[j].point <= 20,
    ensures
        final(match_points)@.len() == 60,
        forall|i: int| 0 <= i < 60 ==> (#[trigger] final(match_points)@[i])@.len() == 4,
        forall|i: int, j: int|
            0 <= i < 60 && 0 <= j < 4 ==> (#[trigger] final(match_points)@[i]@[j]) == old(
                match_points,
            )@[i]@[j] + fixture_breakdown(records@[i]@, j, 12),
        forall|i: int, j: int|
            0 <= i < 60 && 0 <= j < 4 ==> old(match_points)@[i]@[j] <= (#[trigger] final(match_points)@[i]@[j]) <= old(match_points)@[i]@[j] + 240,
{
    let mut i: usize = 0;
    while i < 60
        invariant
            i <= 60,
            match_points@.len() == 60,
            forall|a: int| 0 <= a < 60 ==> (#[trigger] match_points@[a])@.len() == 4,
            records@.len() == 60,
            forall|a: int| 0 <= a < 60 ==> (#[trigger] records@[a])@.len() == 12,
            forall|a: int, b: int|
                #![all_triggers]
                0 <= a < 60 && 0 <= b < 12 ==> records@[a]@[b].point <= 20,
            forall|a: int, b: int|
                #![all_triggers]
                0 <= a < 60 && 0 <= b < 4 ==> old(match_points)@[a]@[b] <= 24000000,
            forall|a: int, b: int|
                0 <= a < i && 0 <= b < 4 ==> old(match_points)@[a]@[b] <= (
                #[trigger] match_points@[a]@[b]) <= old(match_points)@[a]@[b] + 240,
            forall|a: int, b: int|
                #![all_triggers]
                0 <= a < i && 0 <= b < 4 ==> match_points@[a]@[b] == old(match_points)@[a]@[b]
                    + fixture_breakdown(records@[a]@, b, 12),
            forall|a: int, b: int|
                #![all_triggers]
                i <= a < 60 && 0 <= b < 4 ==> match_points@[a]@[b] == old(match_points)@[a]@[b],
        decreases 60 - i,
    {
        let fixture = &records[i];
        let mut van_away_point: u32 = 0;
        let mut van_home_point: u32 = 0;
        let mut general_away_point: u32 = 0;
        let mut general_home_point: u32 = 0;
        let mut b: usize = 0;
        while b < 12
            invariant
                b <= 12,
                i < 60,
                fixture@.len() == 12,
                fixture@ == records@[i as int]@,
                forall|c: int| 0 <= c < 12 ==> (#[trigger] fixture@[c]).point <= 20,
                van_away_point <= 20 * b,
                van_home_point <= 20 * b,
                general_away_point <= 20 * b,
                general_home_point <= 20 * b,
                van_away_point == fixture_breakdown(fixture@, 0, b as int),
                van_home_point == fixture_breakdown(fixture@, 1, b as int),
                general_away_point == fixture_breakdown(fixture@, 2, b as int),
                general_home_point == fixture_breakdown(fixture@, 3, b as int),
            decreases 12 - b,
        {
            let record = &fixture[b];
            if record.is_valid && record.point != 0 {
                if record.win_flag {
                    if record.game_type.is_leader() {
                        general_away_point = general_away_point + record.point;
                    } else {
                        van_away_point = van_away_point + record.point;
                    }
                } else {
                    if record.game_type.is_leader() {
                        general_home_point = general_home_point + record.point;
                    } else {
                        van_home_point = van_home_point + record.point;
                    }
                }
            }
            b = b + 1;
        }
        let row = &mut match_points[i];
        let c0 = row[0];
        let c1 = row[1];
        let c2 = row[2];
        let c3 = row[3];
        row[0] = c0 + van_away_point;
        row[1] = c1 + van_home_point;
        row[2] = c2 + general_away_point;
        row[3] = c3 + general_home_point;
        i = i + 1;
    }
}

/// The match points record `r` contributes to team index `t` in one trial:
/// its point value when it is valid and team `t`'s side won it.
pub open spec fn tally_point_of(r: SflRecord, t: int) -> int {
    if r.is_valid && ((r.win_flag && r.sfl_match.team.index_spec() == t) || (!r.win_flag
        && r.sfl_match.opponent_team.index_spec() == t)) {
        r.point as int
    } else {
        0
    }
}

/// The battle differential record `r` contributes to team index `t` in one
/// trial: plus one for the winning side, minus one for the losing side, of
/// every valid record.
pub open spec fn tally_battle_of(r: SflRecord, t: int) -> int {
    if !r.is_valid {
        0
    } else if r.win_flag {
        (if r.sfl_match.team.index_spec() == t {
            1int
        } else {
            0int
        }) - (if r.sfl_match.opponent_team.index_spec() == t {
            1int
        } else {
            0int
        })
    } else {
        (if r.sfl_match.opponent_team.index_spec() == t {
            1int
        } else {
            0int
        }) - (if r.sfl_match.team.index_spec() == t {
            1int
        } else {
            0int
        })
    }
}

/// Team `t`'s trial points over the first `n` records of one fixture.
pub open spec fn fixture_tally_points(s: Seq<SflRecord>, t: int, n: int) -> int
    decreases n,
{
    if n <= 0 {
        0
    } else {
        fixture_tally_points(s, t, n - 1) + tally_point_of(s[n - 1], t)
    }
}

/// Team `t`'s trial battles over the first `n` records of one fixture.
pub open spec fn fixture_tally_battles(s: Seq<SflRecord>, t: int, n: int) -> int
    decreases n,
{
    if n <= 0 {
        0
    } else {
        fixture_tally_battles(s, t, n - 1) + tally_battle_of(s[n - 1], t)
    }
}

/// Team `t`'s trial points over the first `n` fixtures of the season.
pub open spec fn season_tally_points(rss: Seq<Vec<SflRecord>>, t: int, n: int) -> int
    decreases n,
{
    if n <= 0 {
        0
    } else {
        season_tally_points(rss, t, n - 1) + fixture_tally_points(
            rss[n - 1]@,
            t,
            rss[n - 1]@.len() as int,
        )
    }
}

/// Team `t`'s trial battles over the first `n` fixtures of the season.
pub open spec fn season_tally_battles(rss: Seq<Vec<SflRecord>>, t: int, n: int) -> int
    decreases n,
{
    if n <= 0 {
        0
    } else {
        season_tally_battles(rss, t, n - 1) + fixture_tally_battles(
            rss[n - 1]@,
            t,
            rss[n - 1]@.len() as int,
        )
    }
}

/// One trial's points and battle differential per team, over the valid
/// records of the sampled and scored season.
fn tally_points_battles(records: &Vec<Vec<SflRecord>>) -> (r: (Vec<u32>, Vec<i32>))
    requires
        records@.len() == 60,
        forall|i: int| 0 <= i < 60 ==> (#[trigger] records@[i])@.len() == 12,
        forall|i: int, j: int|
            #![all_triggers]
            0 <= i < 60 && 0 <= j < 12 ==> records@[i]@[j].point <= 20,
    ensures
        r.0@.len() == 12,
        r.1@.len() == 12,
        forall|t: int| 0 <= t < 12 ==> #[trigger] r.0@[t] == season_tally_points(records@, t, 60),
        forall|t: int| 0 <= t < 12 ==> #[trigger] r.1@[t] == season_tally_battles(records@, t, 60),
        forall|t: int| 0 <= t < 12 ==> #[trigger] r.0@[t] <= 14400,
        forall|t: int| 0 <= t < 12 ==> -720 <= #[trigger] r.1@[t] <= 720,
{
    let mut point_count: Vec<u32> = Vec::new();
    let mut battle_count: Vec<i32> = Vec::new();
    let mut z: usize = 0;
    while z < 12
        invariant
            z <= 12,
            point_count@.len() == z,
            battle_count@.len() == z,
            forall|t: int| 0 <= t < z ==> #[trigger] point_count@[t] == 0,
            forall|t: int| 0 <= t < z ==> #[trigger] battle_count@[t] == 0,
        decreases 12 - z,
    {
        point_count.push(0);
        battle_count.push(0);
        z = z + 1;
    }
    let mut i: usize = 0;
    while i < 60
        invariant
            i <= 60,
            point_count@.len() == 12,
            battle_count@.len() == 12,
            records@.len() == 60,
            forall|a: int| 0 <= a < 60 ==> (#[trigger] records@[a])@.len() == 12,
            forall|a: int, b: int|
                #![all_triggers]
                0 <= a < 60 && 0 <= b < 12 ==> records@[a]@[b].point <= 20,
            forall|t: int| 0 <= t < 12 ==> #[trigger] point_count@[t] <= 240 * i,
            forall|t: int| 0 <= t < 12 ==> -12 * i <= #[trigger] battle_count@[t] <= 12 * i,
            forall|t: int|
                0 <= t < 12 ==> #[trigger] point_count@[t] == season_tally_points(
                    records@,
                    t,
                    i as int,
                ),
            forall|t: int|
                0 <= t < 12 ==> #[trigger] battle_count@[t] == season_tally_battles(
                    records@,
                    t,
                    i as int,
                ),
        decreases 60 - i,
    {
        let fixture = &records[i];
        let mut b: usize = 0;
        while b < 12
            invariant
                b <= 12,
                i < 60,
                point_count@.len() == 12,
                battle_count@.len() == 12,
                fixture@.len() == 12,
                forall|c: int| 0 <= c < 12 ==> (#[trigger] fixture@[c]).point <= 20,
                forall|t: int|
                    0 <= t < 12 ==> #[trigger] point_count@[t] <= 240 * i + 20 * b,
                forall|t: int|
                    0 <= t < 12 ==> -(12 * i + b) <= #[trigger] battle_count@[t] <= 12 * i + b,
                fixture@ == records@[i as int]@,
                forall|t: int|
                    0 <= t < 12 ==> #[trigger] point_count@[t] == season_tally_points(
                        records@,
                        t,
                        i as int,
                    ) + fixture_tally_points(fixture@, t, b as int),
                forall|t: int|
                    0 <= t < 12 ==> #[trigger] battle_count@[t] == season_tally_battles(
                        records@,
                        t,
                        i as int,
                    ) + fixture_tally_battles(fixture@, t, b as int),
            decreases 12 - b,
        {
            let record = &fixture[b];
            if record.is_valid {
                let team_index = record.sfl_match.team.get_index();
                let opponent_team_index = record.sfl_match.opponent_team.get_index();
                if record.win_flag {
                    let p = point_count[team_index];
                    point_count[team_index] = p + record.point;
                    let x = battle_count[team_index];
                    battle_count[team_index] = x + 1;
                    let y = battle_count[opponent_team_index];
                    battle_count[opponent_team_index] = y - 1;
                } else {
                    let p = point_count[opponent_team_index];
                    point_count[opponent_team_index] = p + record.point;
                    let x = battle_count[team_index];
                    battle_count[team_index] = x - 1;
                    let y = battle_count[opponent_team_index];
                    battle_count[opponent_team_index] = y + 1;
                }
            }
            b = b + 1;
        }
        i = i + 1;
    }
    (point_count, battle_count)
}

/// The standings order: more points first, then better battle differential,
/// then the higher team index — a deterministic final tiebreak.
pub open spec fn ranks_before(a: (usize, u32, i32, SflTeam), b: (usize, u32, i32, SflTeam)) -> bool {
    ||| a.1 > b.1
    ||| (a.1 == b.1 && a.2 > b.2)
    ||| (a.1 == b.1 && a.2 == b.2 && a.0 > b.0)
}

/// The executable standings comparison.
fn ranks_before_at(a: &(usize, u32, i32, SflTeam), b: &(usize, u32, i32, SflTeam)) -> (r: bool)
    ensures
        r == ranks_before(*a, *b),
{
    a.1 > b.1 || (a.1 == b.1 && a.2 > b.2) || (a.1 == b.1 && a.2 == b.2 && a.0 > b.0)
}

/// A standings entry the driver builds carries a league team index.
pub open spec fn entry_ok(e: (usize, u32, i32, SflTeam)) -> bool {
    e.0 < 12
}

/// A standings entry whose points and battles fit one trial's ranges.
pub open spec fn entry_bounded(e: (usize, u32, i32, SflTeam)) -> bool {
    e.0 < 12 && e.1 <= 14400 && -720 <= e.2 <= 720
}

/// How many entries of a standings sequence carry team index `t`.
pub open spec fn occ(s: Seq<(usize, u32, i32, SflTeam)>, t: int) -> int
    decreases s.len(),
{
    if s.len() == 0 {
        0
    } else {
        occ(s.drop_last(), t) + if s.last().0 == t {
            1int
        } else {
            0int
        }
    }
}

/// The trial points the entries of team index `t` carry, summed.
pub open spec fn placed_points(s: Seq<(usize, u32, i32, SflTeam)>, t: int) -> int
    decreases s.len(),
{
    if s.len() == 0 {
        0
    } else {
        placed_points(s.drop_last(), t) + if s.last().0 == t {
            s.last().1 as int
        } else {
            0int
        }
    }
}

/// The trial battle differentials the entries of team index `t` carry, summed.
pub open spec fn placed_battles(s: Seq<(usize, u32, i32, SflTeam)>, t: int) -> int
    decreases s.len(),
{
    if s.len() == 0 {
        0
    } else {
        placed_battles(s.drop_last(), t) + if s.last().0 == t {
            s.last().2 as int
        } else {
            0int
        }
    }
}

/// Overwriting one entry moves the team-index counts by exactly the two
/// entries exchanged.
proof fn lemma_occ_update(
    s: Seq<(usize, u32, i32, SflTeam)>,
    i: int,
    x: (usize, u32, i32, SflTeam),
    t: int,
)
    requires
        0 <= i < s.len(),
    ensures
        occ(s.update(i, x), t) == occ(s, t) + (if x.0 == t {
            1int
        } else {
            0int
        }) - (if s[i].0 == t {
            1int
        } else {
            0int
        }),
    decreases s.len(),
{
    if i == s.len() - 1 {
        assert(s.update(i, x).drop_last() =~= s.drop_last());
    } else {
        assert(s.update(i, x).drop_last() =~= s.drop_last().update(i, x));
        lemma_occ_update(s.drop_last(), i, x, t);
    }
}

/// Appending one entry raises exactly its team's count.
proof fn lemma_occ_push(s: Seq<(usize, u32, i32, SflTeam)>, x: (usize, u32, i32, SflTeam), t: int)
    ensures
        occ(s.push(x), t) == occ(s, t) + (if x.0 == t {
            1int
        } else {
            0int
        }),
{
    assert(s.push(x).drop_last() =~= s);
}

/// How many entries of a standings sequence equal `e` outright.
pub open spec fn occ_entry(s: Seq<(usize, u32, i32, SflTeam)>, e: (usize, u32, i32, SflTeam)) -> int
    decreases s.len(),
{
    if s.len() == 0 {
        0
    } else {
        occ_entry(s.drop_last(), e) + if s.last() == e {
            1int
        } else {
            0int
        }
    }
}

/// Overwriting one entry moves the entry counts by the two entries exchanged.
proof fn lemma_occ_entry_update(
    s: Seq<(usize, u32, i32, SflTeam)>,
    i: int,
    x: (usize, u32, i32, SflTeam),
    e: (usize, u32, i32, SflTeam),
)
    requires
        0 <= i < s.len(),
    ensures
        occ_entry(s.update(i, x), e) == occ_entry(s, e) + (if x == e {
            1int
        } else {
            0int
        }) - (if s[i] == e {
            1int
        } else {
            0int
        }),
    decreases s.len(),
{
    if i == s.len() - 1 {
        assert(s.update(i, x).drop_last() =~= s.drop_last());
    } else {
        assert(s.update(i, x).drop_last() =~= s.drop_last().update(i, x));
        lemma_occ_entry_update(s.drop_last(), i, x, e);
    }
}

/// Entry counts are never negative.
proof fn lemma_occ_entry_nonneg(s: Seq<(usize, u32, i32, SflTeam)>, e: (usize, u32, i32, SflTeam))
    ensures
        occ_entry(s, e) >= 0,
    decreases s.len(),
{
    if s.len() > 0 {
        lemma_occ_entry_nonneg(s.drop_last(), e);
    }
}

/// An entry standing in the sequence is counted at least once.
proof fn lemma_occ_entry_index(s: Seq<(usize, u32, i32, SflTeam)>, k: int)
    requires
        0 <= k < s.len(),
    ensures
        occ_entry(s, s[k]) >= 1,
    decreases s.len(),
{
    if k < s.len() - 1 {
        lemma_occ_entry_index(s.drop_last(), k);
        assert(occ_entry(s, s[k]) >= occ_entry(s.drop_last(), s[k]));
    } else {
        lemma_occ_entry_nonneg(s.drop_last(), s[k]);
    }
}

/// A counted entry stands somewhere in the sequence.
proof fn lemma_occ_entry_pos(s: Seq<(usize, u32, i32, SflTeam)>, e: (usize, u32, i32, SflTeam))
    requires
        occ_entry(s, e) >= 1,
    ensures
        exists|q: int| 0 <= q < s.len() && s[q] == e,
    decreases s.len(),
{
    if s.last() == e {
        assert(s[s.len() - 1] == e);
    } else {
        lemma_occ_entry_pos(s.drop_last(), e);
        let q = choose|q: int| 0 <= q < s.drop_last().len() && s.drop_last()[q] == e;
        assert(s[q] == e);
    }
}

/// Sorts standings entries best first by selection; every entry of the
/// result is an entry of the input, and each team index keeps its number
/// of entries.
fn sort_standings(v: &mut Vec<(usize, u32, i32, SflTeam)>)
    requires
        forall|k: int| 0 <= k < old(v)@.len() ==> entry_ok(#[trigger] old(v)@[k]),
    ensures
        final(v)@.len() == old(v)@.len(),
        forall|k: int| 0 <= k < final(v)@.len() ==> entry_ok(#[trigger] final(v)@[k]),
        forall|a: int, b: int|
            0 <= a < b < final(v)@.len() ==> !ranks_before(final(v)@[b], final(v)@[a]),
        forall|t: int| occ(final(v)@, t) == occ(old(v)@, t),
        forall|e: (usize, u32, i32, SflTeam)| occ_entry(final(v)@, e) == occ_entry(old(v)@, e),
{
    let n = v.len();
    let mut i: usize = 0;
    while i < n
        invariant
            i <= n,
            v@.len() == n,
            forall|k: int| 0 <= k < n ==> entry_ok(#[trigger] v@[k]),
            forall|a: int, b: int| 0 <= a < b < i ==> !ranks_before(v@[b], v@[a]),
            forall|a: int, b: int| 0 <= a < i <= b < n ==> !ranks_before(v@[b], v@[a]),
            forall|t: int| occ(v@, t) == occ(old(v)@, t),
            forall|e: (usize, u32, i32, SflTeam)| occ_entry(v@, e) == occ_entry(old(v)@, e),
        decreases n - i,
    {
        // Find the best remaining entry.
        let mut m: usize = i;
        let mut k: usize = i + 1;
        while k < n
            invariant
                i <= m < k <= n,
                v@.len() == n,
                forall|b: int| i <= b < k ==> !ranks_before(v@[b], v@[m as int]),
            decreases n - k,
        {
            if ranks_before_at(&v[k], &v[m]) {
                m = k;
            }
            k = k + 1;
        }
        // Swap it into place.
        let vi = v[i];
        let vm = v[m];
        let ghost before = v@;
        v[i] = vm;
        v[m] = vi;
        proof {
            assert forall|t: int| occ(v@, t) == occ(before, t) by {
                lemma_occ_update(before, i as int, vm, t);
                lemma_occ_update(before.update(i as int, vm), m as int, vi, t);
                if i != m {
                    assert(before.update(i as int, vm)[m as int] == before[m as int]);
                }
            }
            assert forall|e: (usize, u32, i32, SflTeam)| occ_entry(v@, e) == occ_entry(
                before,
                e,
            ) by {
                lemma_occ_entry_update(before, i as int, vm, e);
                lemma_occ_entry_update(before.update(i as int, vm), m as int, vi, e);
                if i != m {
                    assert(before.update(i as int, vm)[m as int] == before[m as int]);
                }
            }
        }
        i = i + 1;
    }
}

// Current-season statistics, read from the valid, actually played records.

/// The points record `r` contributes to team index `t`: its point value
/// when the game was actually played and team `t`'s side won it.
pub open spec fn stat_point_of(r: SflRecord, t: int) -> int {
    if r.is_valid && !r.is_prediction && (r.sfl_match.team.index_spec() == t
        || r.sfl_match.opponent_team.index_spec() == t) && r.point != 0 && ((r.win_flag
        && r.sfl_match.team.index_spec() == t) || (!r.win_flag
        && r.sfl_match.opponent_team.index_spec() == t)) {
        r.point as int
    } else {
        0
    }
}

/// The battle differential record `r` contributes to team index `t`.
pub open spec fn stat_battle_of(r: SflRecord, t: int) -> int {
    if r.is_valid && !r.is_prediction && (r.sfl_match.team.index_spec() == t
        || r.sfl_match.opponent_team.index_spec() == t) {
        if r.win_flag {
            if r.sfl_match.team.index_spec() == t {
                1
            } else {
                -1
            }
        } else {
            if r.sfl_match.opponent_team.index_spec() == t {
                1
            } else {
                -1
            }
        }
    } else {
        0
    }
}

/// Team `t`'s points over the first `n` records of one fixture.
pub open spec fn fixture_points_upto(s: Seq<SflRecord>, t: int, n: int) -> int
    decreases n,
{
    if n <= 0 {
        0
    } else {
        fixture_points_upto(s, t, n - 1) + stat_point_of(s[n - 1], t)
    }
}

/// Team `t`'s battle differential over the first `n` records of one fixture.
pub open spec fn fixture_battles_upto(s: Seq<SflRecord>, t: int, n: int) -> int
    decreases n,
{
    if n <= 0 {
        0
    } else {
        fixture_battles_upto(s, t, n - 1) + stat_battle_of(s[n - 1], t)
    }
}

/// Team `t`'s points over the first `n` fixtures of the season.
pub open spec fn season_points_upto(rss: Seq<Vec<SflRecord>>, t: int, n: int) -> int
    decreases n,
{
    if n <= 0 {
        0
    } else {
        season_points_upto(rss, t, n - 1) + fixture_points_upto(
            rss[n - 1]@,
            t,
            rss[n - 1]@.len() as int,
        )
    }
}

/// Team `t`'s battle differential over the first `n` fixtures.
pub open spec fn season_battles_upto(rss: Seq<Vec<SflRecord>>, t: int, n: int) -> int
    decreases n,
{
    if n <= 0 {
        0
    } else {
        season_battles_upto(rss, t, n - 1) + fixture_battles_upto(
            rss[n - 1]@,
            t,
            rss[n - 1]@.len() as int,
        )
    }
}

/// What writing a raw result list into a fixture makes of its records: the
/// first `res.len()` games get the given outcome, marked played and valid
/// with their points cleared; games past the input's end are put back to
/// their prediction baseline.  Results past the fixture's own length are
/// silently ignored.
pub open spec fn write_results_spec(s: Seq<SflRecord>, res: Seq<bool>) -> Seq<SflRecord> {
    Seq::new(
        s.len(),
        |j: int|
            if j < res.len() {
                SflRecord { point: 0u32, win_flag: res[j], is_valid: true, is_prediction: false, ..s[j] }
            } else {
                SflRecord { point: 0u32, win_flag: false, is_valid: false, is_prediction: true, ..s[j] }
            },
    )
}

/// One trial fixture against its stored counterpart: the fixture identity
/// and prediction flags are untouched, known outcomes keep their results,
/// and the record sequence has been through the scoring pass (it is a
/// fixpoint of `resolve_spec`, which the pass's idempotence makes exact).
pub open spec fn fixture_consistent(f: Seq<SflRecord>, b: Seq<SflRecord>) -> bool {
    &&& f.len() == 12
    &&& b.len() == 12
    &&& forall|j: int|
        0 <= j < 12 ==> {
            &&& crate::schedule::match_eq((#[trigger] f[j]).sfl_match, b[j].sfl_match)
            &&& f[j].set_number == b[j].set_number
            &&& f[j].game_type == b[j].game_type
            &&& f[j].is_prediction == b[j].is_prediction
            &&& (!b[j].is_prediction ==> f[j].win_flag == b[j].win_flag)
        }
    &&& f == crate::scoring::resolve_spec(f)
}

/// A whole trial's record set against the stored season: one consistent,
/// scored fixture per stored fixture.
pub open spec fn consistent_sample(recs: Seq<Vec<SflRecord>>, base: Seq<Vec<SflRecord>>) -> bool {
    &&& recs.len() == 60
    &&& base.len() == 60
    &&& forall|i: int| 0 <= i < 60 ==> fixture_consistent((#[trigger] recs[i])@, base[i]@)
}

/// One division's resolved standings for a trial: six entries, best first
/// under the standings order, one per division team, each carrying exactly
/// that team's trial points and battle differential over the sampled season.
pub open spec fn standings_evidence(
    e: Seq<(usize, u32, i32, SflTeam)>,
    recs: Seq<Vec<SflRecord>>,
    base: int,
) -> bool {
    &&& e.len() == 6
    &&& forall|a: int, b: int| 0 <= a < b < 6 ==> !ranks_before(e[b], e[a])
    &&& forall|k: int| 0 <= k < 6 ==> base <= (#[trigger] e[k]).0 < base + 6
    &&& forall|k: int|
        0 <= k < 6 ==> (#[trigger] e[k]).1 == season_tally_points(recs, e[k].0 as int, 60)
    &&& forall|k: int|
        0 <= k < 6 ==> (#[trigger] e[k]).2 == season_tally_battles(recs, e[k].0 as int, 60)
    &&& forall|t: int|
        occ(e, t) == (if base <= t < base + 6 {
            1int
        } else {
            0int
        })
}

/// The advancement rule as a value: the side the race named keeps
/// climbing, the other is out.
pub open spec fn advance_of(
    contender: (usize, u32, i32, SflTeam),
    defender: (usize, u32, i32, SflTeam),
    winner: SflTeam,
) -> ((usize, u32, i32, SflTeam), (usize, u32, i32, SflTeam)) {
    if contender.3 == winner {
        (contender, defender)
    } else {
        (defender, contender)
    }
}

/// One division's stepladder read off its standings and the two race
/// winners: the team index out in round one, the team index out in round
/// two (third place), and the division's grand finalist.
pub open spec fn stepladder_of(
    e: Seq<(usize, u32, i32, SflTeam)>,
    w1: SflTeam,
    w2: SflTeam,
) -> (int, int, (usize, u32, i32, SflTeam)) {
    let round1 = advance_of(e[2], e[1], w1);
    let round2 = advance_of(round1.0, e[0], w2);
    (round1.1.3.index_spec(), round2.1.3.index_spec(), round2.0)
}

/// What one trial did to the accumulators, witnessed by the sampled record
/// set and the two divisions' resolved standings: the fixture point
/// breakdown, each team's placement cell, the point and battle sums, and
/// the top-three detail cell all move by exactly what the witnesses say.
pub open spec fn trial_evidence(
    base: Seq<Vec<SflRecord>>,
    ro: SflSimulationResult,
    rn: SflSimulationResult,
    recs: Seq<Vec<SflRecord>>,
    es: Seq<(usize, u32, i32, SflTeam)>,
    ef: Seq<(usize, u32, i32, SflTeam)>,
    w1s: SflTeam,
    w2s: SflTeam,
    w1f: SflTeam,
    w2f: SflTeam,
    champion: SflTeam,
) -> bool {
    let exits_s = stepladder_of(es, w1s, w2s);
    let exits_f = stepladder_of(ef, w1f, w2f);
    let fin0 = exits_s.2;
    let fin1 = exits_f.2;
    &&& consistent_sample(recs, base)
    &&& standings_evidence(es, recs, 0)
    &&& standings_evidence(ef, recs, 6)
    &&& (w1s == es[2].3 || w1s == es[1].3)
    &&& (w2s == advance_of(es[2], es[1], w1s).0.3 || w2s == es[0].3)
    &&& (w1f == ef[2].3 || w1f == ef[1].3)
    &&& (w2f == advance_of(ef[2], ef[1], w1f).0.3 || w2f == ef[0].3)
    &&& (champion == fin0.3 || champion == fin1.3)
    &&& forall|i: int, j: int|
        0 <= i < 12 && 0 <= j < 4 ==> (#[trigger] rn.playoff_place_count@[i]@[j])
            == ro.playoff_place_count@[i]@[j] + (if i == exits_s.0 && j == 3 {
            1int
        } else {
            0int
        }) + (if i == exits_s.1 && j == 2 {
            1int
        } else {
            0int
        }) + (if i == exits_f.0 && j == 3 {
            1int
        } else {
            0int
        }) + (if i == exits_f.1 && j == 2 {
            1int
        } else {
            0int
        }) + (if i == champion.index_spec() && j == 0 {
            1int
        } else {
            0int
        }) + (if j == 1 && i == (if fin0.3 == champion {
            fin1.3.index_spec()
        } else {
            fin0.3.index_spec()
        }) {
            1int
        } else {
            0int
        })
    &&& forall|i: int, j: int|
        0 <= i < 60 && 0 <= j < 4 ==> (#[trigger] rn.match_points@[i]@[j]) == ro.match_points@[i]@[j]
            + fixture_breakdown(recs[i]@, j, 12)
    &&& forall|i: int, j: int|
        0 <= i < 12 && 0 <= j < 6 ==> (#[trigger] rn.division_place_count@[i]@[j])
            == ro.division_place_count@[i]@[j] + (if es[j].0 == i {
            1int
        } else {
            0int
        }) + (if ef[j].0 == i {
            1int
        } else {
            0int
        })
    &&& forall|i: int|
        0 <= i < 12 ==> (#[trigger] rn.division_points_battles@[i]@[0])
            == ro.division_points_battles@[i]@[0] + placed_points(es, i) + placed_points(ef, i)
    &&& forall|i: int|
        0 <= i < 12 ==> (#[trigger] rn.division_points_battles@[i]@[1])
            == ro.division_points_battles@[i]@[1] + placed_battles(es, i) + placed_battles(ef, i)
    &&& forall|a: int, b: int, c: int|
        #![trigger rn.division_place_detail@[a]@[b]@[c]]
        0 <= a < 12 && 0 <= b < 12 && 0 <= c < 12 ==> rn.division_place_detail@[a]@[b]@[c]
            == ro.division_place_detail@[a]@[b]@[c] + (if a == es[0].0 && b == es[1].0 && c
            == es[2].0 {
            1int
        } else {
            0int
        }) + (if a == ef[0].0 && b == ef[1].0 && c == ef[2].0 {
            1int
        } else {
            0int
        })
}

/// One division's unsorted standings entries: entry `k` is the division's
/// `k`-th team with its trial points and battle differential.
fn division_entries(
    teams: &Vec<SflTeam>,
    base: usize,
    point_count: &Vec<u32>,
    battle_count: &Vec<i32>,
) -> (es: Vec<(usize, u32, i32, SflTeam)>)
    requires
        teams@.len() == 6,
        base == 0 || base == 6,
        forall|k: int| 0 <= k < 6 ==> (#[trigger] teams@[k]).index_spec() == base + k,
        point_count@.len() == 12,
        battle_count@.len() == 12,
        forall|q: int| 0 <= q < 12 ==> #[trigger] point_count@[q] <= 14400,
        forall|q: int| 0 <= q < 12 ==> -720 <= #[trigger] battle_count@[q] <= 720,
    ensures
        es@.len() == 6,
        forall|k: int|
            0 <= k < 6 ==> (#[trigger] es@[k]) == (
                (base + k) as usize,
                point_count@[base + k],
                battle_count@[base + k],
                teams@[k],
            ),
        forall|k: int| 0 <= k < 6 ==> entry_bounded(#[trigger] es@[k]),
        forall|q: int|
            occ(es@, q) == (if base <= q < base + 6 {
                1int
            } else {
                0int
            }),
{
    let mut es: Vec<(usize, u32, i32, SflTeam)> = Vec::new();
    let mut t: usize = 0;
    while t < teams.len()
        invariant
            t <= 6,
            teams@.len() == 6,
            base == 0 || base == 6,
            forall|k: int| 0 <= k < 6 ==> (#[trigger] teams@[k]).index_spec() == base + k,
            point_count@.len() == 12,
            battle_count@.len() == 12,
            forall|q: int| 0 <= q < 12 ==> #[trigger] point_count@[q] <= 14400,
            forall|q: int| 0 <= q < 12 ==> -720 <= #[trigger] battle_count@[q] <= 720,
            es@.len() == t,
            forall|k: int|
                0 <= k < t ==> (#[trigger] es@[k]) == (
                    (base + k) as usize,
                    point_count@[base + k],
                    battle_count@[base + k],
                    teams@[k],
                ),
            forall|k: int| 0 <= k < t ==> entry_bounded(#[trigger] es@[k]),
            forall|q: int|
                occ(es@, q) == (if base <= q < base + t {
                    1int
                } else {
                    0int
                }),
        decreases 6 - t,
    {
        let team = teams[t];
        let team_index = team.get_index();
        proof {
            assert(teams@[t as int].index_spec() == base + t);
        }
        let ghost before = es@;
        let entry = (team_index, point_count[team_index], battle_count[team_index], team);
        es.push(entry);
        proof {
            assert forall|q: int| occ(es@, q) == (if base <= q < base + t + 1 {
                1int
            } else {
                0int
            }) by {
                lemma_occ_push(before, entry, q);
            }
        }
        t = t + 1;
    }
    es
}

/// Adds one to a grid cell, touching nothing else.
fn bump_u32_cell(grid: &mut Vec<Vec<u32>>, r: usize, c: usize)
    requires
        r < old(grid)@.len(),
        c < old(grid)@[r as int]@.len(),
        old(grid)@[r as int]@[c as int] < 4294000000,
    ensures
        final(grid)@.len() == old(grid)@.len(),
        forall|i: int|
            0 <= i < old(grid)@.len() ==> (#[trigger] final(grid)@[i])@.len() == old(grid)@[i]@.len(),
        forall|i: int, j: int|
            0 <= i < old(grid)@.len() && 0 <= j < old(grid)@[i]@.len() ==> (#[trigger] final(grid)@[i]@[j]) == old(grid)@[i]@[j] + (if i == r && j == c {
                1int
            } else {
                0int
            }),
{
    let row = &mut grid[r];
    let cur = row[c];
    row[c] = cur + 1;
}

/// Adds a signed amount to a grid cell, touching nothing else.
fn add_i32_cell(grid: &mut Vec<Vec<i32>>, r: usize, c: usize, v: i32)
    requires
        r < old(grid)@.len(),
        c < old(grid)@[r as int]@.len(),
        -2100000000 <= old(grid)@[r as int]@[c as int] + v <= 2100000000,
    ensures
        final(grid)@.len() == old(grid)@.len(),
        forall|i: int|
            0 <= i < old(grid)@.len() ==> (#[trigger] final(grid)@[i])@.len() == old(grid)@[i]@.len(),
        forall|i: int, j: int|
            0 <= i < old(grid)@.len() && 0 <= j < old(grid)@[i]@.len() ==> (#[trigger] final(grid)@[i]@[j]) == old(grid)@[i]@[j] + (if i == r && j == c {
                v as int
            } else {
                0int
            }),
{
    let row = &mut grid[r];
    let cur = row[c];
    row[c] = cur + v;
}

/// Adds one to a placement-detail cell, touching nothing else.
fn bump_detail_cell(grid: &mut Vec<Vec<Vec<usize>>>, a: usize, b: usize, c: usize)
    requires
        a < old(grid)@.len(),
        b < old(grid)@[a as int]@.len(),
        c < old(grid)@[a as int]@[b as int]@.len(),
        old(grid)@[a as int]@[b as int]@[c as int] < 1000000000,
    ensures
        final(grid)@.len() == old(grid)@.len(),
        forall|i: int|
            0 <= i < old(grid)@.len() ==> (#[trigger] final(grid)@[i])@.len() == old(grid)@[i]@.len(),
        forall|i: int, j: int|
            #![all_triggers]
            0 <= i < old(grid)@.len() && 0 <= j < old(grid)@[i]@.len() ==> final(grid)@[i]@[j]@.len() == old(grid)@[i]@[j]@.len(),
        forall|i: int, j: int, k: int|
            #![all_triggers]
            0 <= i < old(grid)@.len() && 0 <= j < old(grid)@[i]@.len() && 0 <= k < old(grid)@[i]@[j]@.len() ==> final(grid)@[i]@[j]@[k] == old(grid)@[i]@[j]@[k] + (if i == a && j
                == b && k == c {
                1int
            } else {
                0int
            }),
{
    let plane = &mut grid[a];
    let row = &mut plane[b];
    let cur = row[c];
    row[c] = cur + 1;
}

/// One division's placement bookkeeping from its sorted standings: the
/// placement histogram, the running point and battle sums, and the
/// top-three detail grid.
fn record_division_placements(
    dpc: &mut Vec<Vec<u32>>,
    dpb: &mut Vec<Vec<i32>>,
    detail: &mut Vec<Vec<Vec<usize>>>,
    sorted: &Vec<(usize, u32, i32, SflTeam)>,
)
    requires
        old(dpc)@.len() == 12,
        forall|i: int| 0 <= i < 12 ==> (#[trigger] old(dpc)@[i])@.len() == 6,
        forall|i: int, j: int|
            #![all_triggers]
            0 <= i < 12 && 0 <= j < 6 ==> old(dpc)@[i]@[j] <= 4000000000,
        old(dpb)@.len() == 12,
        forall|i: int| 0 <= i < 12 ==> (#[trigger] old(dpb)@[i])@.len() == 2,
        forall|i: int, j: int|
            #![trigger old(dpb)@[i]@[j]]
            0 <= i < 12 && 0 <= j < 2 ==> -2000000000 <= old(dpb)@[i]@[j] <= 2000000000,
        old(detail)@.len() == 12,
        forall|i: int| 0 <= i < 12 ==> (#[trigger] old(detail)@[i])@.len() == 12,
        forall|i: int, j: int|
            #![all_triggers]
            0 <= i < 12 && 0 <= j < 12 ==> old(detail)@[i]@[j]@.len() == 12,
        forall|i: int, j: int, k: int|
            #![trigger old(detail)@[i]@[j]@[k]]
            0 <= i < 12 && 0 <= j < 12 && 0 <= k < 12 ==> old(detail)@[i]@[j]@[k] <= 999000000,
        sorted@.len() == 6,
        forall|k: int| 0 <= k < 6 ==> entry_bounded(#[trigger] sorted@[k]),
    ensures
        final(dpc)@.len() == 12,
        forall|i: int| 0 <= i < 12 ==> (#[trigger] final(dpc)@[i])@.len() == 6,
        forall|i: int, j: int|
            0 <= i < 12 && 0 <= j < 6 ==> (#[trigger] final(dpc)@[i]@[j]) == old(dpc)@[i]@[j] + (
            if sorted@[j].0 == i {
                1int
            } else {
                0int
            }),
        forall|i: int, j: int|
            0 <= i < 12 && 0 <= j < 6 ==> old(dpc)@[i]@[j] <= (#[trigger] final(dpc)@[i]@[j]) <= old(dpc)@[i]@[j] + 6,
        forall|t: int|
            0 <= t < 12 ==> row_sum(#[trigger] final(dpc)@[t]@) == row_sum(old(dpc)@[t]@) + occ(
                sorted@,
                t,
            ),
        final(dpb)@.len() == 12,
        forall|i: int| 0 <= i < 12 ==> (#[trigger] final(dpb)@[i])@.len() == 2,
        forall|i: int|
            0 <= i < 12 ==> (#[trigger] final(dpb)@[i]@[0]) == old(dpb)@[i]@[0] + placed_points(
                sorted@,
                i,
            ),
        forall|i: int|
            0 <= i < 12 ==> (#[trigger] final(dpb)@[i]@[1]) == old(dpb)@[i]@[1] + placed_battles(
                sorted@,
                i,
            ),
        forall|i: int|
            0 <= i < 12 ==> old(dpb)@[i]@[0] <= (#[trigger] final(dpb)@[i]@[0]) <= old(dpb)@[i]@[0] + 86400,
        forall|i: int|
            0 <= i < 12 ==> old(dpb)@[i]@[1] - 4320 <= (#[trigger] final(dpb)@[i]@[1]) <= old(dpb)@[i]@[1] + 4320,
        final(detail)@.len() == 12,
        forall|i: int| 0 <= i < 12 ==> (#[trigger] final(detail)@[i])@.len() == 12,
        forall|i: int, j: int|
            #![all_triggers]
            0 <= i < 12 && 0 <= j < 12 ==> final(detail)@[i]@[j]@.len() == 12,
        forall|i: int, j: int, k: int|
            #![trigger final(detail)@[i]@[j]@[k]]
            0 <= i < 12 && 0 <= j < 12 && 0 <= k < 12 ==> final(detail)@[i]@[j]@[k] == old(
                detail,
            )@[i]@[j]@[k] + (if i == sorted@[0].0 && j == sorted@[1].0 && k == sorted@[2].0 {
                1int
            } else {
                0int
            }),
{
    let mut nth: usize = 0;
    while nth < 6
        invariant
            nth <= 6,
            sorted@.len() == 6,
            forall|k: int| 0 <= k < 6 ==> entry_bounded(#[trigger] sorted@[k]),
            dpc@.len() == 12,
            forall|i: int| 0 <= i < 12 ==> (#[trigger] dpc@[i])@.len() == 6,
            forall|i: int, j: int|
                0 <= i < 12 && 0 <= j < 6 ==> (#[trigger] dpc@[i]@[j]) == old(dpc)@[i]@[j] + (
                if j < nth && sorted@[j].0 == i {
                    1int
                } else {
                    0int
                }),
            forall|i: int, j: int|
                0 <= i < 12 && 0 <= j < 6 ==> old(dpc)@[i]@[j] <= (#[trigger] dpc@[i]@[j]) <= old(dpc)@[i]@[j] + nth,
            forall|t: int|
                0 <= t < 12 ==> row_sum(#[trigger] dpc@[t]@) == row_sum(old(dpc)@[t]@) + occ(
                    sorted@.subrange(0, nth as int),
                    t,
                ),
            dpb@.len() == 12,
            forall|i: int| 0 <= i < 12 ==> (#[trigger] dpb@[i])@.len() == 2,
            forall|i: int|
                0 <= i < 12 ==> (#[trigger] dpb@[i]@[0]) == old(dpb)@[i]@[0] + placed_points(
                    sorted@.subrange(0, nth as int),
                    i,
                ),
            forall|i: int|
                0 <= i < 12 ==> (#[trigger] dpb@[i]@[1]) == old(dpb)@[i]@[1] + placed_battles(
                    sorted@.subrange(0, nth as int),
                    i,
                ),
            forall|i: int|
                0 <= i < 12 ==> old(dpb)@[i]@[0] <= (#[trigger] dpb@[i]@[0]) <= old(dpb)@[i]@[0] + 14400 * nth,
            forall|i: int|
                0 <= i < 12 ==> old(dpb)@[i]@[1] - 720 * nth <= (#[trigger] dpb@[i]@[1]) <= old(dpb)@[i]@[1] + 720 * nth,
            forall|i: int, j: int|
                #![all_triggers]
                0 <= i < 12 && 0 <= j < 6 ==> old(dpc)@[i]@[j] <= 4000000000,
            forall|i: int, j: int|
                #![trigger old(dpb)@[i]@[j]]
                0 <= i < 12 && 0 <= j < 2 ==> -2000000000 <= old(dpb)@[i]@[j] <= 2000000000,
        decreases 6 - nth,
    {
        let e = sorted[nth];
        let ghost dpc_before = dpc@;
        bump_u32_cell(dpc, e.0, nth);
        proof {
            assert forall|t: int| 0 <= t < 12 implies row_sum(#[trigger] dpc@[t]@) == row_sum(
                old(dpc)@[t]@,
            ) + occ(sorted@.subrange(0, nth as int + 1), t) by {
                assert(sorted@.subrange(0, nth as int + 1).drop_last() =~= sorted@.subrange(
                    0,
                    nth as int,
                ));
                if t == e.0 {
                    assert(dpc@[t]@ =~= dpc_before[t]@.update(nth as int, (dpc_before[t]@[nth as int] + 1) as u32));
                    lemma_row_sum_update(
                        dpc_before[t]@,
                        nth as int,
                        (dpc_before[t]@[nth as int] + 1) as u32,
                    );
                } else {
                    assert(dpc@[t]@ =~= dpc_before[t]@);
                }
            }
        }
        add_i32_cell(dpb, e.0, 0, e.1 as i32);
        add_i32_cell(dpb, e.0, 1, e.2);
        proof {
            assert(sorted@.subrange(0, nth as int + 1).drop_last() =~= sorted@.subrange(
                0,
                nth as int,
            ));
            assert(sorted@.subrange(0, nth as int + 1).last() == sorted@[nth as int]);
        }
        nth = nth + 1;
    }
    proof {
        assert(sorted@.subrange(0, 6) =~= sorted@);
    }
    let first = sorted[0].0;
    let second = sorted[1].0;
    let third = sorted[2].0;
    bump_detail_cell(detail, first, second, third);
}

/// Counts one playoff outcome: adds one to the team's cell in the given
/// outcome column, raising exactly that column's total.
fn record_playoff_outcome(ppc: &mut Vec<Vec<u32>>, team_index: usize, col: usize)
    requires
        old(ppc)@.len() == 12,
        forall|i: int| 0 <= i < 12 ==> (#[trigger] old(ppc)@[i])@.len() == 4,
        team_index < 12,
        col < 4,
        old(ppc)@[team_index as int]@[col as int] < 4294000000,
    ensures
        final(ppc)@.len() == 12,
        forall|i: int| 0 <= i < 12 ==> (#[trigger] final(ppc)@[i])@.len() == 4,
        forall|i: int, j: int|
            0 <= i < 12 && 0 <= j < 4 ==> (#[trigger] final(ppc)@[i]@[j]) == old(ppc)@[i]@[j] + (
            if i == team_index && j == col {
                1int
            } else {
                0int
            }),
        col_sum(final(ppc)@, 0) == col_sum(old(ppc)@, 0) + (if col == 0 {
            1int
        } else {
            0int
        }),
        col_sum(final(ppc)@, 1) == col_sum(old(ppc)@, 1) + (if col == 1 {
            1int
        } else {
            0int
        }),
        col_sum(final(ppc)@, 2) == col_sum(old(ppc)@, 2) + (if col == 2 {
            1int
        } else {
            0int
        }),
        col_sum(final(ppc)@, 3) == col_sum(old(ppc)@, 3) + (if col == 3 {
            1int
        } else {
            0int
        }),
{
    bump_u32_cell(ppc, team_index, col);
    proof {
        lemma_col_sum_bump(old(ppc)@, ppc@, team_index as int, col as int, 0);
        lemma_col_sum_bump(old(ppc)@, ppc@, team_index as int, col as int, 1);
        lemma_col_sum_bump(old(ppc)@, ppc@, team_index as int, col as int, 2);
        lemma_col_sum_bump(old(ppc)@, ppc@, team_index as int, col as int, 3);
    }
}

/// How one trial may move the accumulators: bounded, monotone growth of the
/// histograms and point sums, the read-out orderings untouched.
pub open spec fn trial_growth(o: SflSimulationResult, n: SflSimulationResult) -> bool {
    &&& result_shape(n)
    &&& forall|i: int, j: int|
        0 <= i < 12 && 0 <= j < 6 ==> o.division_place_count@[i]@[j] <= (
        #[trigger] n.division_place_count@[i]@[j]) <= o.division_place_count@[i]@[j] + 12
    &&& forall|i: int|
        0 <= i < 12 ==> o.division_points_battles@[i]@[0] <= (
        #[trigger] n.division_points_battles@[i]@[0]) <= o.division_points_battles@[i]@[0] + 172800
    &&& forall|i: int|
        0 <= i < 12 ==> o.division_points_battles@[i]@[1] - 8640 <= (
        #[trigger] n.division_points_battles@[i]@[1]) <= o.division_points_battles@[i]@[1] + 8640
    &&& forall|i: int, j: int|
        0 <= i < 12 && 0 <= j < 4 ==> o.playoff_place_count@[i]@[j] <= (
        #[trigger] n.playoff_place_count@[i]@[j]) <= o.playoff_place_count@[i]@[j] + 6
    &&& forall|i: int, j: int|
        0 <= i < 60 && 0 <= j < 4 ==> o.match_points@[i]@[j] <= (#[trigger] n.match_points@[i]@[j])
            <= o.match_points@[i]@[j] + 240
    &&& forall|i: int, j: int, k: int|
        #![trigger n.division_place_detail@[i]@[j]@[k]]
        0 <= i < 12 && 0 <= j < 12 && 0 <= k < 12 ==> o.division_place_detail@[i]@[j]@[k]
            <= n.division_place_detail@[i]@[j]@[k] <= o.division_place_detail@[i]@[j]@[k] + 2
    &&& n.division_places == o.division_places
    &&& n.playoff_places == o.playoff_places
    &&& n.division_place_detail_flatten == o.division_place_detail_flatten
}

/// The room one trial needs so no accumulator can wrap.
pub open spec fn result_headroom(r: SflSimulationResult) -> bool {
    &&& forall|i: int, j: int|
        #![all_triggers]
        0 <= i < 12 && 0 <= j < 6 ==> r.division_place_count@[i]@[j] <= 3999999000
    &&& forall|i: int, j: int|
        #![trigger r.division_points_battles@[i]@[j]]
        0 <= i < 12 && 0 <= j < 2 ==> -1999000000 <= r.division_points_battles@[i]@[j]
            <= 1999000000
    &&& forall|i: int, j: int|
        #![all_triggers]
        0 <= i < 12 && 0 <= j < 4 ==> r.playoff_place_count@[i]@[j] <= 3999999000
    &&& forall|i: int, j: int|
        #![all_triggers]
        0 <= i < 60 && 0 <= j < 4 ==> r.match_points@[i]@[j] <= 24000000
    &&& forall|i: int, j: int, k: int|
        #![trigger r.division_place_detail@[i]@[j]@[k]]
        0 <= i < 12 && 0 <= j < 12 && 0 <= k < 12 ==> r.division_place_detail@[i]@[j]@[k]
            <= 998000000
}

/// How many entries of a place list equal team index `t`.
pub open spec fn occ_usize(s: Seq<usize>, t: int) -> int
    decreases s.len(),
{
    if s.len() == 0 {
        0
    } else {
        occ_usize(s.drop_last(), t) + if s.last() == t {
            1int
        } else {
            0int
        }
    }
}

/// Team-index counts are never negative.
proof fn lemma_occ_nonneg(s: Seq<(usize, u32, i32, SflTeam)>, t: int)
    ensures
        occ(s, t) >= 0,
    decreases s.len(),
{
    if s.len() > 0 {
        lemma_occ_nonneg(s.drop_last(), t);
    }
}

/// A team index standing in the sequence is counted at least once.
proof fn lemma_occ_index(s: Seq<(usize, u32, i32, SflTeam)>, k: int)
    requires
        0 <= k < s.len(),
    ensures
        occ(s, s[k].0 as int) >= 1,
    decreases s.len(),
{
    if k < s.len() - 1 {
        lemma_occ_index(s.drop_last(), k);
    } else {
        lemma_occ_nonneg(s.drop_last(), s[k].0 as int);
    }
}

/// Two positions carrying one team index are counted at least twice.
proof fn lemma_occ_two(s: Seq<(usize, u32, i32, SflTeam)>, a: int, b: int)
    requires
        0 <= a < b < s.len(),
        s[a].0 == s[b].0,
    ensures
        occ(s, s[a].0 as int) >= 2,
    decreases s.len(),
{
    if b == s.len() - 1 {
        lemma_occ_index(s.drop_last(), a);
    } else {
        lemma_occ_two(s.drop_last(), a, b);
    }
}

/// The expected placement order over twelve accumulated keys: the team
/// indices `base..base + span`, higher key first, ties kept in team listing
/// order; every such index appears exactly once.
fn order_by_key(base: usize, span: usize, keys: &Vec<u32>) -> (places: Vec<usize>)
    requires
        keys@.len() == 12,
        base + span <= 12,
        1 <= span,
    ensures
        places@.len() == span,
        forall|p: int| 0 <= p < span ==> base <= (#[trigger] places@[p]) < base + span,
        forall|t: int|
            occ_usize(places@, t) == (if base <= t < base + span {
                1int
            } else {
                0int
            }),
        forall|a: int, b: int|
            0 <= a < b < span ==> keys@[places@[a] as int] > keys@[places@[b] as int] || (
            keys@[places@[a] as int] == keys@[places@[b] as int] && places@[a] < places@[b]),
{
    // Entries carry the reversed index so the standings order's final
    // index-descending tiebreak keeps ties in team listing order.
    let mut entries: Vec<(usize, u32, i32, SflTeam)> = Vec::new();
    let mut k: usize = 0;
    while k < span
        invariant
            k <= span,
            base + span <= 12,
            keys@.len() == 12,
            entries@.len() == k,
            forall|q: int|
                0 <= q < k ==> (#[trigger] entries@[q]) == (
                    (11 - (base + q)) as usize,
                    keys@[base + q],
                    0i32,
                    SflTeam::G8S,
                ),
            forall|q: int|
                occ(entries@, q) == (if 11 - (base + k) < q <= 11 - base {
                    1int
                } else {
                    0int
                }),
        decreases span - k,
    {
        let idx = base + k;
        let ghost before = entries@;
        let entry = (11 - idx, keys[idx], 0i32, SflTeam::G8S);
        entries.push(entry);
        proof {
            assert forall|q: int| occ(entries@, q) == (if 11 - (base + k + 1) < q <= 11 - base {
                1int
            } else {
                0int
            }) by {
                lemma_occ_push(before, entry, q);
            }
        }
        k = k + 1;
    }
    let ghost unsorted = entries@;
    sort_standings(&mut entries);
    proof {
        assert forall|p: int| 0 <= p < span implies {
            &&& 11 - (base + span) < (#[trigger] entries@[p]).0 <= 11 - base
            &&& entries@[p].1 == keys@[11 - entries@[p].0 as int]
            &&& entries@[p].2 == 0
        } by {
            lemma_occ_entry_index(entries@, p);
            lemma_occ_entry_pos(unsorted, entries@[p]);
            let q = choose|q: int| 0 <= q < unsorted.len() && unsorted[q] == entries@[p];
            assert(unsorted[q].0 == 11 - (base + q));
        }
    }
    let mut places: Vec<usize> = Vec::new();
    let mut p: usize = 0;
    while p < span
        invariant
            p <= span,
            base + span <= 12,
            keys@.len() == 12,
            entries@.len() == span,
            places@.len() == p,
            forall|q: int|
                0 <= q < span ==> {
                    &&& 11 - (base + span) < (#[trigger] entries@[q]).0 <= 11 - base
                    &&& entries@[q].1 == keys@[11 - entries@[q].0 as int]
                    &&& entries@[q].2 == 0
                },
            forall|a: int, b: int|
                0 <= a < b < span ==> !ranks_before(entries@[b], entries@[a]),
            forall|t: int|
                occ(entries@, t) == (if 11 - (base + span) < t <= 11 - base {
                    1int
                } else {
                    0int
                }),
            forall|q: int| 0 <= q < p ==> (#[trigger] places@[q]) == 11 - entries@[q].0,
            forall|t: int|
                occ_usize(places@, t) == occ(entries@.subrange(0, p as int), 11 - t),
        decreases span - p,
    {
        let ghost places_before = places@;
        places.push(11 - entries[p].0);
        proof {
            assert(entries@.subrange(0, p as int + 1).drop_last() =~= entries@.subrange(
                0,
                p as int,
            ));
            assert(entries@.subrange(0, p as int + 1).last() == entries@[p as int]);
            assert(places@.drop_last() =~= places_before);
            assert forall|t: int| occ_usize(places@, t) == occ(
                entries@.subrange(0, p as int + 1),
                11 - t,
            ) by {
                assert(occ_usize(places@, t) == occ_usize(places_before, t) + (if places@.last()
                    == t {
                    1int
                } else {
                    0int
                }));
            }
        }
        p = p + 1;
    }
    proof {
        assert(entries@.subrange(0, span as int) =~= entries@);
        assert forall|a: int, b: int|
            0 <= a < b < span implies keys@[places@[a] as int] > keys@[places@[b] as int] || (
        keys@[places@[a] as int] == keys@[places@[b] as int] && places@[a] < places@[b]) by {
            assert(!ranks_before(entries@[b], entries@[a]));
            if entries@[a].1 == entries@[b].1 && entries@[a].0 == entries@[b].0 {
                lemma_occ_two(entries@, a, b);
                assert(occ(entries@, entries@[a].0 as int) >= 2);
                assert(false);
            }
        }
    }
    places
}

/// The advancement rule of one stepladder round: the side the race named
/// keeps climbing, the other is out.
fn stepladder_advance(
    contender: (usize, u32, i32, SflTeam),
    defender: (usize, u32, i32, SflTeam),
    winner: SflTeam,
) -> (r: ((usize, u32, i32, SflTeam), (usize, u32, i32, SflTeam)))
    ensures
        r == (if contender.3 == winner {
            (contender, defender)
        } else {
            (defender, contender)
        }),
{
    if contender.3 == winner {
        (contender, defender)
    } else {
        (defender, contender)
    }
}

/// The grand final's slot assignment: the finalist with the better regular
/// season — more accumulated points, ties broken by battle differential —
/// wins the right to be away, taking the fixture's `team` slot (synthesized
/// fixtures are not home fixtures, so the `team` slot carries the away
/// rating context and the `opponent_team` slot the home one).
fn grand_final_slots(
    a: (usize, u32, i32, SflTeam),
    b: (usize, u32, i32, SflTeam),
) -> (r: ((usize, u32, i32, SflTeam), (usize, u32, i32, SflTeam)))
    ensures
        r == (if b.1 > a.1 || (b.1 == a.1 && b.2 > a.2) {
            (b, a)
        } else {
            (a, b)
        }),
{
    if b.1 > a.1 || (b.1 == a.1 && b.2 > a.2) {
        (b, a)
    } else {
        (a, b)
    }
}

/// Whether a flattened detail row mentions a team in its top-three triple.
pub open spec fn detail_mentions(row: Seq<usize>, t: int) -> bool {
    row[0] == t || row[1] == t || row[2] == t
}

/// The detail rows among the first `n` that mention team `t`, in stored
/// order, read into `DivisionPlaceDetail` values.
pub open spec fn details_for(rows: Seq<Vec<usize>>, t: int, n: int) -> Seq<DivisionPlaceDetail>
    decreases n,
{
    if n <= 0 {
        Seq::empty()
    } else if detail_mentions(rows[n - 1]@, t) {
        details_for(rows, t, n - 1).push(
            DivisionPlaceDetail {
                first: rows[n - 1]@[0],
                second: rows[n - 1]@[1],
                third: rows[n - 1]@[2],
                time: rows[n - 1]@[3],
            },
        )
    } else {
        details_for(rows, t, n - 1)
    }
}

/// The views of a list of flattened detail rows.
pub open spec fn flat_views(rows: Seq<Vec<usize>>) -> Seq<Seq<usize>> {
    rows.map_values(|v: Vec<usize>| v@)
}

/// The flattened detail rows of the first `m` cells of the placement grid,
/// walked first place, then second, then third: one `[first, second,
/// third, count]` row for every nonzero cell, in walk order.
pub open spec fn detail_rows_upto(g: Seq<Vec<Vec<usize>>>, m: int) -> Seq<Seq<usize>>
    decreases m,
{
    if m <= 0 {
        Seq::empty()
    } else {
        let a = (m - 1) / 144;
        let b = ((m - 1) / 12) % 12;
        let c = (m - 1) % 12;
        if g[a]@[b]@[c] > 0 {
            detail_rows_upto(g, m - 1).push(
                seq![a as usize, b as usize, c as usize, g[a]@[b]@[c]],
            )
        } else {
            detail_rows_upto(g, m - 1)
        }
    }
}

/// The grand final of one trial: the better regular season takes the away
/// slot, a fresh 47-game fixture is sampled and raced, and the champion and
/// runner-up are counted.  Returns the champion, one of the two finalists.
fn grand_final_outcome(
    ppc: &mut Vec<Vec<u32>>,
    fin0: (usize, u32, i32, SflTeam),
    fin1: (usize, u32, i32, SflTeam),
    ratings: &Vec<i64>,
    enable_rate: bool,
    rng: &mut StdRng,
) -> (champion: SflTeam)
    requires
        old(ppc)@.len() == 12,
        forall|i: int| 0 <= i < 12 ==> (#[trigger] old(ppc)@[i])@.len() == 4,
        forall|i: int, j: int|
            #![all_triggers]
            0 <= i < 12 && 0 <= j < 4 ==> old(ppc)@[i]@[j] < 4000000100,
        ratings@.len() == 48,
        forall|k: int| 0 <= k < 48 ==> -RATING_BOUND <= #[trigger] ratings@[k] <= RATING_BOUND,
    ensures
        champion == fin0.3 || champion == fin1.3,
        final(ppc)@.len() == 12,
        forall|i: int| 0 <= i < 12 ==> (#[trigger] final(ppc)@[i])@.len() == 4,
        forall|i: int, j: int|
            0 <= i < 12 && 0 <= j < 4 ==> (#[trigger] final(ppc)@[i]@[j]) == old(ppc)@[i]@[j] + (
            if i == champion.index_spec() && j == 0 {
                1int
            } else {
                0int
            }) + (if j == 1 && i == (if fin0.3 == champion {
                fin1.3.index_spec()
            } else {
                fin0.3.index_spec()
            }) {
                1int
            } else {
                0int
            }),
        col_sum(final(ppc)@, 0) == col_sum(old(ppc)@, 0) + 1,
        col_sum(final(ppc)@, 1) == col_sum(old(ppc)@, 1) + 1,
        col_sum(final(ppc)@, 2) == col_sum(old(ppc)@, 2),
        col_sum(final(ppc)@, 3) == col_sum(old(ppc)@, 3),
{
    let (gf_team, gf_opponent) = grand_final_slots(fin0, fin1);
    let mut records = SflStage::JP2024GrandFinal.get_grand_final_records(
        &gf_team.3,
        &gf_opponent.3,
    );
    sample_series(&mut records, ratings, enable_rate, rng);
    let (champion, _, _) = SflStage::JP2024GrandFinal.get_win_team(&records);
    record_playoff_outcome(ppc, champion.get_index(), 0);
    let runner_up_index = if fin0.3 == champion {
        fin1.3.get_index()
    } else {
        fin0.3.get_index()
    };
    record_playoff_outcome(ppc, runner_up_index, 1);
    champion
}

/// The simulation engine: the schedule's record store, the fitted rating
/// snapshot, current statistics, and the accumulated trial results.
pub struct SflSimulation {
    pub count: usize,
    pub option: SimulationOption,
    pub sfl_stage: SflStage,
    pub sfl_records: Vec<Vec<SflRecord>>,
    pub sfl_rating: SflRating,
    pub max_team_index: usize,
    pub sfl_stats: SflStats,
    pub result: SflSimulationResult,
}

impl SflSimulation {
    /// A fresh engine over the full league schedule and, on request, the
    /// stored previously simulated result snapshot.  The ratings start at
    /// the 48-slot baseline (1500 per team and context) right away — a
    /// fresh engine can simulate before any result has been loaded.
    pub fn new(simulated: bool) -> (s: SflSimulation)
        ensures
            sim_wf(s),
            s.count == 10000,
            s.option.enable_rate,
            s.sfl_stage == SflStage::JP2024AllDivision,
            s.max_team_index == 11,
            s.sfl_records@.len() == 60,
            forall|i: int|
                0 <= i < 60 ==> crate::schedule::fresh_fixture_records(
                    (#[trigger] s.sfl_records@[i])@,
                    SflStage::JP2024AllDivision,
                    i,
                ),
            forall|k: int| 0 <= k < 48 ==> #[trigger] s.sfl_rating.ratings@[k] == INITIAL_RATING,
            forall|t: int| 0 <= t < 12 ==> #[trigger] s.sfl_stats.points@[t] == 0,
            forall|t: int| 0 <= t < 12 ==> #[trigger] s.sfl_stats.battles@[t] == 0,
            !simulated ==> {
                &&& forall|i: int, j: int|
                    #![all_triggers]
                    0 <= i < 12 && 0 <= j < 6 ==> s.result.division_place_count@[i]@[j] == 0
                &&& forall|i: int, j: int|
                    #![all_triggers]
                    0 <= i < 12 && 0 <= j < 4 ==> s.result.playoff_place_count@[i]@[j] == 0
                &&& forall|i: int, j: int|
                    #![all_triggers]
                    0 <= i < 12 && 0 <= j < 2 ==> s.result.division_points_battles@[i]@[j] == 0
                &&& forall|i: int, j: int|
                    #![all_triggers]
                    0 <= i < 60 && 0 <= j < 4 ==> s.result.match_points@[i]@[j] == 0
                &&& s.result.playoff_places@.len() == 0
                &&& s.result.division_place_detail_flatten@.len() == 0
            },
            simulated ==> {
                &&& forall|t: int|
                    0 <= t < 12 ==> row_sum(#[trigger] s.result.division_place_count@[t]@)
                        == 10000
                &&& s.result.division_places@[0]@ == seq![
                    0usize,
                    5usize,
                    2usize,
                    3usize,
                    4usize,
                    1usize,
                ]
                &&& s.result.playoff_places@ == seq![
                    9usize,
                    0usize,
                    5usize,
                    2usize,
                    6usize,
                    8usize,
                    10usize,
                    3usize,
                    7usize,
                    4usize,
                    1usize,
                    11usize,
                ]
            },
    {
        let sfl_records = SflStage::JP2024AllDivision.get_initial_records();
        let max_team_index: usize = SflStage::JP2024AllDivision.get_max_team_index();
        proof {
            assert(crate::schedule::teams_spec(SflStage::JP2024AllDivision)[11].index_spec()
                == 11);
        }
        let mut sfl_rating = SflRating::new();
        sfl_rating.calc_ratings(&SflStage::JP2024AllDivision, &sfl_records);
        proof {
            crate::rating::lemma_fit_fixtures_fresh(
                crate::rating::initial_ratings(),
                crate::rating::views_of(sfl_records@),
                60,
            );
            assert forall|k: int| 0 <= k < 48 implies #[trigger] sfl_rating.ratings@[k]
                == INITIAL_RATING by {
                assert(crate::rating::ratings_view(sfl_rating.ratings@)[k]
                    == crate::rating::initial_ratings()[k]);
            }
        }
        SflSimulation {
            count: 10000,
            option: SimulationOption { enable_rate: true },
            sfl_stage: SflStage::JP2024AllDivision,
            sfl_records,
            sfl_rating,
            max_team_index,
            sfl_stats: SflStats::new(),
            result: if simulated {
                SflSimulationResult::current_simulated_result()
            } else {
                SflSimulationResult::new()
            },
        }
    }

    /// Switches between rating-based and uniform sampling.
    pub fn enable_rate(&mut self, flag: bool)
        requires
            sim_wf(*old(self)),
        ensures
            sim_wf(*final(self)),
            final(self).option.enable_rate == flag,
            final(self).sfl_records == old(self).sfl_records,
            final(self).sfl_rating == old(self).sfl_rating,
            final(self).sfl_stats == old(self).sfl_stats,
            final(self).result == old(self).result,
            final(self).count == old(self).count,
            final(self).sfl_stage == old(self).sfl_stage,
            final(self).max_team_index == old(self).max_team_index,
    {
        self.option = SimulationOption { enable_rate: flag };
    }

    /// The display names of a stage's teams.
    pub fn get_team_names(&self, stage: SflStage) -> (names: Vec<String>)
        ensures
            names@.len() == crate::schedule::teams_spec(stage).len(),
            forall|i: int|
                0 <= i < names@.len() ==> (#[trigger] names@[i])@ == crate::schedule::teams_spec(
                    stage,
                )[i].name_spec(),
    {
        let teams = stage.get_teams();
        let mut names: Vec<String> = Vec::new();
        let mut i: usize = 0;
        while i < teams.len()
            invariant
                i <= teams@.len(),
                names@.len() == i,
                teams@ == crate::schedule::teams_spec(stage),
                forall|k: int|
                    0 <= k < i ==> (#[trigger] names@[k])@ == crate::schedule::teams_spec(
                        stage,
                    )[k].name_spec(),
            decreases teams@.len() - i,
        {
            names.push(teams[i].name());
            i = i + 1;
        }
        names
    }

    /// The stage's fixture list.
    pub fn get_matches(&self) -> (ms: Vec<SflMatch>)
        requires
            sim_wf(*self),
        ensures
            crate::schedule::schedule_spec(ms@, SflStage::JP2024AllDivision),
    {
        self.sfl_stage.get_matches()
    }

    /// A copy of one fixture's current records.
    pub fn get_match_records(&self, match_index: usize) -> (rs: Vec<SflRecord>)
        requires
            sim_wf(*self),
            match_index < 60,
        ensures
            rs@.len() == 12,
            forall|j: int| 0 <= j < 12 ==> record_eq(#[trigger] rs@[j], self.records_at(match_index as int)[j]),
    {
        let fixture = &self.sfl_records[match_index];
        let mut rs: Vec<SflRecord> = Vec::new();
        let mut j: usize = 0;
        while j < fixture.len()
            invariant
                j <= fixture@.len(),
                rs@.len() == j,
                fixture@ == self.sfl_records@[match_index as int]@,
                forall|b: int| 0 <= b < j ==> record_eq(#[trigger] rs@[b], fixture@[b]),
            decreases fixture@.len() - j,
        {
            rs.push(fixture[j].clone());
            j = j + 1;
        }
        rs
    }

    /// The record sequence of fixture `i`, as the engine holds it.
    pub open spec fn records_at(&self, i: int) -> Seq<SflRecord> {
        self.sfl_records@[i]@
    }

    /// The accumulated point breakdown of one fixture; empty when the index
    /// is outside the schedule.
    pub fn get_match_points(&self, match_index: usize) -> (r: Vec<u32>)
        requires
            sim_wf(*self),
        ensures
            match_index < 60 ==> r@ == self.result.match_points@[match_index as int]@,
            match_index >= 60 ==> r@.len() == 0,
    {
        if match_index < self.result.match_points.len() {
            let r = self.result.match_points[match_index].clone();
            proof {
                assert(r@ =~= self.result.match_points@[match_index as int]@);
            }
            r
        } else {
            Vec::new()
        }
    }

    /// The fitted rating of one (team, context) slot.
    pub fn get_rating(&self, team_index: usize, is_home: bool, is_reader: bool) -> (r: i64)
        requires
            sim_wf(*self),
            team_index < 12,
        ensures
            r == self.sfl_rating.ratings@[team_index * 4 + (if is_home {
                1int
            } else {
                0int
            }) + (if is_reader {
                2int
            } else {
                0int
            })],
    {
        self.sfl_rating.get_rating(team_index, is_home, is_reader)
    }

    /// The expected accumulated points of one team; zero outside the league.
    pub fn get_expect_point(&self, team_index: usize) -> (r: i32)
        requires
            sim_wf(*self),
        ensures
            team_index < 12 ==> r == self.result.division_points_battles@[team_index as int]@[0],
            team_index >= 12 ==> r == 0,
    {
        if team_index < self.result.division_points_battles.len() {
            self.result.division_points_battles[team_index][0]
        } else {
            0
        }
    }

    /// The expected accumulated battle differential of one team; zero
    /// outside the league.
    pub fn get_expect_battle(&self, team_index: usize) -> (r: i32)
        requires
            sim_wf(*self),
        ensures
            team_index < 12 ==> r == self.result.division_points_battles@[team_index as int]@[1],
            team_index >= 12 ==> r == 0,
    {
        if team_index < self.result.division_points_battles.len() {
            self.result.division_points_battles[team_index][1]
        } else {
            0
        }
    }

    /// A team's placement histogram: division placements for a division
    /// stage, playoff outcomes for the combined stage, empty otherwise or
    /// outside the league.
    pub fn get_place_count(&self, sfl_stage: SflStage, team_index: usize) -> (r: Vec<u32>)
        requires
            sim_wf(*self),
        ensures
            matches!(sfl_stage, SflStage::JP2024DivisionS | SflStage::JP2024DivisionF)
                && team_index < 12 ==> r@ == self.result.division_place_count@[team_index as int]@,
            sfl_stage == SflStage::JP2024AllDivision && team_index < 12 ==> r@
                == self.result.playoff_place_count@[team_index as int]@,
            matches!(sfl_stage, SflStage::JP2024Playoff | SflStage::JP2024GrandFinal)
                || team_index >= 12 ==> r@.len() == 0,
    {
        match sfl_stage {
            SflStage::JP2024DivisionS | SflStage::JP2024DivisionF => {
                if team_index < self.result.division_place_count.len() {
                    let r = self.result.division_place_count[team_index].clone();
                    proof {
                        assert(r@ =~= self.result.division_place_count@[team_index as int]@);
                    }
                    r
                } else {
                    Vec::new()
                }
            },
            SflStage::JP2024AllDivision => {
                if team_index < self.result.playoff_place_count.len() {
                    let r = self.result.playoff_place_count[team_index].clone();
                    proof {
                        assert(r@ =~= self.result.playoff_place_count@[team_index as int]@);
                    }
                    r
                } else {
                    Vec::new()
                }
            },
            _ => Vec::new(),
        }
    }

    /// The stored placement order: a division's expected order, or the
    /// playoff order for the combined stage.
    pub fn get_current_places(&self, stage: SflStage) -> (r: Vec<usize>)
        requires
            sim_wf(*self),
            self.result.division_places@.len() == 2,
        ensures
            stage == SflStage::JP2024DivisionS ==> r@ == self.result.division_places@[0]@,
            stage == SflStage::JP2024DivisionF ==> r@ == self.result.division_places@[1]@,
            stage == SflStage::JP2024AllDivision ==> r@ == self.result.playoff_places@,
            matches!(stage, SflStage::JP2024Playoff | SflStage::JP2024GrandFinal) ==> r@.len()
                == 0,
    {
        match stage {
            SflStage::JP2024DivisionS => {
                let r = self.result.division_places[0].clone();
                proof {
                    assert(r@ =~= self.result.division_places@[0]@);
                }
                r
            },
            SflStage::JP2024DivisionF => {
                let r = self.result.division_places[1].clone();
                proof {
                    assert(r@ =~= self.result.division_places@[1]@);
                }
                r
            },
            SflStage::JP2024AllDivision => {
                let r = self.result.playoff_places.clone();
                proof {
                    assert(r@ =~= self.result.playoff_places@);
                }
                r
            },
            _ => Vec::new(),
        }
    }

    /// The flattened placement-detail rows that mention a team in any of
    /// the top three places, as `details_for` lists them.
    pub fn get_division_places_detail(&mut self, team_index: usize) -> (r: Vec<DivisionPlaceDetail>)
        requires
            sim_wf(*old(self)),
        ensures
            *final(self) == *old(self),
            sim_wf(*final(self)),
            r@ == details_for(
                old(self).result.division_place_detail_flatten@,
                team_index as int,
                old(self).result.division_place_detail_flatten@.len() as int,
            ),
    {
        let rows = &self.result.division_place_detail_flatten;
        let mut r: Vec<DivisionPlaceDetail> = Vec::new();
        let mut i: usize = 0;
        while i < rows.len()
            invariant
                i <= rows@.len(),
                forall|k: int|
                    0 <= k < rows@.len() ==> (#[trigger] rows@[k])@.len() == 4,
                r@ == details_for(rows@, team_index as int, i as int),
            decreases rows@.len() - i,
        {
            let row = &rows[i];
            if row[0] == team_index || row[1] == team_index || row[2] == team_index {
                r.push(DivisionPlaceDetail::new(row));
                proof {
                    assert(r@ =~= details_for(rows@, team_index as int, i as int + 1));
                }
            } else {
                proof {
                    assert(r@ =~= details_for(rows@, team_index as int, i as int + 1));
                }
            }
            i = i + 1;
        }
        r
    }

    /// Recomputes the current statistics: per team, the points of the
    /// decided, actually played games it won, and its net games won minus
    /// lost over the valid played records.
    fn update_stats(&mut self)
        requires
            sim_wf(*old(self)),
        ensures
            sim_wf(*final(self)),
            final(self).sfl_records == old(self).sfl_records,
            final(self).sfl_rating == old(self).sfl_rating,
            final(self).result == old(self).result,
            final(self).count == old(self).count,
            final(self).option == old(self).option,
            final(self).sfl_stage == old(self).sfl_stage,
            final(self).max_team_index == old(self).max_team_index,
            forall|t: int|
                0 <= t < 12 ==> (#[trigger] final(self).sfl_stats.points@[t]) == season_points_upto(
                    old(self).sfl_records@,
                    t,
                    60,
                ),
            forall|t: int|
                0 <= t < 12 ==> (#[trigger] final(self).sfl_stats.battles@[t])
                    == season_battles_upto(old(self).sfl_records@, t, 60),
    {
        let mut points: Vec<u32> = Vec::new();
        let mut battles: Vec<i32> = Vec::new();
        let mut t: usize = 0;
        while t < 12
            invariant
                t <= 12,
                points@.len() == t,
                battles@.len() == t,
                sim_wf(*self),
                *self == *old(self),
                forall|q: int|
                    0 <= q < t ==> (#[trigger] points@[q]) == season_points_upto(
                        self.sfl_records@,
                        q,
                        60,
                    ),
                forall|q: int|
                    0 <= q < t ==> (#[trigger] battles@[q]) == season_battles_upto(
                        self.sfl_records@,
                        q,
                        60,
                    ),
            decreases 12 - t,
        {
            let mut point: u32 = 0;
            let mut battle: i32 = 0;
            let mut i: usize = 0;
            while i < 60
                invariant
                    i <= 60,
                    t < 12,
                    sim_wf(*self),
                    point == season_points_upto(self.sfl_records@, t as int, i as int),
                    point <= 240 * i,
                    battle == season_battles_upto(self.sfl_records@, t as int, i as int),
                    -12 * i <= battle <= 12 * i,
                decreases 60 - i,
            {
                let fixture = &self.sfl_records[i];
                let mut j: usize = 0;
                while j < 12
                    invariant
                        j <= 12,
                        t < 12,
                        i < 60,
                        sim_wf(*self),
                        fixture@ == self.sfl_records@[i as int]@,
                        fixture@.len() == 12,
                        forall|c: int| 0 <= c < 12 ==> (#[trigger] fixture@[c]).point <= 20,
                        point == season_points_upto(self.sfl_records@, t as int, i as int)
                            + fixture_points_upto(fixture@, t as int, j as int),
                        point <= 240 * i + 20 * j,
                        battle == season_battles_upto(self.sfl_records@, t as int, i as int)
                            + fixture_battles_upto(fixture@, t as int, j as int),
                        -(12 * i + j) <= battle <= 12 * i + j,
                    decreases 12 - j,
                {
                    let record = &fixture[j];
                    if record.is_valid && !record.is_prediction {
                        let team_idx = record.sfl_match.team.get_index();
                        let opp_idx = record.sfl_match.opponent_team.get_index();
                        if team_idx == t || opp_idx == t {
                            if record.point != 0 && ((record.win_flag && team_idx == t) || (
                            !record.win_flag && opp_idx == t)) {
                                point = point + record.point;
                            }
                            if record.win_flag {
                                if team_idx == t {
                                    battle = battle + 1;
                                } else {
                                    battle = battle - 1;
                                }
                            } else {
                                if opp_idx == t {
                                    battle = battle + 1;
                                } else {
                                    battle = battle - 1;
                                }
                            }
                        }
                    }
                    j = j + 1;
                }
                i = i + 1;
            }
            points.push(point);
            battles.push(battle);
            t = t + 1;
        }
        self.sfl_stats = SflStats { points, battles };
    }

    /// Writes one fixture's known outcomes — the given games become real,
    /// valid results, the rest of the fixture returns to its prediction
    /// baseline, and extra inputs past the fixture's length are ignored —
    /// then rescores every fixture, refits the ratings, and refreshes the
    /// current statistics.
    #[verifier::rlimit(100)]
    #[verifier::spinoff_prover]
    pub fn set_match_result(&mut self, match_index: usize, results: Vec<bool>)
        requires
            sim_wf(*old(self)),
            match_index < 60,
        ensures
            sim_wf(*final(self)),
            final(self).sfl_records@.len() == 60,
            forall|i: int|
                0 <= i < 60 ==> (#[trigger] final(self).sfl_records@[i])@ == correct_spec(
                    SflStage::JP2024AllDivision,
                    if i == match_index {
                        write_results_spec(old(self).sfl_records@[i]@, results@)
                    } else {
                        old(self).sfl_records@[i]@
                    },
                ),
            crate::rating::ratings_view(final(self).sfl_rating.ratings@)
                == crate::rating::fit_fixtures_upto(
                crate::rating::initial_ratings(),
                crate::rating::views_of(final(self).sfl_records@),
                60,
            ),
            forall|t: int|
                0 <= t < 12 ==> (#[trigger] final(self).sfl_stats.points@[t]) == season_points_upto(
                    final(self).sfl_records@,
                    t,
                    60,
                ),
            forall|t: int|
                0 <= t < 12 ==> (#[trigger] final(self).sfl_stats.battles@[t])
                    == season_battles_upto(final(self).sfl_records@, t, 60),
            final(self).result == old(self).result,
            final(self).count == old(self).count,
            final(self).option == old(self).option,
    {
        // Write the raw outcomes into the chosen fixture.
        let fixture = &mut self.sfl_records[match_index];
        let mut j: usize = 0;
        while j < 12
            invariant
                j <= 12,
                sim_wf(*old(self)),
                match_index < 60,
                old(self).sfl_records@[match_index as int]@.len() == 12,

                fixture@.len() == 12,
                forall|b: int|
                    0 <= b < j ==> (#[trigger] fixture@[b]) == write_results_spec(
                        old(self).sfl_records@[match_index as int]@,
                        results@,
                    )[b],
                forall|b: int|
                    j <= b < 12 ==> (#[trigger] fixture@[b]) == old(
                        self,
                    ).sfl_records@[match_index as int]@[b],
            decreases 12 - j,
        {
            fixture[j].point = 0;
            if j < results.len() {
                fixture[j].win_flag = results[j];
                fixture[j].is_valid = true;
                fixture[j].is_prediction = false;
            } else {
                fixture[j].win_flag = false;
                fixture[j].is_valid = false;
                fixture[j].is_prediction = true;
            }
            proof {
                let s = old(self).sfl_records@[match_index as int]@;
                let w = write_results_spec(s, results@);
                assert(w.len() == 12);
                if j < results@.len() {
                    assert(w[j as int] == SflRecord {
                        point: 0u32,
                        win_flag: results@[j as int],
                        is_valid: true,
                        is_prediction: false,
                        ..s[j as int]
                    });
                } else {
                    assert(w[j as int] == SflRecord {
                        point: 0u32,
                        win_flag: false,
                        is_valid: false,
                        is_prediction: true,
                        ..s[j as int]
                    });
                }
                assert(fixture@[j as int] == w[j as int]);
            }
            j = j + 1;
        }

        // Rescore every fixture, the pass being idempotent on the others.
        let ghost written = self.sfl_records@;
        let mut i: usize = 0;
        while i < 60
            invariant
                i <= 60,
                sim_wf(*old(self)),
                self.sfl_records@.len() == 60,
                self.sfl_rating == old(self).sfl_rating,
                self.sfl_stats == old(self).sfl_stats,
                self.result == old(self).result,
                self.count == old(self).count,
                self.option == old(self).option,
                self.sfl_stage == old(self).sfl_stage,
                self.max_team_index == old(self).max_team_index,
                written.len() == 60,
                forall|a: int| 0 <= a < 60 ==> (#[trigger] written[a])@.len() == 12,
                forall|a: int| i <= a < 60 ==> (#[trigger] self.sfl_records@[a]) == written[a],
                forall|a: int|
                    0 <= a < i ==> (#[trigger] self.sfl_records@[a])@ == correct_spec(
                        SflStage::JP2024AllDivision,
                        written[a]@,
                    ),
            decreases 60 - i,
        {
            SflStage::JP2024AllDivision.correct_records(&mut self.sfl_records[i]);
            i = i + 1;
        }
        proof {
            assert forall|a: int, b: int|
                #![all_triggers]
                0 <= a < 60 && 0 <= b < 12 implies self.sfl_records@[a]@[b].point <= 20 by {
                assert(self.sfl_records@[a]@ == correct_spec(
                    SflStage::JP2024AllDivision,
                    written[a]@,
                ));
                assert(self.sfl_records@[a]@[b] == resolved_at(written[a]@, b));
                assert(written[a]@[b].point == 0 || written[a]@[b] == old(
                    self,
                ).sfl_records@[a]@[b]);
            }
        }

        // Refit the ratings and refresh the statistics.
        let records_ref = &self.sfl_records;
        let mut rating = SflRating::new();
        rating.calc_ratings(&SflStage::JP2024AllDivision, records_ref);
        proof {
            assert forall|k: int|
                0 <= k < 48 implies -RATING_BOUND <= #[trigger] rating.ratings@[k] <= RATING_BOUND
            by {
                assert(crate::rating::drift_ok(rating.ratings@, 50000));
                assert((crate::rating::INITIAL_RATING as int) - 16000 * 50000 <= rating.ratings@[k]
                    <= (crate::rating::INITIAL_RATING as int) + 16000 * 50000);
            }
        }
        self.sfl_rating = rating;
        self.update_stats();
    }

    /// Runs the full forecast: resets the accumulators, replays the season
    /// `count` times from one fixed seed, and derives the expected division
    /// and playoff orders from the accumulated sums.  Reproducible: the
    /// same seed, trial count and known results give the same store.
    pub fn simulate(&mut self)
        requires
            sim_wf(*old(self)),
            old(self).count <= 10000,
        ensures
            sim_wf(*final(self)),
            final(self).sfl_records == old(self).sfl_records,
            final(self).sfl_rating == old(self).sfl_rating,
            final(self).sfl_stats == old(self).sfl_stats,
            final(self).count == old(self).count,
            final(self).option == old(self).option,
            final(self).sfl_stage == old(self).sfl_stage,
            final(self).max_team_index == old(self).max_team_index,
            final(self).result.division_places@.len() == 2,
            final(self).result.division_places@[0]@.len() == 6,
            final(self).result.division_places@[1]@.len() == 6,
            final(self).result.playoff_places@.len() == 12,
            forall|t: int|
                occ_usize(final(self).result.division_places@[0]@, t) == (if 0 <= t < 6 {
                    1int
                } else {
                    0int
                }),
            forall|t: int|
                occ_usize(final(self).result.division_places@[1]@, t) == (if 6 <= t < 12 {
                    1int
                } else {
                    0int
                }),
            forall|t: int|
                occ_usize(final(self).result.playoff_places@, t) == (if 0 <= t < 12 {
                    1int
                } else {
                    0int
                }),
            forall|n: int, a: int, b: int|
                #![trigger final(self).result.division_places@[n]@[a], final(self).result.division_places@[n]@[b]]
                0 <= n < 2 && 0 <= a < b < 6 ==> {
                    let pa = final(self).result.division_places@[n]@[a] as int;
                    let pb = final(self).result.division_places@[n]@[b] as int;
                    final(self).result.division_points_battles@[pa]@[0]
                        > final(self).result.division_points_battles@[pb]@[0] || (final(self).result.division_points_battles@[pa]@[0] == final(self).result.division_points_battles@[pb]@[0] && pa < pb)
                },
            forall|a: int, b: int|
                #![trigger final(self).result.playoff_places@[a], final(self).result.playoff_places@[b]]
                0 <= a < b < 12 ==> {
                    let pa = final(self).result.playoff_places@[a] as int;
                    let pb = final(self).result.playoff_places@[b] as int;
                    final(self).result.playoff_place_count@[pa]@[0]
                        > final(self).result.playoff_place_count@[pb]@[0] || (final(self).result.playoff_place_count@[pa]@[0] == final(self).result.playoff_place_count@[pb]@[0] && pa < pb)
                },
            flat_views(final(self).result.division_place_detail_flatten@) == detail_rows_upto(
                final(self).result.division_place_detail@,
                1728,
            ),
            forall|i: int, j: int|
                0 <= i < 12 && 0 <= j < 6 ==> (
                #[trigger] final(self).result.division_place_count@[i]@[j]) <= 12 * old(self).count,
            forall|t: int|
                0 <= t < 12 ==> row_sum(#[trigger] final(self).result.division_place_count@[t]@)
                    == old(self).count,
            col_sum(final(self).result.playoff_place_count@, 0) == old(self).count,
            col_sum(final(self).result.playoff_place_count@, 1) == old(self).count,
            col_sum(final(self).result.playoff_place_count@, 2) == 2 * old(self).count,
            col_sum(final(self).result.playoff_place_count@, 3) == 2 * old(self).count,
            forall|i: int, j: int|
                0 <= i < 12 && 0 <= j < 4 ==> (
                #[trigger] final(self).result.playoff_place_count@[i]@[j]) <= 6 * old(self).count,
    {
        let count = self.count;
        let mut rng: StdRng = rng_from_seed(5);
        self.result = SflSimulationResult::new();
        proof {
            assert forall|t: int| 0 <= t < 12 implies row_sum(
                #[trigger] self.result.division_place_count@[t]@,
            ) == 0 by {
                lemma_row_sum_zero(self.result.division_place_count@[t]@);
            }
            lemma_col_sum_zero(self.result.playoff_place_count@, 0);
            lemma_col_sum_zero(self.result.playoff_place_count@, 1);
            lemma_col_sum_zero(self.result.playoff_place_count@, 2);
            lemma_col_sum_zero(self.result.playoff_place_count@, 3);
        }
        let mut trial: usize = 0;
        while trial < count
            invariant
                trial <= count,
                count <= 10000,
                count == self.count,
                sim_wf(*self),
                self.sfl_records == old(self).sfl_records,
                self.sfl_rating == old(self).sfl_rating,
                self.sfl_stats == old(self).sfl_stats,
                self.count == old(self).count,
                self.option == old(self).option,
                self.sfl_stage == old(self).sfl_stage,
                self.max_team_index == old(self).max_team_index,
                forall|i: int, j: int|
                    0 <= i < 12 && 0 <= j < 6 ==> (
                    #[trigger] self.result.division_place_count@[i]@[j]) <= 12 * trial,
                forall|t: int|
                    0 <= t < 12 ==> row_sum(#[trigger] self.result.division_place_count@[t]@)
                        == trial,
                col_sum(self.result.playoff_place_count@, 0) == trial,
                col_sum(self.result.playoff_place_count@, 1) == trial,
                col_sum(self.result.playoff_place_count@, 2) == 2 * trial,
                col_sum(self.result.playoff_place_count@, 3) == 2 * trial,
                forall|i: int|
                    0 <= i < 12 ==> 0 <= (#[trigger] self.result.division_points_battles@[i]@[0])
                        <= 172800 * trial,
                forall|i: int|
                    0 <= i < 12 ==> -8640 * trial <= (
                    #[trigger] self.result.division_points_battles@[i]@[1]) <= 8640 * trial,
                forall|i: int, j: int|
                    0 <= i < 12 && 0 <= j < 4 ==> (
                    #[trigger] self.result.playoff_place_count@[i]@[j]) <= 6 * trial,
                forall|i: int, j: int|
                    0 <= i < 60 && 0 <= j < 4 ==> (#[trigger] self.result.match_points@[i]@[j])
                        <= 240 * trial,
                forall|i: int, j: int, k: int|
                    #![trigger self.result.division_place_detail@[i]@[j]@[k]]
                    0 <= i < 12 && 0 <= j < 12 && 0 <= k < 12 ==>
                        self.result.division_place_detail@[i]@[j]@[k] <= 2 * trial,
            decreases count - trial,
        {
            proof {
                assert forall|i: int, j: int|
                    #![all_triggers]
                    0 <= i < 12 && 0 <= j < 6 implies self.result.division_place_count@[i]@[j]
                    <= 3999999000 by {
                    assert(self.result.division_place_count@[i]@[j] <= 12 * trial);
                }
                assert forall|i: int, j: int|
                    #![trigger self.result.division_points_battles@[i]@[j]]
                    0 <= i < 12 && 0 <= j < 2 implies -1999000000
                    <= self.result.division_points_battles@[i]@[j] <= 1999000000 by {
                    if j == 0 {
                        assert(self.result.division_points_battles@[i]@[0] <= 172800 * trial);
                    } else {
                        assert(-8640 * trial <= self.result.division_points_battles@[i]@[1]
                            <= 8640 * trial);
                    }
                }
                assert forall|i: int, j: int|
                    #![all_triggers]
                    0 <= i < 12 && 0 <= j < 4 implies self.result.playoff_place_count@[i]@[j]
                    <= 3999999000 by {
                    assert(self.result.playoff_place_count@[i]@[j] <= 6 * trial);
                }
                assert forall|i: int, j: int|
                    #![all_triggers]
                    0 <= i < 60 && 0 <= j < 4 implies self.result.match_points@[i]@[j] <= 24000000
                by {
                    assert(self.result.match_points@[i]@[j] <= 240 * trial);
                }
                assert forall|i: int, j: int, k: int|
                    #![trigger self.result.division_place_detail@[i]@[j]@[k]]
                    0 <= i < 12 && 0 <= j < 12 && 0 <= k < 12 implies
                    self.result.division_place_detail@[i]@[j]@[k] <= 998000000 by {
                    assert(self.result.division_place_detail@[i]@[j]@[k] <= 2 * trial);
                }
                assert(result_headroom(self.result));
            }
            self.simulate_one_time(&mut rng);
            trial = trial + 1;
        }

        // Flatten the placement-detail grid to its nonzero rows.
        let mut flatten: Vec<Vec<usize>> = Vec::new();
        let mut a: usize = 0;
        while a < 12
            invariant
                a <= 12,
                sim_wf(*self),
                forall|k: int| 0 <= k < flatten@.len() ==> (#[trigger] flatten@[k])@.len() == 4,
                flat_views(flatten@) == detail_rows_upto(
                    self.result.division_place_detail@,
                    144 * (a as int),
                ),
            decreases 12 - a,
        {
            let mut b: usize = 0;
            while b < 12
                invariant
                    b <= 12,
                    a < 12,
                    sim_wf(*self),
                    forall|k: int| 0 <= k < flatten@.len() ==> (#[trigger] flatten@[k])@.len() == 4,
                    flat_views(flatten@) == detail_rows_upto(
                        self.result.division_place_detail@,
                        144 * (a as int) + 12 * (b as int),
                    ),
                decreases 12 - b,
            {
                let mut c: usize = 0;
                while c < 12
                    invariant
                        c <= 12,
                        a < 12,
                        b < 12,
                        sim_wf(*self),
                        forall|k: int|
                            0 <= k < flatten@.len() ==> (#[trigger] flatten@[k])@.len() == 4,
                        flat_views(flatten@) == detail_rows_upto(
                            self.result.division_place_detail@,
                            144 * (a as int) + 12 * (b as int) + c as int,
                        ),
                    decreases 12 - c,
                {
                    let ghost flatten_before = flatten@;
                    let ghost m = 144 * (a as int) + 12 * (b as int) + c as int;
                    let v = self.result.division_place_detail[a][b][c];
                    if v > 0 {
                        flatten.push(vec![a, b, c, v]);
                    }
                    proof {
                        assert(m / 144 == a as int && (m / 12) % 12 == b as int && m % 12
                            == c as int) by (nonlinear_arith)
                            requires
                                m == 144 * (a as int) + 12 * (b as int) + c as int,
                                0 <= a < 12,
                                0 <= b < 12,
                                0 <= c < 12,
                        ;
                        if v > 0 {
                            assert(flat_views(flatten@) =~= flat_views(flatten_before).push(
                                seq![a as usize, b as usize, c as usize, v],
                            ));
                        } else {
                            assert(flat_views(flatten@) =~= flat_views(flatten_before));
                        }
                        assert(flat_views(flatten@) == detail_rows_upto(
                            self.result.division_place_detail@,
                            m + 1,
                        ));
                    }
                    c = c + 1;
                }
                b = b + 1;
            }
            a = a + 1;
        }
        self.result.division_place_detail_flatten = flatten;

        // Expected division orders: each division's teams by accumulated
        // points, descending, ties in listing order.
        let mut point_keys: Vec<u32> = Vec::new();
        let mut t: usize = 0;
        while t < 12
            invariant
                t <= 12,
                point_keys@.len() == t,
                sim_wf(*self),
                forall|i: int|
                    0 <= i < 12 ==> 0 <= (#[trigger] self.result.division_points_battles@[i]@[0]),
                forall|k: int|
                    0 <= k < t ==> (#[trigger] point_keys@[k]) as int
                        == self.result.division_points_battles@[k]@[0] as int,
                flat_views(self.result.division_place_detail_flatten@) == detail_rows_upto(
                    self.result.division_place_detail@,
                    1728,
                ),
            decreases 12 - t,
        {
            point_keys.push(self.result.division_points_battles[t][0] as u32);
            t = t + 1;
        }
        let places_s = order_by_key(0, 6, &point_keys);
        let places_f = order_by_key(6, 6, &point_keys);
        let mut division_places: Vec<Vec<usize>> = Vec::new();
        division_places.push(places_s);
        division_places.push(places_f);
        self.result.division_places = division_places;

        // Expected playoff order: all twelve teams by championship count,
        // descending, ties in listing order.
        let mut champion_keys: Vec<u32> = Vec::new();
        let mut t: usize = 0;
        while t < 12
            invariant
                t <= 12,
                champion_keys@.len() == t,
                sim_wf(*self),
                forall|k: int|
                    0 <= k < t ==> (#[trigger] champion_keys@[k])
                        == self.result.playoff_place_count@[k]@[0],
                flat_views(self.result.division_place_detail_flatten@) == detail_rows_upto(
                    self.result.division_place_detail@,
                    1728,
                ),
            decreases 12 - t,
        {
            champion_keys.push(self.result.playoff_place_count[t][0]);
            t = t + 1;
        }
        let playoff_places = order_by_key(0, 12, &champion_keys);
        self.result.playoff_places = playoff_places;
    }

    /// One Monte Carlo trial: samples the unplayed games on a trial-local
    /// copy of the records, scores every fixture, accumulates the fixture
    /// point breakdown, resolves both divisions' standings, runs each
    /// division's stepladder and the grand final, and counts the outcomes.
    #[verifier::rlimit(100)]
    #[verifier::spinoff_prover]
    fn simulate_one_time(&mut self, rng: &mut StdRng)
        requires
            sim_wf(*old(self)),
            result_headroom(old(self).result),
        ensures
            sim_wf(*final(self)),
            final(self).sfl_records == old(self).sfl_records,
            final(self).sfl_rating == old(self).sfl_rating,
            final(self).sfl_stats == old(self).sfl_stats,
            final(self).count == old(self).count,
            final(self).option == old(self).option,
            final(self).sfl_stage == old(self).sfl_stage,
            final(self).max_team_index == old(self).max_team_index,
            trial_growth(old(self).result, final(self).result),
            forall|t: int|
                0 <= t < 12 ==> row_sum(#[trigger] final(self).result.division_place_count@[t]@)
                    == row_sum(old(self).result.division_place_count@[t]@) + 1,
            col_sum(final(self).result.playoff_place_count@, 0) == col_sum(
                old(self).result.playoff_place_count@,
                0,
            ) + 1,
            col_sum(final(self).result.playoff_place_count@, 1) == col_sum(
                old(self).result.playoff_place_count@,
                1,
            ) + 1,
            col_sum(final(self).result.playoff_place_count@, 2) == col_sum(
                old(self).result.playoff_place_count@,
                2,
            ) + 2,
            col_sum(final(self).result.playoff_place_count@, 3) == col_sum(
                old(self).result.playoff_place_count@,
                3,
            ) + 2,
            exists|recs: Seq<Vec<SflRecord>>, es: Seq<(usize, u32, i32, SflTeam)>, ef: Seq<
                (usize, u32, i32, SflTeam),
            >, w1s: SflTeam, w2s: SflTeam, w1f: SflTeam, w2f: SflTeam, champion: SflTeam|
                trial_evidence(
                    old(self).sfl_records@,
                    old(self).result,
                    final(self).result,
                    recs,
                    es,
                    ef,
                    w1s,
                    w2s,
                    w1f,
                    w2f,
                    champion,
                ),
    {
        let enable_rate = self.option.enable_rate;

        // Sample phase and score phase, fixture by fixture, on a
        // trial-local copy; known results stay fixed across all trials.
        let mut sfl_records = clone_records(&self.sfl_records);
        let mut i: usize = 0;
        while i < 60
            invariant
                i <= 60,
                sfl_records@.len() == 60,
                sim_wf(*self),
                *self == *old(self),
                forall|a: int| 0 <= a < 60 ==> (#[trigger] sfl_records@[a])@.len() == 12,
                forall|a: int, b: int|
                    #![all_triggers]
                    0 <= a < i && 0 <= b < 12 ==> sfl_records@[a]@[b].point <= 20,
                forall|a: int, b: int|
                    #![all_triggers]
                    i <= a < 60 && 0 <= b < 12 ==> sfl_records@[a]@[b].point <= 20,
                forall|a: int|
                    0 <= a < i ==> fixture_consistent(
                        (#[trigger] sfl_records@[a])@,
                        old(self).sfl_records@[a]@,
                    ),
                forall|a: int, b: int|
                    #![all_triggers]
                    i <= a < 60 && 0 <= b < 12 ==> record_eq(
                        sfl_records@[a]@[b],
                        old(self).sfl_records@[a]@[b],
                    ),
            decreases 60 - i,
        {
            let ghost stored = old(self).sfl_records@[i as int]@;
            sample_fixture(&mut sfl_records[i], &self.sfl_rating.ratings, enable_rate, rng);
            proof {
                assert(fixture_consistent(sfl_records@[i as int]@, stored));
            }
            i = i + 1;
        }
        proof {
            assert(consistent_sample(sfl_records@, old(self).sfl_records@));
        }

        // Per-fixture point breakdown.
        accumulate_match_points(&mut self.result.match_points, &sfl_records);

        // Standings phase: points and battle differential per team.
        let (point_count, battle_count) = tally_points_battles(&sfl_records);

        // Division standings, placements, and the two stepladders.
        let ghost mut evidence_s: Seq<(usize, u32, i32, SflTeam)> = Seq::empty();
        let ghost mut evidence_f: Seq<(usize, u32, i32, SflTeam)> = Seq::empty();
        let ghost mut winner1_s: SflTeam = SflTeam::G8S;
        let ghost mut winner2_s: SflTeam = SflTeam::G8S;
        let ghost mut winner1_f: SflTeam = SflTeam::G8S;
        let ghost mut winner2_f: SflTeam = SflTeam::G8S;
        let mut finalists: Vec<(usize, u32, i32, SflTeam)> = Vec::new();
        let mut n: usize = 0;
        while n < 2
            invariant
                n <= 2,
                finalists@.len() == n,
                point_count@.len() == 12,
                battle_count@.len() == 12,
                forall|t: int| 0 <= t < 12 ==> #[trigger] point_count@[t] <= 14400,
                forall|t: int| 0 <= t < 12 ==> -720 <= #[trigger] battle_count@[t] <= 720,
                forall|t: int|
                    0 <= t < 12 ==> #[trigger] point_count@[t] == season_tally_points(
                        sfl_records@,
                        t,
                        60,
                    ),
                forall|t: int|
                    0 <= t < 12 ==> #[trigger] battle_count@[t] == season_tally_battles(
                        sfl_records@,
                        t,
                        60,
                    ),
                sfl_records@.len() == 60,
                consistent_sample(sfl_records@, old(self).sfl_records@),
                n >= 1 ==> standings_evidence(evidence_s, sfl_records@, 0),
                n >= 2 ==> standings_evidence(evidence_f, sfl_records@, 6),
                forall|i: int, j: int|
                    0 <= i < 12 && 0 <= j < 6 ==> (#[trigger] self.result.division_place_count@[i]@[j])
                        == old(self).result.division_place_count@[i]@[j] + (if n >= 1
                        && evidence_s[j].0 == i {
                        1int
                    } else {
                        0int
                    }) + (if n >= 2 && evidence_f[j].0 == i {
                        1int
                    } else {
                        0int
                    }),
                forall|i: int|
                    0 <= i < 12 ==> (#[trigger] self.result.division_points_battles@[i]@[0]) == old(
                        self,
                    ).result.division_points_battles@[i]@[0] + (if n >= 1 {
                        placed_points(evidence_s, i)
                    } else {
                        0int
                    }) + (if n >= 2 {
                        placed_points(evidence_f, i)
                    } else {
                        0int
                    }),
                forall|i: int|
                    0 <= i < 12 ==> (#[trigger] self.result.division_points_battles@[i]@[1]) == old(
                        self,
                    ).result.division_points_battles@[i]@[1] + (if n >= 1 {
                        placed_battles(evidence_s, i)
                    } else {
                        0int
                    }) + (if n >= 2 {
                        placed_battles(evidence_f, i)
                    } else {
                        0int
                    }),
                forall|a: int, b: int, c: int|
                    #![trigger self.result.division_place_detail@[a]@[b]@[c]]
                    0 <= a < 12 && 0 <= b < 12 && 0 <= c < 12 ==>
                        self.result.division_place_detail@[a]@[b]@[c] == old(
                        self,
                    ).result.division_place_detail@[a]@[b]@[c] + (if n >= 1 && a == evidence_s[0].0
                        && b == evidence_s[1].0 && c == evidence_s[2].0 {
                        1int
                    } else {
                        0int
                    }) + (if n >= 2 && a == evidence_f[0].0 && b == evidence_f[1].0 && c
                        == evidence_f[2].0 {
                        1int
                    } else {
                        0int
                    }),
                forall|a: int, b: int|
                    0 <= a < 60 && 0 <= b < 4 ==> (#[trigger] self.result.match_points@[a]@[b])
                        == old(self).result.match_points@[a]@[b] + fixture_breakdown(
                        sfl_records@[a]@,
                        b,
                        12,
                    ),
                forall|k: int| 0 <= k < n ==> entry_ok(#[trigger] finalists@[k]),
                sim_wf(*self),
                self.sfl_records == old(self).sfl_records,
                self.sfl_rating == old(self).sfl_rating,
                self.sfl_stats == old(self).sfl_stats,
                self.count == old(self).count,
                self.option == old(self).option,
                self.sfl_stage == old(self).sfl_stage,
                self.max_team_index == old(self).max_team_index,
                self.result.match_points@.len() == 60,
                forall|a: int| 0 <= a < 60 ==> (#[trigger] self.result.match_points@[a])@.len() == 4,
                forall|a: int, b: int|
                    0 <= a < 60 && 0 <= b < 4 ==> old(self).result.match_points@[a]@[b] <= (
                    #[trigger] self.result.match_points@[a]@[b]) <= old(
                        self,
                    ).result.match_points@[a]@[b] + 240,
                forall|a: int, b: int|
                    0 <= a < 12 && 0 <= b < 6 ==> old(self).result.division_place_count@[a]@[b] <= (
                    #[trigger] self.result.division_place_count@[a]@[b]) <= old(
                        self,
                    ).result.division_place_count@[a]@[b] + 6 * n,
                forall|t: int|
                    0 <= t < 12 ==> row_sum(#[trigger] self.result.division_place_count@[t]@)
                        == row_sum(old(self).result.division_place_count@[t]@) + (if t < 6 * n {
                        1int
                    } else {
                        0int
                    }),
                n >= 1 ==> {
                    &&& (winner1_s == evidence_s[2].3 || winner1_s == evidence_s[1].3)
                    &&& (winner2_s == advance_of(evidence_s[2], evidence_s[1], winner1_s).0.3
                        || winner2_s == evidence_s[0].3)
                    &&& finalists@[0] == stepladder_of(evidence_s, winner1_s, winner2_s).2
                },
                n >= 2 ==> {
                    &&& (winner1_f == evidence_f[2].3 || winner1_f == evidence_f[1].3)
                    &&& (winner2_f == advance_of(evidence_f[2], evidence_f[1], winner1_f).0.3
                        || winner2_f == evidence_f[0].3)
                    &&& finalists@[1] == stepladder_of(evidence_f, winner1_f, winner2_f).2
                },
                forall|i: int, j: int|
                    0 <= i < 12 && 0 <= j < 4 ==> (#[trigger] self.result.playoff_place_count@[i]@[j])
                        == old(self).result.playoff_place_count@[i]@[j] + (if n >= 1 && i
                        == stepladder_of(evidence_s, winner1_s, winner2_s).0 && j == 3 {
                        1int
                    } else {
                        0int
                    }) + (if n >= 1 && i == stepladder_of(evidence_s, winner1_s, winner2_s).1 && j
                        == 2 {
                        1int
                    } else {
                        0int
                    }) + (if n >= 2 && i == stepladder_of(evidence_f, winner1_f, winner2_f).0 && j
                        == 3 {
                        1int
                    } else {
                        0int
                    }) + (if n >= 2 && i == stepladder_of(evidence_f, winner1_f, winner2_f).1 && j
                        == 2 {
                        1int
                    } else {
                        0int
                    }),
                col_sum(self.result.playoff_place_count@, 0) == col_sum(
                    old(self).result.playoff_place_count@,
                    0,
                ),
                col_sum(self.result.playoff_place_count@, 1) == col_sum(
                    old(self).result.playoff_place_count@,
                    1,
                ),
                col_sum(self.result.playoff_place_count@, 2) == col_sum(
                    old(self).result.playoff_place_count@,
                    2,
                ) + n,
                col_sum(self.result.playoff_place_count@, 3) == col_sum(
                    old(self).result.playoff_place_count@,
                    3,
                ) + n,
                forall|a: int|
                    0 <= a < 12 ==> old(self).result.division_points_battles@[a]@[0] <= (
                    #[trigger] self.result.division_points_battles@[a]@[0]) <= old(
                        self,
                    ).result.division_points_battles@[a]@[0] + 86400 * n,
                forall|a: int|
                    0 <= a < 12 ==> old(self).result.division_points_battles@[a]@[1] - 4320 * n <= (
                    #[trigger] self.result.division_points_battles@[a]@[1]) <= old(
                        self,
                    ).result.division_points_battles@[a]@[1] + 4320 * n,
                forall|a: int, b: int|
                    0 <= a < 12 && 0 <= b < 4 ==> old(self).result.playoff_place_count@[a]@[b] <= (
                    #[trigger] self.result.playoff_place_count@[a]@[b]) <= old(
                        self,
                    ).result.playoff_place_count@[a]@[b] + 2 * n,
                forall|a: int, b: int, c: int|
                    #![trigger self.result.division_place_detail@[a]@[b]@[c]]
                    0 <= a < 12 && 0 <= b < 12 && 0 <= c < 12 ==> old(
                        self,
                    ).result.division_place_detail@[a]@[b]@[c]
                        <= self.result.division_place_detail@[a]@[b]@[c] <= old(
                        self,
                    ).result.division_place_detail@[a]@[b]@[c] + n,
                self.result.division_places == old(self).result.division_places,
                self.result.playoff_places == old(self).result.playoff_places,
                self.result.division_place_detail_flatten == old(
                    self,
                ).result.division_place_detail_flatten,
                result_headroom(old(self).result),
            decreases 2 - n,
        {
            let stage = if n == 0 {
                SflStage::JP2024DivisionS
            } else {
                SflStage::JP2024DivisionF
            };
            let teams = stage.get_teams();
            let mut sortable = division_entries(&teams, n * 6, &point_count, &battle_count);
            let ghost unsorted = sortable@;
            sort_standings(&mut sortable);
            proof {
                assert(standings_evidence(sortable@, sfl_records@, 6 * (n as int))) by {
                    assert forall|k: int| 0 <= k < 6 implies {
                        &&& 6 * (n as int) <= (#[trigger] sortable@[k]).0 < 6 * (n as int) + 6
                        &&& sortable@[k].1 == season_tally_points(
                            sfl_records@,
                            sortable@[k].0 as int,
                            60,
                        )
                        &&& sortable@[k].2 == season_tally_battles(
                            sfl_records@,
                            sortable@[k].0 as int,
                            60,
                        )
                    } by {
                        lemma_occ_entry_index(sortable@, k);
                        lemma_occ_entry_pos(unsorted, sortable@[k]);
                        let q = choose|q: int| 0 <= q < unsorted.len() && unsorted[q]
                            == sortable@[k];
                        assert(unsorted[q].0 == 6 * (n as int) + q);
                    }
                }
                if n == 0 {
                    evidence_s = sortable@;
                } else {
                    evidence_f = sortable@;
                }
                assert forall|k: int| 0 <= k < 6 implies entry_bounded(
                    #[trigger] sortable@[k],
                ) by {
                    let t = sortable@[k].0 as int;
                    assert(sortable@[k].1 == season_tally_points(sfl_records@, t, 60));
                    assert(point_count@[t] == season_tally_points(sfl_records@, t, 60));
                    assert(sortable@[k].2 == season_tally_battles(sfl_records@, t, 60));
                    assert(battle_count@[t] == season_tally_battles(sfl_records@, t, 60));
                }
            }
            record_division_placements(
                &mut self.result.division_place_count,
                &mut self.result.division_points_battles,
                &mut self.result.division_place_detail,
                &sortable,
            );

            // Stepladder round one: seed three against seed two; the loser
            // is tagged with the first-round exit.
            let seed1 = sortable[0];
            let seed2 = sortable[1];
            let seed3 = sortable[2];
            let mut records = SflStage::JP2024Playoff.get_playoff_records(&seed3.3, &seed2.3);
            sample_series(&mut records, &self.sfl_rating.ratings, enable_rate, rng);
            let (round1_winner, _, _) = SflStage::JP2024Playoff.get_win_team(&records);
            let (advancer, eliminated) = stepladder_advance(seed3, seed2, round1_winner);
            record_playoff_outcome(
                &mut self.result.playoff_place_count,
                eliminated.3.get_index(),
                3,
            );

            // Stepladder round two: the survivor against seed one; the
            // loser takes third place, the winner goes to the grand final.
            let mut records = SflStage::JP2024Playoff.get_playoff_records(&advancer.3, &seed1.3);
            sample_series(&mut records, &self.sfl_rating.ratings, enable_rate, rng);
            let (round2_winner, _, _) = SflStage::JP2024Playoff.get_win_team(&records);
            let (finalist, third) = stepladder_advance(advancer, seed1, round2_winner);
            record_playoff_outcome(&mut self.result.playoff_place_count, third.3.get_index(), 2);
            finalists.push(finalist);
            proof {
                if n == 0 {
                    winner1_s = round1_winner;
                    winner2_s = round2_winner;
                } else {
                    winner1_f = round1_winner;
                    winner2_f = round2_winner;
                }
            }
            n = n + 1;
        }

        // Grand final: the better regular season wins the right to be away.
        let fin0 = finalists[0];
        let fin1 = finalists[1];
        let champion = grand_final_outcome(
            &mut self.result.playoff_place_count,
            fin0,
            fin1,
            &self.sfl_rating.ratings,
            enable_rate,
            rng,
        );
        proof {
            assert(trial_evidence(
                old(self).sfl_records@,
                old(self).result,
                self.result,
                sfl_records@,
                evidence_s,
                evidence_f,
                winner1_s,
                winner2_s,
                winner1_f,
                winner2_f,
                champion,
            ));
        }
    }
}

} // verus!
