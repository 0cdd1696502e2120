//! The series scoring engine: decides which games of a fixture are required
//! under the best-of rule, awards match points to the deciding games, and
//! validates the tiebreak game exactly on its trigger.

use vstd::prelude::*;
use crate::schedule::{SflRecord, SflStage};
use crate::team::SflTeam;

verus! {

// A regular fixture's layout: opening games at 0..3, mid games at 3..6,
// anchor games at 6..11, the tiebreak game at 11.  The opening and mid
// series are best-of-three; the anchor series is best-of-five.

/// A best-of-three series starting at `b` is decided two-nil: its first two
/// games were played and share one winner.
pub open spec fn sweep2(s: Seq<SflRecord>, b: int) -> bool {
    s[b].is_valid && s[b + 1].is_valid && s[b].win_flag == s[b + 1].win_flag
}

/// A best-of-three series starting at `b` goes to its third game, and that
/// game was played.
pub open spec fn third2(s: Seq<SflRecord>, b: int) -> bool {
    s[b].is_valid && s[b + 1].is_valid && s[b].win_flag != s[b + 1].win_flag && s[b + 2].is_valid
}

/// The match points the `team` side takes from the best-of-three series at `b`.
pub open spec fn short_team_pts(s: Seq<SflRecord>, b: int) -> int {
    if sweep2(s, b) && s[b].win_flag {
        10int
    } else if third2(s, b) && s[b + 2].win_flag {
        10int
    } else {
        0int
    }
}

/// The match points the `opponent_team` side takes from the series at `b`.
pub open spec fn short_opp_pts(s: Seq<SflRecord>, b: int) -> int {
    if sweep2(s, b) && !s[b].win_flag {
        10int
    } else if third2(s, b) && !s[b + 2].win_flag {
        10int
    } else {
        0int
    }
}

/// The opening series is decided two-nil.
pub open spec fn van_sweep(s: Seq<SflRecord>) -> bool {
    sweep2(s, 0)
}

/// The opening series is decided on its third game.
pub open spec fn van_game3(s: Seq<SflRecord>) -> bool {
    third2(s, 0)
}

/// The mid series is decided two-nil.
pub open spec fn mid_sweep(s: Seq<SflRecord>) -> bool {
    sweep2(s, 3)
}

/// The mid series is decided on its third game.
pub open spec fn mid_game3(s: Seq<SflRecord>) -> bool {
    third2(s, 3)
}

/// The first three anchor games were all played.
pub open spec fn gen_base(s: Seq<SflRecord>) -> bool {
    s[6].is_valid && s[7].is_valid && s[8].is_valid
}

/// The anchor series is swept three-nil.
pub open spec fn gen_sweep(s: Seq<SflRecord>) -> bool {
    gen_base(s) && s[6].win_flag == s[7].win_flag && s[6].win_flag == s[8].win_flag
}

/// Game 9's result, combined with games 6..9, gives its winner exactly
/// three wins out of four.
pub open spec fn gen_decide4(s: Seq<SflRecord>) -> bool {
    ||| (s[9].win_flag == s[6].win_flag && s[9].win_flag == s[7].win_flag && s[9].win_flag
        != s[8].win_flag)
    ||| (s[9].win_flag == s[6].win_flag && s[9].win_flag != s[7].win_flag && s[9].win_flag
        == s[8].win_flag)
    ||| (s[9].win_flag != s[6].win_flag && s[9].win_flag == s[7].win_flag && s[9].win_flag
        == s[8].win_flag)
}

/// The anchor series is decided on its fourth game.
pub open spec fn gen_game4(s: Seq<SflRecord>) -> bool {
    gen_base(s) && !gen_sweep(s) && s[9].is_valid && gen_decide4(s)
}

/// The anchor series is decided on its fifth game, and that game was played.
pub open spec fn gen_game5(s: Seq<SflRecord>) -> bool {
    gen_base(s) && !gen_sweep(s) && s[9].is_valid && !gen_decide4(s) && s[10].is_valid
}

/// The match points the `team` side takes from the anchor series.
pub open spec fn anchor_team_pts(s: Seq<SflRecord>) -> int {
    if gen_sweep(s) && s[6].win_flag {
        20int
    } else if gen_game4(s) && s[9].win_flag {
        20int
    } else if gen_game5(s) && s[10].win_flag {
        20int
    } else {
        0int
    }
}

/// The match points the `opponent_team` side takes from the anchor series.
pub open spec fn anchor_opp_pts(s: Seq<SflRecord>) -> int {
    if gen_sweep(s) && !s[6].win_flag {
        20int
    } else if gen_game4(s) && !s[9].win_flag {
        20int
    } else if gen_game5(s) && !s[10].win_flag {
        20int
    } else {
        0int
    }
}

/// The match points the `team` side takes from the three decided series.
pub open spec fn team_points(s: Seq<SflRecord>) -> int {
    short_team_pts(s, 0) + short_team_pts(s, 3) + anchor_team_pts(s)
}

/// The match points the `opponent_team` side takes from the three series.
pub open spec fn opp_points(s: Seq<SflRecord>) -> int {
    short_opp_pts(s, 0) + short_opp_pts(s, 3) + anchor_opp_pts(s)
}

/// The tiebreak game activates exactly when one side took both short series
/// (20 points) and the other took the anchor series (20 points).
pub open spec fn tiebreak_on(s: Seq<SflRecord>) -> bool {
    team_points(s) == 20 && opp_points(s) == 20
}

/// Record `i` after one pass of the scoring engine over the sequence `s`.
/// All decisions read `s` as it stood before the pass.
pub open spec fn resolved_at(s: Seq<SflRecord>, i: int) -> SflRecord {
    if i == 1 {
        SflRecord {
            point: if van_sweep(s) {
                10u32
            } else {
                s[1].point
            },
            ..s[1]
        }
    } else if i == 2 {
        SflRecord {
            is_valid: if van_sweep(s) {
                false
            } else {
                s[2].is_valid
            },
            point: if van_game3(s) {
                10u32
            } else {
                s[2].point
            },
            ..s[2]
        }
    } else if i == 4 {
        SflRecord {
            point: if mid_sweep(s) {
                10u32
            } else {
                s[4].point
            },
            ..s[4]
        }
    } else if i == 5 {
        SflRecord {
            is_valid: if mid_sweep(s) {
                false
            } else {
                s[5].is_valid
            },
            point: if mid_game3(s) {
                10u32
            } else {
                s[5].point
            },
            ..s[5]
        }
    } else if i == 8 {
        SflRecord {
            point: if gen_sweep(s) {
                20u32
            } else {
                s[8].point
            },
            ..s[8]
        }
    } else if i == 9 {
        SflRecord {
            is_valid: if gen_sweep(s) {
                false
            } else {
                s[9].is_valid
            },
            point: if gen_game4(s) {
                20u32
            } else {
                s[9].point
            },
            ..s[9]
        }
    } else if i == 10 {
        SflRecord {
            is_valid: if gen_sweep(s) || gen_game4(s) {
                false
            } else {
                s[10].is_valid
            },
            point: if gen_game5(s) {
                20u32
            } else {
                s[10].point
            },
            ..s[10]
        }
    } else if i == 11 {
        SflRecord {
            is_valid: tiebreak_on(s),
            point: if tiebreak_on(s) {
                5u32
            } else {
                s[11].point
            },
            ..s[11]
        }
    } else {
        s[i]
    }
}

/// What one pass of the scoring engine makes of a regular fixture's record
/// sequence: validity of games beyond what the best-of rule requires is
/// withdrawn, each decided series' deciding game carries the series' point
/// value, and the tiebreak game is validated exactly on its trigger.
pub open spec fn resolve_spec(s: Seq<SflRecord>) -> Seq<SflRecord> {
    Seq::new(s.len(), |i: int| resolved_at(s, i))
}

/// What `correct_records` makes of a record sequence: the regular-season
/// stages run the scoring pass; the playoff and grand-final stages, whose
/// fixtures are scored as a point race, are left untouched.
pub open spec fn correct_spec(stage: SflStage, s: Seq<SflRecord>) -> Seq<SflRecord> {
    match stage {
        SflStage::JP2024DivisionS => resolve_spec(s),
        SflStage::JP2024DivisionF => resolve_spec(s),
        SflStage::JP2024AllDivision => resolve_spec(s),
        _ => s,
    }
}

/// One pass over a best-of-three series starting at `base`: scores the
/// deciding game and withdraws the third game when the series ends two-nil.
/// Returns the points the pass awards to each side of the fixture.
fn resolve_short_series(records: &mut Vec<SflRecord>, base: usize) -> (pts: (u32, u32))
    requires
        old(records)@.len() == 12,
        base == 0 || base == 3,
    ensures
        final(records)@.len() == 12,
        forall|i: int|
            0 <= i < 12 && i != base + 1 && i != base + 2 ==> final(records)@[i] == old(
                records,
            )@[i],
        final(records)@[base + 1] == (SflRecord {
            point: if sweep2(old(records)@, base as int) {
                10u32
            } else {
                old(records)@[base + 1].point
            },
            ..old(records)@[base + 1]
        }),
        final(records)@[base + 2] == (SflRecord {
            is_valid: if sweep2(old(records)@, base as int) {
                false
            } else {
                old(records)@[base + 2].is_valid
            },
            point: if third2(old(records)@, base as int) {
                10u32
            } else {
                old(records)@[base + 2].point
            },
            ..old(records)@[base + 2]
        }),
        pts.0 == short_team_pts(old(records)@, base as int),
        pts.1 == short_opp_pts(old(records)@, base as int),
{
    let v0 = records[base].is_valid;
    let w0 = records[base].win_flag;
    let v1 = records[base + 1].is_valid;
    let w1 = records[base + 1].win_flag;
    let v2 = records[base + 2].is_valid;
    let w2 = records[base + 2].win_flag;
    let two_nil = v0 && v1 && w0 == w1;
    let third = v0 && v1 && w0 != w1 && v2;
    let p1 = records[base + 1].point;
    let p2 = records[base + 2].point;
    records[base + 1].point = if two_nil {
        10
    } else {
        p1
    };
    records[base + 2].is_valid = if two_nil {
        false
    } else {
        v2
    };
    records[base + 2].point = if third {
        10
    } else {
        p2
    };
    if two_nil && w0 {
        (10, 0)
    } else if two_nil {
        (0, 10)
    } else if third && w2 {
        (10, 0)
    } else if third {
        (0, 10)
    } else {
        (0, 0)
    }
}

/// One pass over the anchor best-of-five series (games 6..11): scores the
/// deciding game and withdraws the games the best-of rule skips.  Returns
/// the points the pass awards to each side of the fixture.
fn resolve_anchor_series(records: &mut Vec<SflRecord>) -> (pts: (u32, u32))
    requires
        old(records)@.len() == 12,
    ensures
        final(records)@.len() == 12,
        forall|i: int|
            0 <= i < 12 && i != 8 && i != 9 && i != 10 ==> final(records)@[i] == old(records)@[i],
        final(records)@[8] == (SflRecord {
            point: if gen_sweep(old(records)@) {
                20u32
            } else {
                old(records)@[8].point
            },
            ..old(records)@[8]
        }),
        final(records)@[9] == (SflRecord {
            is_valid: if gen_sweep(old(records)@) {
                false
            } else {
                old(records)@[9].is_valid
            },
            point: if gen_game4(old(records)@) {
                20u32
            } else {
                old(records)@[9].point
            },
            ..old(records)@[9]
        }),
        final(records)@[10] == (SflRecord {
            is_valid: if gen_sweep(old(records)@) || gen_game4(old(records)@) {
                false
            } else {
                old(records)@[10].is_valid
            },
            point: if gen_game5(old(records)@) {
                20u32
            } else {
                old(records)@[10].point
            },
            ..old(records)@[10]
        }),
        pts.0 == anchor_team_pts(old(records)@),
        pts.1 == anchor_opp_pts(old(records)@),
{
    let v6 = records[6].is_valid;
    let w6 = records[6].win_flag;
    let v7 = records[7].is_valid;
    let w7 = records[7].win_flag;
    let v8 = records[8].is_valid;
    let w8 = records[8].win_flag;
    let v9 = records[9].is_valid;
    let w9 = records[9].win_flag;
    let v10 = records[10].is_valid;
    let w10 = records[10].win_flag;
    let three_nil = v6 && v7 && v8 && w6 == w7 && w6 == w8;
    let decide_flag = (w9 == w6 && w9 == w7 && w9 != w8) || (w9 == w6 && w9 != w7 && w9 == w8) || (
    w9 != w6 && w9 == w7 && w9 == w8);
    let fourth = v6 && v7 && v8 && !three_nil && v9 && decide_flag;
    let fifth = v6 && v7 && v8 && !three_nil && v9 && !decide_flag && v10;
    let p8 = records[8].point;
    let p9 = records[9].point;
    let p10 = records[10].point;
    records[8].point = if three_nil {
        20
    } else {
        p8
    };
    records[9].is_valid = if three_nil {
        false
    } else {
        v9
    };
    records[9].point = if fourth {
        20
    } else {
        p9
    };
    records[10].is_valid = if three_nil || fourth {
        false
    } else {
        v10
    };
    records[10].point = if fifth {
        20
    } else {
        p10
    };
    if three_nil && w6 {
        (20, 0)
    } else if three_nil {
        (0, 20)
    } else if fourth && w9 {
        (20, 0)
    } else if fourth {
        (0, 20)
    } else if fifth && w10 {
        (20, 0)
    } else if fifth {
        (0, 20)
    } else {
        (0, 0)
    }
}

/// A sequence with the scoring pass's per-index shape is exactly
/// `resolve_spec` of the original.
proof fn lemma_resolve_shape(s: Seq<SflRecord>, t: Seq<SflRecord>, tp: int, op: int)
    requires
        s.len() == 12,
        t.len() == 12,
        tp == team_points(s),
        op == opp_points(s),
        t[0] == s[0],
        t[3] == s[3],
        t[6] == s[6],
        t[7] == s[7],
        t[1] == (SflRecord {
            point: if van_sweep(s) {
                10u32
            } else {
                s[1].point
            },
            ..s[1]
        }),
        t[2] == (SflRecord {
            is_valid: if van_sweep(s) {
                false
            } else {
                s[2].is_valid
            },
            point: if van_game3(s) {
                10u32
            } else {
                s[2].point
            },
            ..s[2]
        }),
        t[4] == (SflRecord {
            point: if mid_sweep(s) {
                10u32
            } else {
                s[4].point
            },
            ..s[4]
        }),
        t[5] == (SflRecord {
            is_valid: if mid_sweep(s) {
                false
            } else {
                s[5].is_valid
            },
            point: if mid_game3(s) {
                10u32
            } else {
                s[5].point
            },
            ..s[5]
        }),
        t[8] == (SflRecord {
            point: if gen_sweep(s) {
                20u32
            } else {
                s[8].point
            },
            ..s[8]
        }),
        t[9] == (SflRecord {
            is_valid: if gen_sweep(s) {
                false
            } else {
                s[9].is_valid
            },
            point: if gen_game4(s) {
                20u32
            } else {
                s[9].point
            },
            ..s[9]
        }),
        t[10] == (SflRecord {
            is_valid: if gen_sweep(s) || gen_game4(s) {
                false
            } else {
                s[10].is_valid
            },
            point: if gen_game5(s) {
                20u32
            } else {
                s[10].point
            },
            ..s[10]
        }),
        t[11] == (SflRecord {
            is_valid: tp == 20 && op == 20,
            point: if tp == 20 && op == 20 {
                5u32
            } else {
                s[11].point
            },
            ..s[11]
        }),
    ensures
        t == resolve_spec(s),
{
    assert forall|i: int| 0 <= i < 12 implies t[i] == resolve_spec(s)[i] by {
        assert(resolve_spec(s)[i] == resolved_at(s, i));
    }
    assert(t =~= resolve_spec(s));
}

/// The sum of the point values of the valid records among the first `n`.
pub open spec fn valid_points_upto(s: Seq<SflRecord>, n: int) -> int
    decreases n,
{
    if n <= 0 {
        0
    } else {
        valid_points_upto(s, n - 1) + if s[n - 1].is_valid {
            s[n - 1].point as int
        } else {
            0int
        }
    }
}

/// The sum of the point values of a fixture's valid records.
pub open spec fn valid_points_sum(s: Seq<SflRecord>) -> int {
    valid_points_upto(s, s.len() as int)
}

/// A fully sampled regular fixture: every game has an outcome and no points
/// have been awarded yet.
pub open spec fn fresh_full_fixture(s: Seq<SflRecord>) -> bool {
    s.len() == 12 && forall|i: int| 0 <= i < 12 ==> (#[trigger] s[i]).is_valid && s[i].point == 0
}

/// The scoring pass is idempotent: a second pass over an already resolved
/// record sequence changes nothing, for every starting sequence.
pub proof fn lemma_resolve_idempotent(s: Seq<SflRecord>)
    requires
        s.len() == 12,
    ensures
        resolve_spec(resolve_spec(s)) == resolve_spec(s),
{
    let t = resolve_spec(s);
    assert(forall|i: int| 0 <= i < 12 ==> resolve_spec(s)[i] == resolved_at(s, i));
    assert(sweep2(t, 0) == sweep2(s, 0) && third2(t, 0) == third2(s, 0));
    assert(sweep2(t, 3) == sweep2(s, 3) && third2(t, 3) == third2(s, 3));
    assert(gen_sweep(t) == gen_sweep(s));
    assert(gen_game4(t) == gen_game4(s));
    assert(gen_game5(t) == gen_game5(s));
    assert(team_points(t) == team_points(s));
    assert(opp_points(t) == opp_points(s));
    assert forall|i: int| 0 <= i < 12 implies resolve_spec(t)[i] == t[i] by {
        assert(resolve_spec(t)[i] == resolved_at(t, i));
        assert(t[i] == resolved_at(s, i));
    }
    assert(resolve_spec(t) =~= t);
}

/// On a fully sampled regular fixture the valid points always come to the
/// three series' values plus the tiebreak's exactly when it triggers —
/// never outside the fixed 40 to 45 band, whatever the game outcomes.
pub proof fn lemma_point_bound(s: Seq<SflRecord>)
    requires
        fresh_full_fixture(s),
    ensures
        valid_points_sum(resolve_spec(s)) == 40 + (if tiebreak_on(s) {
            5int
        } else {
            0int
        }),
        40 <= valid_points_sum(resolve_spec(s)) <= 45,
{
    let t = resolve_spec(s);
    assert(forall|i: int| 0 <= i < 12 ==> t[i] == resolved_at(s, i));
    assert(t.len() == 12);
    reveal_with_fuel(valid_points_upto, 14);
    assert(valid_points_sum(t) == valid_points_upto(t, 12));
}

/// The winner of the opening or mid series of a fully sampled fixture
/// (true for the `team` side).
pub open spec fn short_series_winner(s: Seq<SflRecord>, b: int) -> bool {
    if s[b].win_flag == s[b + 1].win_flag {
        s[b].win_flag
    } else {
        s[b + 2].win_flag
    }
}

/// The winner of the anchor series of a fully sampled fixture.
pub open spec fn anchor_series_winner(s: Seq<SflRecord>) -> bool {
    if gen_sweep(s) {
        s[6].win_flag
    } else if gen_decide4(s) {
        s[9].win_flag
    } else {
        s[10].win_flag
    }
}

/// On a fully sampled regular fixture the tiebreak game is validated
/// exactly when one side took both short series and the other side took
/// the anchor series; every other split leaves it invalid.
pub proof fn lemma_tiebreak_trigger(s: Seq<SflRecord>)
    requires
        fresh_full_fixture(s),
    ensures
        resolve_spec(s)[11].is_valid <==> (short_series_winner(s, 0) == short_series_winner(s, 3)
            && anchor_series_winner(s) != short_series_winner(s, 0)),
{
    assert(resolve_spec(s)[11] == resolved_at(s, 11));
}

// The playoff and grand-final point race.  Those fixtures decompose into
// fixed ordered blocks — two best-of-three and one best-of-five per
// eleven-game group, then a closing best-of-three — each worth ten times
// its weight; a block is won by the side taking a strict majority of its
// games.  Points accumulate block by block and the first side to reach the
// stage's threshold wins, the remaining blocks never being evaluated.

/// Where block `k` of a meta-series fixture starts.
pub open spec fn block_start(k: int) -> int {
    (k / 3) * 11 + (k % 3) * 3
}

/// How many games block `k` holds.
pub open spec fn block_len(k: int) -> int {
    if k % 3 == 2 {
        5
    } else {
        3
    }
}

/// The first game index after block `k`.
pub open spec fn block_end(k: int) -> int {
    block_start(k) + block_len(k)
}

/// The weight of block `k`; a block is worth ten times its weight in
/// points, and is won by the side with more than `weight` of its games.
pub open spec fn block_weight(k: int) -> int {
    if k % 3 == 2 {
        2
    } else {
        1
    }
}

/// How many blocks a meta-series fixture of the stage owns.
pub open spec fn series_block_count(stage: SflStage) -> int {
    match stage {
        SflStage::JP2024Playoff => 10,
        SflStage::JP2024GrandFinal => 13,
        _ => 0,
    }
}

/// The points a side must reach to take the meta-series.
pub open spec fn series_threshold(stage: SflStage) -> int {
    match stage {
        SflStage::JP2024Playoff => 70,
        SflStage::JP2024GrandFinal => 90,
        _ => 0,
    }
}

/// How many of the `len` games from `start` on the `team` side won.
pub open spec fn wins_in(s: Seq<SflRecord>, start: int, len: int) -> int
    decreases len,
{
    if len <= 0 {
        0
    } else {
        wins_in(s, start, len - 1) + if s[start + len - 1].win_flag {
            1int
        } else {
            0int
        }
    }
}

/// Whether the `team` side takes block `k`: a strict majority of its games.
pub open spec fn block_won(s: Seq<SflRecord>, k: int) -> bool {
    wins_in(s, block_start(k), block_len(k)) > block_weight(k)
}

/// Ten times the total weight of the blocks before `k`.
pub open spec fn weights_upto(k: int) -> int
    decreases k,
{
    if k <= 0 {
        0
    } else {
        weights_upto(k - 1) + 10 * block_weight(k - 1)
    }
}

/// The point race from block `k` with running scores `tp` and `op`:
/// `Some((team_won, team_points, opponent_points, deciding_block))` as soon
/// as either side reaches the threshold, `None` if the blocks run out
/// first.
pub open spec fn race_from(s: Seq<SflRecord>, stage: SflStage, k: int, tp: int, op: int) -> Option<
    (bool, int, int, int),
>
    decreases series_block_count(stage) - k,
{
    if k < 0 || k >= series_block_count(stage) {
        None
    } else {
        if block_won(s, k) {
            if tp + 10 * block_weight(k) >= series_threshold(stage) {
                Some((true, tp + 10 * block_weight(k), op, k))
            } else {
                race_from(s, stage, k + 1, tp + 10 * block_weight(k), op)
            }
        } else {
            if op + 10 * block_weight(k) >= series_threshold(stage) {
                Some((false, tp, op + 10 * block_weight(k), k))
            } else {
                race_from(s, stage, k + 1, tp, op + 10 * block_weight(k))
            }
        }
    }
}

/// The full point race of a meta-series fixture.
pub open spec fn race_spec(s: Seq<SflRecord>, stage: SflStage) -> Option<(bool, int, int, int)> {
    race_from(s, stage, 0, 0, 0)
}

/// Two record sequences agreeing on the win flags of the first `m` games
/// count wins identically over any window inside them.
proof fn lemma_wins_in_agree(s1: Seq<SflRecord>, s2: Seq<SflRecord>, start: int, len: int, m: int)
    requires
        0 <= start,
        0 <= len,
        start + len <= m,
        forall|i: int| 0 <= i < m ==> (#[trigger] s1[i]).win_flag == s2[i].win_flag,
    ensures
        wins_in(s1, start, len) == wins_in(s2, start, len),
    decreases len,
{
    if len > 0 {
        lemma_wins_in_agree(s1, s2, start, len - 1, m);
    }
}

/// Block ends never move backward as the block index grows.
proof fn lemma_block_end_mono(j: int, k: int)
    requires
        0 <= j <= k,
    ensures
        block_end(j) <= block_end(k),
    decreases k - j,
{
    if j < k {
        lemma_block_end_mono(j, k - 1);
        assert(block_end(k - 1) <= block_end(k)) by {
            assert((k - 1) / 3 == if k % 3 == 0 {
                k / 3 - 1
            } else {
                k / 3
            });
        }
    }
}

/// A decided race stops at a block no earlier than where it stands.
proof fn lemma_race_stop_range(s: Seq<SflRecord>, stage: SflStage, k: int, tp: int, op: int)
    requires
        race_from(s, stage, k, tp, op) is Some,
    ensures
        k <= race_from(s, stage, k, tp, op)->Some_0.3 < series_block_count(stage),
    decreases series_block_count(stage) - k,
{
    if !(k < 0 || k >= series_block_count(stage)) {
        if block_won(s, k) {
            if !(tp + 10 * block_weight(k) >= series_threshold(stage)) {
                lemma_race_stop_range(s, stage, k + 1, tp + 10 * block_weight(k), op);
            }
        } else {
            if !(op + 10 * block_weight(k) >= series_threshold(stage)) {
                lemma_race_stop_range(s, stage, k + 1, tp, op + 10 * block_weight(k));
            }
        }
    }
}

/// A race decided at some block reads nothing past that block's end: any
/// sequence agreeing on the win flags up to there races to the same result.
proof fn lemma_race_prefix(
    s1: Seq<SflRecord>,
    s2: Seq<SflRecord>,
    stage: SflStage,
    k: int,
    tp: int,
    op: int,
)
    requires
        race_from(s1, stage, k, tp, op) is Some,
        0 <= k,
        forall|i: int|
            0 <= i < block_end(race_from(s1, stage, k, tp, op)->Some_0.3) ==> (
            #[trigger] s1[i]).win_flag == s2[i].win_flag,
    ensures
        race_from(s2, stage, k, tp, op) == race_from(s1, stage, k, tp, op),
    decreases series_block_count(stage) - k,
{
    let res = race_from(s1, stage, k, tp, op)->Some_0;
    lemma_race_stop_range(s1, stage, k, tp, op);
    assert(k <= res.3);
    lemma_block_end_mono(k, res.3);
    assert(block_start(k) >= 0 && block_len(k) >= 0) by {
        assert(k / 3 >= 0 && k % 3 >= 0);
    }
    lemma_wins_in_agree(s1, s2, block_start(k), block_len(k), block_end(res.3));
    assert(block_won(s2, k) == block_won(s1, k));
    if block_won(s1, k) {
        if !(tp + 10 * block_weight(k) >= series_threshold(stage)) {
            lemma_race_prefix(s1, s2, stage, k + 1, tp + 10 * block_weight(k), op);
        }
    } else {
        if !(op + 10 * block_weight(k) >= series_threshold(stage)) {
            lemma_race_prefix(s1, s2, stage, k + 1, tp, op + 10 * block_weight(k));
        }
    }
}

/// The point race exits early: once a side reaches the threshold at some
/// block, the games of all later blocks have no bearing on the result.
pub proof fn lemma_race_early_exit(s1: Seq<SflRecord>, s2: Seq<SflRecord>, stage: SflStage)
    requires
        race_spec(s1, stage) is Some,
        forall|i: int|
            0 <= i < block_end(race_spec(s1, stage)->Some_0.3) ==> (#[trigger] s1[i]).win_flag
                == s2[i].win_flag,
    ensures
        race_spec(s2, stage) == race_spec(s1, stage),
{
    lemma_race_prefix(s1, s2, stage, 0, 0, 0);
}

impl SflStage {
    /// Resolves a playoff or grand-final fixture as a point race: evaluates
    /// the blocks in order and returns the winning team with both running
    /// scores the moment one side reaches the stage's threshold.  Some side
    /// always does: every block is awarded whole, so the two scores exhaust
    /// the total weight, of which no losing pair of scores can hold all.
    pub fn get_win_team(&self, records: &Vec<SflRecord>) -> (r: (SflTeam, u32, u32))
        requires
            matches!(*self, SflStage::JP2024Playoff | SflStage::JP2024GrandFinal),
            records@.len() == (if *self == SflStage::JP2024Playoff {
                36int
            } else {
                47int
            }),
        ensures
            race_spec(records@, *self) is Some,
            ({
                let res = race_spec(records@, *self)->Some_0;
                &&& r.0 == (if res.0 {
                    records@[0].sfl_match.team
                } else {
                    records@[0].sfl_match.opponent_team
                })
                &&& r.1 == res.1
                &&& r.2 == res.2
            }),
    {
        let block_count: usize = if matches!(*self, SflStage::JP2024Playoff) {
            10
        } else {
            13
        };
        let threshold: u32 = if matches!(*self, SflStage::JP2024Playoff) {
            70
        } else {
            90
        };
        let mut team_point: u32 = 0;
        let mut opponent_team_point: u32 = 0;
        let mut k: usize = 0;
        while k < block_count
            invariant
                0 <= k <= block_count,
                block_count == series_block_count(*self),
                threshold == series_threshold(*self),
                matches!(*self, SflStage::JP2024Playoff | SflStage::JP2024GrandFinal),
                records@.len() == (if *self == SflStage::JP2024Playoff {
                    36int
                } else {
                    47int
                }),
                team_point + opponent_team_point == weights_upto(k as int),
                team_point % 10 == 0,
                opponent_team_point % 10 == 0,
                team_point < threshold,
                opponent_team_point < threshold,
                race_from(records@, *self, k as int, team_point as int, opponent_team_point as int)
                    == race_spec(records@, *self),
            decreases block_count - k,
        {
            let start: usize = (k / 3) * 11 + (k % 3) * 3;
            let len: usize = if k % 3 == 2 {
                5
            } else {
                3
            };
            let weight: u32 = if k % 3 == 2 {
                2
            } else {
                1
            };
            assert(start == block_start(k as int) && len == block_len(k as int) && weight
                == block_weight(k as int));
            assert(start + len <= records@.len());
            let mut won: u32 = 0;
            let mut j: usize = 0;
            while j < len
                invariant
                    j <= len,
                    len <= 5,
                    start + len <= records@.len(),
                    records@.len() <= 47,
                    won == wins_in(records@, start as int, j as int),
                    won <= j,
                decreases len - j,
            {
                if records[start + j].win_flag {
                    won = won + 1;
                }
                j = j + 1;
            }
            if won > weight {
                team_point = team_point + weight * 10;
                if team_point >= threshold {
                    return (records[0].sfl_match.team, team_point, opponent_team_point);
                }
            } else {
                opponent_team_point = opponent_team_point + weight * 10;
                if opponent_team_point >= threshold {
                    return (records[0].sfl_match.opponent_team, team_point, opponent_team_point);
                }
            }
            k = k + 1;
        }
        // No side below the threshold can be holding its share of the full
        // weight: the race always ends inside the loop.
        proof {
            assert(weights_upto(10) == 130 && weights_upto(13) == 170) by {
                reveal_with_fuel(weights_upto, 14);
            }
            assert(false);
        }
        unreached()
    }

    /// One pass of the scoring engine over a regular fixture's records.
    /// Point fields of deciding games are derived afresh, never added to,
    /// so the pass may be repeated (see `lemma_resolve_idempotent`).
    pub fn correct_records(&self, records: &mut Vec<SflRecord>)
        requires
            matches!(*self, SflStage::JP2024DivisionS
                | SflStage::JP2024DivisionF
                | SflStage::JP2024AllDivision) ==> old(records)@.len() == 12,
        ensures
            final(records)@ == correct_spec(*self, old(records)@),
    {
        match self {
            SflStage::JP2024DivisionS | SflStage::JP2024DivisionF
                | SflStage::JP2024AllDivision => {},
            _ => {
                return ;
            },
        }
        let (van_team, van_opp) = resolve_short_series(records, 0);
        let (mid_team, mid_opp) = resolve_short_series(records, 3);
        let (gen_team, gen_opp) = resolve_anchor_series(records);
        let team_point: u32 = van_team + mid_team + gen_team;
        let opponent_team_point: u32 = van_opp + mid_opp + gen_opp;

        // Tiebreak game: validated exactly on its trigger.
        let tiebreak = team_point == 20 && opponent_team_point == 20;
        let p11 = records[11].point;
        records[11].is_valid = tiebreak;
        records[11].point = if tiebreak {
            5
        } else {
            p11
        };

        proof {
            let s = old(records)@;
            lemma_resolve_shape(s, records@, team_point as int, opponent_team_point as int);
        }
    }
}

} // verus!
