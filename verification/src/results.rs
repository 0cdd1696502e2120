//! Accumulation structures read out after the trials: placement histograms,
//! point and battle sums, and the per-fixture point breakdown.

use vstd::prelude::*;
use crate::schedule::{teams_spec, SflStage};
use crate::team::SflTeam;

verus! {

/// Current points and battle differential per team, from the already
/// played records.
pub struct SflStats {
    pub points: Vec<u32>,
    pub battles: Vec<i32>,
}

impl SflStats {
    /// Zeroed stats for the twelve teams.
    pub fn new() -> (s: SflStats)
        ensures
            s.points@.len() == 12,
            s.battles@.len() == 12,
            forall|i: int| 0 <= i < 12 ==> s.points@[i] == 0,
            forall|i: int| 0 <= i < 12 ==> s.battles@[i] == 0,
    {
        let mut points: Vec<u32> = Vec::new();
        let mut battles: Vec<i32> = Vec::new();
        let mut i: usize = 0;
        while i < 12
            invariant
                i <= 12,
                points@.len() == i,
                battles@.len() == i,
                forall|j: int| 0 <= j < i ==> points@[j] == 0,
                forall|j: int| 0 <= j < i ==> battles@[j] == 0,
            decreases 12 - i,
        {
            points.push(0);
            battles.push(0);
            i = i + 1;
        }
        SflStats { points, battles }
    }

    /// The per-team current points.
    pub fn get_points(&self) -> (r: Vec<u32>)
        ensures
            r@ == self.points@,
    {
        let r = self.points.clone();
        proof {
            assert(r@ =~= self.points@);
        }
        r
    }

    /// The per-team current battle differentials.
    pub fn get_battles(&self) -> (r: Vec<i32>)
        ensures
            r@ == self.battles@,
    {
        let r = self.battles.clone();
        proof {
            assert(r@ =~= self.battles@);
        }
        r
    }
}

/// One row of the flattened placement detail: the top three team indices of
/// a division outcome and how many trials produced it.
pub struct DivisionPlaceDetail {
    pub first: usize,
    pub second: usize,
    pub third: usize,
    pub time: usize,
}

impl DivisionPlaceDetail {
    /// Reads a flattened detail row.
    pub fn new(params: &Vec<usize>) -> (d: DivisionPlaceDetail)
        requires
            params@.len() >= 4,
        ensures
            d.first == params@[0],
            d.second == params@[1],
            d.third == params@[2],
            d.time == params@[3],
    {
        DivisionPlaceDetail {
            first: params[0],
            second: params[1],
            third: params[2],
            time: params[3],
        }
    }
}

/// The total of one histogram row.
pub open spec fn row_sum(row: Seq<u32>) -> int
    decreases row.len(),
{
    if row.len() == 0 {
        0
    } else {
        row_sum(row.drop_last()) + row.last()
    }
}

/// Overwriting one counter moves the row total by the difference.
pub proof fn lemma_row_sum_update(row: Seq<u32>, c: int, x: u32)
    requires
        0 <= c < row.len(),
    ensures
        row_sum(row.update(c, x)) == row_sum(row) + x - row[c],
    decreases row.len(),
{
    if c == row.len() - 1 {
        assert(row.update(c, x).drop_last() =~= row.drop_last());
    } else {
        assert(row.update(c, x).drop_last() =~= row.drop_last().update(c, x));
        lemma_row_sum_update(row.drop_last(), c, x);
    }
}

/// A row of zeroed counters totals zero.
pub proof fn lemma_row_sum_zero(row: Seq<u32>)
    requires
        forall|j: int| 0 <= j < row.len() ==> row[j] == 0,
    ensures
        row_sum(row) == 0,
    decreases row.len(),
{
    if row.len() > 0 {
        lemma_row_sum_zero(row.drop_last());
    }
}

/// The total of one histogram column over all rows.
pub open spec fn col_sum(g: Seq<Vec<u32>>, c: int) -> int
    decreases g.len(),
{
    if g.len() == 0 {
        0
    } else {
        col_sum(g.drop_last(), c) + if 0 <= c < g.last()@.len() {
            g.last()@[c] as int
        } else {
            0int
        }
    }
}

/// Grids equal cell for cell have equal column totals.
pub proof fn lemma_col_sum_pointwise(go: Seq<Vec<u32>>, gf: Seq<Vec<u32>>, cq: int)
    requires
        go.len() == gf.len(),
        forall|i: int| 0 <= i < go.len() ==> (#[trigger] gf[i])@.len() == go[i]@.len(),
        forall|i: int, j: int|
            #![all_triggers]
            0 <= i < go.len() && 0 <= j < go[i]@.len() ==> gf[i]@[j] == go[i]@[j],
    ensures
        col_sum(gf, cq) == col_sum(go, cq),
    decreases go.len(),
{
    if go.len() > 0 {
        lemma_col_sum_pointwise(go.drop_last(), gf.drop_last(), cq);
    }
}

/// Adding one to a single cell raises exactly that column's total by one.
pub proof fn lemma_col_sum_bump(go: Seq<Vec<u32>>, gf: Seq<Vec<u32>>, r: int, c: int, cq: int)
    requires
        go.len() == gf.len(),
        0 <= r < go.len(),
        0 <= c < go[r]@.len(),
        forall|i: int| 0 <= i < go.len() ==> (#[trigger] gf[i])@.len() == go[i]@.len(),
        forall|i: int, j: int|
            #![all_triggers]
            0 <= i < go.len() && 0 <= j < go[i]@.len() ==> gf[i]@[j] == go[i]@[j] + (if i == r && j
                == c {
                1int
            } else {
                0int
            }),
    ensures
        col_sum(gf, cq) == col_sum(go, cq) + (if cq == c {
            1int
        } else {
            0int
        }),
    decreases go.len(),
{
    if r == go.len() - 1 {
        lemma_col_sum_pointwise(go.drop_last(), gf.drop_last(), cq);
    } else {
        lemma_col_sum_bump(go.drop_last(), gf.drop_last(), r, c, cq);
    }
}

/// A zeroed grid's column totals are zero.
pub proof fn lemma_col_sum_zero(g: Seq<Vec<u32>>, cq: int)
    requires
        forall|i: int, j: int|
            #![all_triggers]
            0 <= i < g.len() && 0 <= j < g[i]@.len() ==> g[i]@[j] == 0,
    ensures
        col_sum(g, cq) == 0,
    decreases g.len(),
{
    if g.len() > 0 {
        lemma_col_sum_zero(g.drop_last(), cq);
    }
}

/// The shape every simulation result keeps: placement histograms per team,
/// point/battle sums per team, per-fixture point breakdowns, and the
/// placement detail grid.
pub open spec fn result_shape(r: SflSimulationResult) -> bool {
    &&& r.division_place_count@.len() == 12
    &&& forall|i: int| 0 <= i < 12 ==> (#[trigger] r.division_place_count@[i])@.len() == 6
    &&& r.division_points_battles@.len() == 12
    &&& forall|i: int| 0 <= i < 12 ==> (#[trigger] r.division_points_battles@[i])@.len() == 2
    &&& r.playoff_place_count@.len() == 12
    &&& forall|i: int| 0 <= i < 12 ==> (#[trigger] r.playoff_place_count@[i])@.len() == 4
    &&& r.match_points@.len() == 60
    &&& forall|i: int| 0 <= i < 60 ==> (#[trigger] r.match_points@[i])@.len() == 4
    &&& r.division_place_detail@.len() == 12
    &&& forall|i: int| 0 <= i < 12 ==> (#[trigger] r.division_place_detail@[i])@.len() == 12
    &&& forall|i: int, j: int| #![all_triggers]
        0 <= i < 12 && 0 <= j < 12 ==> r.division_place_detail@[i]@[j]@.len() == 12
    &&& forall|i: int|
        0 <= i < r.division_place_detail_flatten@.len() ==> (
        #[trigger] r.division_place_detail_flatten@[i])@.len() == 4
}

/// The mutable accumulation store of one driver invocation.
pub struct SflSimulationResult {
    pub division_place_count: Vec<Vec<u32>>,
    pub division_points_battles: Vec<Vec<i32>>,
    pub playoff_place_count: Vec<Vec<u32>>,
    pub match_points: Vec<Vec<u32>>,
    pub division_places: Vec<Vec<usize>>,
    pub playoff_places: Vec<usize>,
    pub division_place_detail: Vec<Vec<Vec<usize>>>,
    pub division_place_detail_flatten: Vec<Vec<usize>>,
}

/// A vector of `n` zeroed counters.
fn zero_row_u32(n: usize) -> (r: Vec<u32>)
    ensures
        r@.len() == n,
        forall|j: int| 0 <= j < n ==> r@[j] == 0,
{
    let mut r: Vec<u32> = Vec::new();
    let mut i: usize = 0;
    while i < n
        invariant
            i <= n,
            r@.len() == i,
            forall|j: int| 0 <= j < i ==> r@[j] == 0,
        decreases n - i,
    {
        r.push(0);
        i = i + 1;
    }
    r
}

/// A vector of `n` zeroed signed counters.
fn zero_row_i32(n: usize) -> (r: Vec<i32>)
    ensures
        r@.len() == n,
        forall|j: int| 0 <= j < n ==> r@[j] == 0,
{
    let mut r: Vec<i32> = Vec::new();
    let mut i: usize = 0;
    while i < n
        invariant
            i <= n,
            r@.len() == i,
            forall|j: int| 0 <= j < i ==> r@[j] == 0,
        decreases n - i,
    {
        r.push(0);
        i = i + 1;
    }
    r
}

/// A vector of `n` zeroed machine-word counters.
fn zero_row_usize(n: usize) -> (r: Vec<usize>)
    ensures
        r@.len() == n,
        forall|j: int| 0 <= j < n ==> r@[j] == 0,
{
    let mut r: Vec<usize> = Vec::new();
    let mut i: usize = 0;
    while i < n
        invariant
            i <= n,
            r@.len() == i,
            forall|j: int| 0 <= j < i ==> r@[j] == 0,
        decreases n - i,
    {
        r.push(0);
        i = i + 1;
    }
    r
}

impl SflSimulationResult {
    /// A zeroed result store.
    pub fn new() -> (r: SflSimulationResult)
        ensures
            result_shape(r),
            forall|i: int, j: int| #![all_triggers]
                0 <= i < 12 && 0 <= j < 6 ==> r.division_place_count@[i]@[j] == 0,
            forall|i: int, j: int| #![all_triggers]
                0 <= i < 12 && 0 <= j < 2 ==> r.division_points_battles@[i]@[j] == 0,
            forall|i: int, j: int| #![all_triggers]
                0 <= i < 12 && 0 <= j < 4 ==> r.playoff_place_count@[i]@[j] == 0,
            forall|i: int, j: int| #![all_triggers]
                0 <= i < 60 && 0 <= j < 4 ==> r.match_points@[i]@[j] == 0,
            forall|i: int, j: int, k: int| #![all_triggers]
                0 <= i < 12 && 0 <= j < 12 && 0 <= k < 12 ==> r.division_place_detail@[i]@[j]@[k] == 0,
            r.division_places@.len() == 2,
            forall|i: int| 0 <= i < 2 ==> (#[trigger] r.division_places@[i])@.len() == 0,
            r.playoff_places@.len() == 0,
            r.division_place_detail_flatten@.len() == 0,
    {
        let mut division_place_count: Vec<Vec<u32>> = Vec::new();
        let mut division_points_battles: Vec<Vec<i32>> = Vec::new();
        let mut playoff_place_count: Vec<Vec<u32>> = Vec::new();
        let mut division_place_detail: Vec<Vec<Vec<usize>>> = Vec::new();
        let mut i: usize = 0;
        while i < 12
            invariant
                i <= 12,
                division_place_count@.len() == i,
                division_points_battles@.len() == i,
                playoff_place_count@.len() == i,
                division_place_detail@.len() == i,
                forall|a: int| 0 <= a < i ==> (#[trigger] division_place_count@[a])@.len() == 6,
                forall|a: int, b: int| #![all_triggers]
                    0 <= a < i && 0 <= b < 6 ==> division_place_count@[a]@[b] == 0,
                forall|a: int| 0 <= a < i ==> (#[trigger] division_points_battles@[a])@.len() == 2,
                forall|a: int, b: int| #![all_triggers]
                    0 <= a < i && 0 <= b < 2 ==> division_points_battles@[a]@[b] == 0,
                forall|a: int| 0 <= a < i ==> (#[trigger] playoff_place_count@[a])@.len() == 4,
                forall|a: int, b: int| #![all_triggers]
                    0 <= a < i && 0 <= b < 4 ==> playoff_place_count@[a]@[b] == 0,
                forall|a: int| 0 <= a < i ==> (#[trigger] division_place_detail@[a])@.len() == 12,
                forall|a: int, b: int| #![all_triggers]
                    0 <= a < i && 0 <= b < 12 ==> division_place_detail@[a]@[b]@.len() == 12,
                forall|a: int, b: int, c: int| #![all_triggers]
                    0 <= a < i && 0 <= b < 12 && 0 <= c < 12 ==> division_place_detail@[a]@[b]@[c]
                        == 0,
            decreases 12 - i,
        {
            division_place_count.push(zero_row_u32(6));
            division_points_battles.push(zero_row_i32(2));
            playoff_place_count.push(zero_row_u32(4));
            let mut grid: Vec<Vec<usize>> = Vec::new();
            let mut g: usize = 0;
            while g < 12
                invariant
                    g <= 12,
                    grid@.len() == g,
                    forall|b: int| 0 <= b < g ==> (#[trigger] grid@[b])@.len() == 12,
                    forall|b: int, c: int| #![all_triggers]
                        0 <= b < g && 0 <= c < 12 ==> grid@[b]@[c] == 0,
                decreases 12 - g,
            {
                grid.push(zero_row_usize(12));
                g = g + 1;
            }
            division_place_detail.push(grid);
            i = i + 1;
        }
        let mut match_points: Vec<Vec<u32>> = Vec::new();
        let mut m: usize = 0;
        while m < 60
            invariant
                m <= 60,
                match_points@.len() == m,
                forall|a: int| 0 <= a < m ==> (#[trigger] match_points@[a])@.len() == 4,
                forall|a: int, b: int| #![all_triggers]
                    0 <= a < m && 0 <= b < 4 ==> match_points@[a]@[b] == 0,
            decreases 60 - m,
        {
            match_points.push(zero_row_u32(4));
            m = m + 1;
        }
        let mut division_places: Vec<Vec<usize>> = Vec::new();
        division_places.push(Vec::new());
        division_places.push(Vec::new());
        SflSimulationResult {
            division_place_count,
            division_points_battles,
            playoff_place_count,
            match_points,
            division_places,
            playoff_places: Vec::new(),
            division_place_detail,
            division_place_detail_flatten: Vec::new(),
        }
    }
}

/// Zeroed per-team placement counters and point/battle aggregates for the
/// teams of a stage, keyed in the stage's team order.
pub fn get_place_sim_count(sfl_stage: SflStage) -> (r: Vec<(SflTeam, (Vec<u32>, (u32, u32, i32, i32)))>)
    ensures
        r@.len() == teams_spec(sfl_stage).len(),
        forall|i: int|
            0 <= i < r@.len() ==> {
                &&& (#[trigger] r@[i]).0 == teams_spec(sfl_stage)[i]
                &&& r@[i].1.0@.len() == 6
                &&& forall|j: int| 0 <= j < 6 ==> r@[i].1.0@[j] == 0
                &&& r@[i].1.1 == (0u32, 0u32, 0i32, 0i32)
            },
{
    let teams = sfl_stage.get_teams();
    let mut r: Vec<(SflTeam, (Vec<u32>, (u32, u32, i32, i32)))> = Vec::new();
    let mut i: usize = 0;
    while i < teams.len()
        invariant
            i <= teams@.len(),
            teams@ == teams_spec(sfl_stage),
            r@.len() == i,
            forall|k: int|
                0 <= k < i ==> {
                    &&& (#[trigger] r@[k]).0 == teams_spec(sfl_stage)[k]
                    &&& r@[k].1.0@.len() == 6
                    &&& forall|j: int| 0 <= j < 6 ==> r@[k].1.0@[j] == 0
                    &&& r@[k].1.1 == (0u32, 0u32, 0i32, 0i32)
                },
        decreases teams@.len() - i,
    {
        r.push((teams[i], (zero_row_u32(6), (0, 0, 0, 0))));
        i = i + 1;
    }
    r
}



/// A six-wide counter row together with its total.
fn counted_row6(a: u32, b: u32, c: u32, d: u32, e: u32, f: u32) -> (row: Vec<u32>)
    requires
        a + b + c + d + e + f <= 0xffffffff,
    ensures
        row@ == seq![a, b, c, d, e, f],
        row_sum(row@) == a + b + c + d + e + f,
{
    let row: Vec<u32> = vec![a, b, c, d, e, f];
    proof {
        reveal_with_fuel(row_sum, 8);
        assert(row@ =~= seq![a, b, c, d, e, f]);
        assert(row@.drop_last() =~= seq![a, b, c, d, e]);
        assert(row@.drop_last().drop_last() =~= seq![a, b, c, d]);
        assert(row@.drop_last().drop_last().drop_last() =~= seq![a, b, c]);
        assert(row@.drop_last().drop_last().drop_last().drop_last() =~= seq![a, b]);
        assert(row@.drop_last().drop_last().drop_last().drop_last().drop_last() =~= seq![a]);
        assert(row@.drop_last().drop_last().drop_last().drop_last().drop_last().drop_last()
            =~= Seq::<u32>::empty());
    }
    row
}

/// The transcribed per-fixture point breakdown of the stored snapshot.
#[verifier::rlimit(100)]
#[verifier::spinoff_prover]
fn snapshot_match_points() -> (rows: Vec<Vec<u32>>)
    ensures
        rows@.len() == 60,
        forall|i: int| 0 <= i < 60 ==> (#[trigger] rows@[i])@.len() == 4,
        rows@[0]@ == seq![200000u32, 0u32, 50000u32, 200000u32],
{
    let mut rows: Vec<Vec<u32>> = Vec::new();
    rows.push(vec![200000u32, 0u32, 50000u32, 200000u32]);
    rows.push(vec![200000u32, 0u32, 200000u32, 0u32]);
    rows.push(vec![200000u32, 0u32, 50000u32, 200000u32]);
    rows.push(vec![100000u32, 100000u32, 0u32, 200000u32]);
    rows.push(vec![100000u32, 100000u32, 200000u32, 0u32]);
    rows.push(vec![100000u32, 100000u32, 200000u32, 0u32]);
    rows.push(vec![100000u32, 100000u32, 200000u32, 0u32]);
    rows.push(vec![200000u32, 0u32, 0u32, 250000u32]);
    rows.push(vec![100000u32, 100000u32, 200000u32, 0u32]);
    rows.push(vec![100000u32, 100000u32, 0u32, 200000u32]);
    rows.push(vec![0u32, 200000u32, 0u32, 200000u32]);
    rows.push(vec![0u32, 200000u32, 0u32, 200000u32]);
    rows.push(vec![100000u32, 100000u32, 200000u32, 0u32]);
    rows.push(vec![200000u32, 0u32, 200000u32, 0u32]);
    rows.push(vec![0u32, 200000u32, 200000u32, 50000u32]);
    rows.push(vec![200000u32, 0u32, 0u32, 250000u32]);
    rows.push(vec![200000u32, 0u32, 0u32, 250000u32]);
    rows.push(vec![200000u32, 0u32, 200000u32, 0u32]);
    rows.push(vec![100000u32, 100000u32, 200000u32, 0u32]);
    rows.push(vec![100000u32, 100000u32, 200000u32, 0u32]);
    rows.push(vec![100000u32, 100000u32, 200000u32, 0u32]);
    rows.push(vec![0u32, 200000u32, 200000u32, 50000u32]);
    rows.push(vec![0u32, 200000u32, 0u32, 200000u32]);
    rows.push(vec![0u32, 200000u32, 0u32, 200000u32]);
    rows.push(vec![100000u32, 100000u32, 0u32, 200000u32]);
    rows.push(vec![100000u32, 100000u32, 0u32, 200000u32]);
    rows.push(vec![0u32, 200000u32, 0u32, 200000u32]);
    rows.push(vec![0u32, 200000u32, 200000u32, 50000u32]);
    rows.push(vec![100000u32, 100000u32, 200000u32, 0u32]);
    rows.push(vec![0u32, 200000u32, 200000u32, 50000u32]);
    rows.push(vec![0u32, 200000u32, 0u32, 200000u32]);
    rows.push(vec![200000u32, 0u32, 200000u32, 0u32]);
    rows.push(vec![100000u32, 100000u32, 200000u32, 0u32]);
    rows.push(vec![200000u32, 0u32, 0u32, 250000u32]);
    rows.push(vec![200000u32, 0u32, 200000u32, 0u32]);
    rows.push(vec![100000u32, 100000u32, 0u32, 200000u32]);
    rows.push(vec![100000u32, 100000u32, 200000u32, 0u32]);
    rows.push(vec![0u32, 200000u32, 250000u32, 0u32]);
    rows.push(vec![0u32, 200000u32, 0u32, 200000u32]);
    rows.push(vec![0u32, 200000u32, 0u32, 200000u32]);
    rows.push(vec![200000u32, 0u32, 200000u32, 0u32]);
    rows.push(vec![0u32, 200000u32, 250000u32, 0u32]);
    rows.push(vec![82680u32, 117320u32, 105630u32, 107480u32]);
    rows.push(vec![116560u32, 83440u32, 112245u32, 100390u32]);
    rows.push(vec![110880u32, 89120u32, 105160u32, 107435u32]);
    rows.push(vec![92410u32, 107590u32, 108780u32, 103440u32]);
    rows.push(vec![73250u32, 126750u32, 109575u32, 103855u32]);
    rows.push(vec![106700u32, 93300u32, 135980u32, 76000u32]);
    rows.push(vec![85480u32, 114520u32, 101405u32, 110775u32]);
    rows.push(vec![88460u32, 111540u32, 105500u32, 107145u32]);
    rows.push(vec![94480u32, 105520u32, 122415u32, 90250u32]);
    rows.push(vec![75200u32, 124800u32, 124470u32, 89560u32]);
    rows.push(vec![116830u32, 83170u32, 154920u32, 56060u32]);
    rows.push(vec![88500u32, 111500u32, 123195u32, 89685u32]);
    rows.push(vec![108110u32, 91890u32, 134585u32, 77375u32]);
    rows.push(vec![116350u32, 83650u32, 137785u32, 73735u32]);
    rows.push(vec![99630u32, 100370u32, 142820u32, 69980u32]);
    rows.push(vec![99330u32, 100670u32, 105310u32, 107400u32]);
    rows.push(vec![86960u32, 113040u32, 86935u32, 125560u32]);
    rows.push(vec![89800u32, 110200u32, 142380u32, 70885u32]);
    proof {
        assert(rows@[0]@ =~= seq![200000u32, 0u32, 50000u32, 200000u32]);
    }
    rows
}

impl SflSimulationResult {
    /// The stored snapshot of a previously run simulation, offered so a
    /// host can show results without re-running the trials.  Falls back to
    /// a zeroed store if the transcribed data were ever out of shape.
    #[verifier::rlimit(100)]
    #[verifier::spinoff_prover]
    pub fn current_simulated_result() -> (r: SflSimulationResult)
        ensures
            result_shape(r),
            forall|t: int| 0 <= t < 12 ==> row_sum(#[trigger] r.division_place_count@[t]@) == 10000,
            r.division_place_count@[0]@ == seq![4448u32, 3591u32, 1399u32, 514u32, 47u32, 1u32],
            r.division_points_battles@[0]@ == seq![2464300i32, 130664i32],
            r.playoff_place_count@[9]@ == seq![3368u32, 3265u32, 3067u32, 287u32],
            r.match_points@[0]@ == seq![200000u32, 0u32, 50000u32, 200000u32],
            r.division_places@.len() == 2,
            r.division_places@[0]@ == seq![0usize, 5usize, 2usize, 3usize, 4usize, 1usize],
            r.division_places@[1]@ == seq![9usize, 8usize, 6usize, 7usize, 10usize, 11usize],
            r.playoff_places@ == seq![
                9usize,
                0usize,
                5usize,
                2usize,
                6usize,
                8usize,
                10usize,
                3usize,
                7usize,
                4usize,
                1usize,
                11usize,
            ],
            forall|i: int, j: int, k: int|
                #![trigger r.division_place_detail@[i]@[j]@[k]]
                0 <= i < 12 && 0 <= j < 12 && 0 <= k < 12 ==> r.division_place_detail@[i]@[j]@[k]
                    == 0,
            r.division_place_detail_flatten@.len() == 92,
    {
        let mut rows: Vec<Vec<u32>> = Vec::new();
        rows.push(counted_row6(4448, 3591, 1399, 514, 47, 1));
        rows.push(counted_row6(0, 3, 45, 341, 2312, 7299));
        rows.push(counted_row6(1280, 2339, 4401, 1622, 313, 45));
        rows.push(counted_row6(292, 688, 2013, 5731, 1032, 244));
        rows.push(counted_row6(3, 46, 236, 1085, 6220, 2410));
        rows.push(counted_row6(3977, 3333, 1906, 707, 76, 1));
        rows.push(counted_row6(521, 3580, 3883, 1420, 595, 1));
        rows.push(counted_row6(10, 443, 1756, 4232, 3434, 125));
        rows.push(counted_row6(429, 4821, 3055, 1208, 487, 0));
        rows.push(counted_row6(9038, 830, 119, 12, 1, 0));
        rows.push(counted_row6(2, 326, 1187, 3072, 5155, 258));
        rows.push(counted_row6(0, 0, 0, 56, 328, 9616));
        let division_place_count = rows;
        proof {
            assert forall|t: int| 0 <= t < 12 implies row_sum(
                #[trigger] division_place_count@[t]@,
            ) == 10000 && division_place_count@[t]@.len() == 6 by {
            }
        }
        let mut rows: Vec<Vec<i32>> = Vec::new();
        rows.push(vec![2464300i32, 130664i32]);
        rows.push(vec![1467385i32, -123573i32]);
        rows.push(vec![2249835i32, 71590i32]);
        rows.push(vec![2027345i32, 261i32]);
        rows.push(vec![1689980i32, -151909i32]);
        rows.push(vec![2463265i32, 72967i32]);
        rows.push(vec![2268415i32, 33135i32]);
        rows.push(vec![1965840i32, -49780i32]);
        rows.push(vec![2338345i32, -5593i32]);
        rows.push(vec![2803030i32, 194552i32]);
        rows.push(vec![1866855i32, 21470i32]);
        rows.push(vec![1221505i32, -193784i32]);
        let division_points_battles = rows;
        let mut rows: Vec<Vec<u32>> = Vec::new();
        rows.push(vec![1962u32, 1444u32, 3518u32, 2514u32]);
        rows.push(vec![4u32, 3u32, 19u32, 22u32]);
        rows.push(vec![1181u32, 1508u32, 2211u32, 3120u32]);
        rows.push(vec![169u32, 411u32, 829u32, 1584u32]);
        rows.push(vec![7u32, 30u32, 64u32, 184u32]);
        rows.push(vec![1667u32, 1614u32, 3359u32, 2576u32]);
        rows.push(vec![852u32, 748u32, 2954u32, 3430u32]);
        rows.push(vec![73u32, 129u32, 528u32, 1479u32]);
        rows.push(vec![546u32, 713u32, 3041u32, 4005u32]);
        rows.push(vec![3368u32, 3265u32, 3067u32, 287u32]);
        rows.push(vec![171u32, 135u32, 410u32, 799u32]);
        rows.push(vec![0u32, 0u32, 0u32, 0u32]);
        let playoff_place_count = rows;
        let match_points = snapshot_match_points();
        let flat_data: Vec<(usize, usize, usize, usize)> = vec![
            (0usize, 2usize, 3usize, 269usize), (0usize, 2usize, 4usize, 17usize), (0usize, 2usize, 5usize, 1129usize), (0usize, 3usize, 2usize, 97usize), (0usize, 3usize, 4usize, 5usize), (0usize, 3usize, 5usize, 129usize), (0usize, 4usize, 2usize, 5usize), (0usize, 4usize, 3usize, 2usize), (0usize, 4usize, 5usize, 11usize), (0usize, 5usize, 1usize, 7usize), (0usize, 5usize, 2usize, 2100usize), (0usize, 5usize, 3usize, 593usize), (0usize, 5usize, 4usize, 84usize), (2usize, 0usize, 3usize, 194usize), (2usize, 0usize, 4usize, 5usize), (2usize, 0usize, 5usize, 480usize), (2usize, 3usize, 0usize, 94usize), (2usize, 3usize, 4usize, 2usize), (2usize, 3usize, 5usize, 62usize), (2usize, 4usize, 5usize, 3usize), (2usize, 5usize, 0usize, 341usize), (2usize, 5usize, 3usize, 96usize), (2usize, 5usize, 4usize, 3usize), (3usize, 0usize, 2usize, 36usize), (3usize, 0usize, 4usize, 1usize), (3usize, 0usize, 5usize, 54usize), (3usize, 2usize, 0usize, 48usize), (3usize, 2usize, 4usize, 4usize), (3usize, 2usize, 5usize, 35usize), (3usize, 4usize, 0usize, 2usize), (3usize, 4usize, 2usize, 1usize), (3usize, 4usize, 5usize, 2usize), (3usize, 5usize, 0usize, 57usize), (3usize, 5usize, 2usize, 48usize), (3usize, 5usize, 4usize, 4usize), (4usize, 0usize, 3usize, 1usize), (4usize, 2usize, 5usize, 1usize), (4usize, 3usize, 0usize, 1usize), (5usize, 0usize, 1usize, 36usize), (5usize, 0usize, 2usize, 2008usize), (5usize, 0usize, 3usize, 683usize), (5usize, 0usize, 4usize, 93usize), (5usize, 1usize, 0usize, 2usize), (5usize, 1usize, 3usize, 1usize), (5usize, 2usize, 0usize, 660usize), (5usize, 2usize, 1usize, 1usize), (5usize, 2usize, 3usize, 170usize), (5usize, 2usize, 4usize, 5usize), (5usize, 3usize, 0usize, 182usize), (5usize, 3usize, 2usize, 103usize), (5usize, 3usize, 4usize, 13usize), (5usize, 4usize, 0usize, 12usize), (5usize, 4usize, 1usize, 1usize), (5usize, 4usize, 2usize, 3usize), (5usize, 4usize, 3usize, 4usize), (6usize, 7usize, 8usize, 5usize), (6usize, 7usize, 9usize, 14usize), (6usize, 8usize, 7usize, 1usize), (6usize, 8usize, 9usize, 46usize), (6usize, 8usize, 10usize, 1usize), (6usize, 9usize, 7usize, 148usize), (6usize, 9usize, 8usize, 280usize), (6usize, 9usize, 10usize, 23usize), (6usize, 10usize, 9usize, 3usize), (7usize, 6usize, 9usize, 3usize), (7usize, 8usize, 6usize, 1usize), (7usize, 8usize, 9usize, 1usize), (7usize, 9usize, 6usize, 2usize), (7usize, 9usize, 8usize, 2usize), (7usize, 9usize, 10usize, 1usize), (8usize, 6usize, 7usize, 1usize), (8usize, 6usize, 9usize, 48usize), (8usize, 7usize, 6usize, 4usize), (8usize, 7usize, 9usize, 3usize), (8usize, 9usize, 6usize, 293usize), (8usize, 9usize, 7usize, 51usize), (8usize, 9usize, 10usize, 28usize), (8usize, 10usize, 9usize, 1usize), (9usize, 6usize, 7usize, 749usize), (9usize, 6usize, 8usize, 2450usize), (9usize, 6usize, 10usize, 329usize), (9usize, 7usize, 6usize, 195usize), (9usize, 7usize, 8usize, 173usize), (9usize, 7usize, 10usize, 49usize), (9usize, 8usize, 6usize, 3270usize), (9usize, 8usize, 7usize, 745usize), (9usize, 8usize, 10usize, 756usize), (9usize, 10usize, 6usize, 117usize), (9usize, 10usize, 7usize, 60usize), (9usize, 10usize, 8usize, 145usize), (10usize, 9usize, 6usize, 1usize), (10usize, 9usize, 7usize, 1usize),
        ];
        let mut division_place_detail_flatten: Vec<Vec<usize>> = Vec::new();
        let mut f: usize = 0;
        while f < flat_data.len()
            invariant
                f <= flat_data@.len(),
                division_place_detail_flatten@.len() == f,
                forall|k: int|
                    0 <= k < division_place_detail_flatten@.len() ==> (
                    #[trigger] division_place_detail_flatten@[k])@.len() == 4,
            decreases flat_data@.len() - f,
        {
            let (a, b, c, d) = flat_data[f];
            division_place_detail_flatten.push(vec![a, b, c, d]);
            f = f + 1;
        }
        let division_places: Vec<Vec<usize>> = vec![
            vec![0, 5, 2, 3, 4, 1],
            vec![9, 8, 6, 7, 10, 11],
        ];
        let playoff_places: Vec<usize> = vec![9, 0, 5, 2, 6, 8, 10, 3, 7, 4, 1, 11];
        let base = SflSimulationResult::new();
        proof {
            assert(division_places@[0]@ =~= seq![0usize, 5usize, 2usize, 3usize, 4usize, 1usize]);
            assert(division_places@[1]@ =~= seq![
                9usize,
                8usize,
                6usize,
                7usize,
                10usize,
                11usize,
            ]);
            assert(playoff_places@ =~= seq![
                9usize,
                0usize,
                5usize,
                2usize,
                6usize,
                8usize,
                10usize,
                3usize,
                7usize,
                4usize,
                1usize,
                11usize,
            ]);
            assert(division_points_battles@[0]@ =~= seq![2464300i32, 130664i32]);
            assert(playoff_place_count@[9]@ =~= seq![3368u32, 3265u32, 3067u32, 287u32]);
            assert forall|i: int| 0 <= i < 12 implies (
            #[trigger] division_points_battles@[i])@.len() == 2 by {}
            assert forall|i: int| 0 <= i < 12 implies (
            #[trigger] playoff_place_count@[i])@.len() == 4 by {}
        }
        SflSimulationResult {
            division_place_count,
            division_points_battles,
            playoff_place_count,
            match_points,
            division_places,
            playoff_places,
            division_place_detail: base.division_place_detail,
            division_place_detail_flatten,
        }
    }
}

} // verus!
