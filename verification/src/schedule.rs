//! Stages, fixtures and per-game records, and the fixed season schedule.

use vstd::prelude::*;
use crate::team::{GameType, SflTeam};

verus! {

/// A stage of the season: one of the two regular divisions, the combined
/// regular season, the playoff stepladder, or the grand final.
#[derive(Clone, Copy, Debug, PartialEq, Eq, Structural)]
pub enum SflStage {
    JP2024DivisionS,
    JP2024DivisionF,
    JP2024AllDivision,
    JP2024Playoff,
    JP2024GrandFinal,
}

/// One scheduled fixture between two teams.
pub struct SflMatch {
    /// Week of the season this fixture belongs to.
    pub section: u32,
    /// Order within the week.
    pub branch: u32,
    /// Display label for the date; carried data, never read by the logic.
    pub date_expression: String,
    pub sfl_stage: SflStage,
    pub team: SflTeam,
    pub opponent_team: SflTeam,
    pub is_home: bool,
}

/// Equality of fixtures up to the view of the date label.
pub open spec fn match_eq(a: SflMatch, b: SflMatch) -> bool {
    &&& a.section == b.section
    &&& a.branch == b.branch
    &&& a.date_expression@ == b.date_expression@
    &&& a.sfl_stage == b.sfl_stage
    &&& a.team == b.team
    &&& a.opponent_team == b.opponent_team
    &&& a.is_home == b.is_home
}

impl Clone for SflMatch {
    fn clone(&self) -> (r: Self)
        ensures
            match_eq(r, *self),
    {
        SflMatch {
            section: self.section,
            branch: self.branch,
            date_expression: self.date_expression.clone(),
            sfl_stage: self.sfl_stage,
            team: self.team,
            opponent_team: self.opponent_team,
            is_home: self.is_home,
        }
    }
}

/// One individual game within a fixture.  `win_flag` is true when the
/// `team` side of the fixture won the game.  `is_valid` says the game is
/// required under the best-of rule; `is_prediction` says no real or
/// simulated outcome has been written yet.
pub struct SflRecord {
    pub sfl_match: SflMatch,
    pub set_number: u32,
    pub win_flag: bool,
    pub point: u32,
    pub game_type: GameType,
    pub is_valid: bool,
    pub is_prediction: bool,
}

/// Equality of records up to the view of the fixture's date label.
pub open spec fn record_eq(a: SflRecord, b: SflRecord) -> bool {
    &&& match_eq(a.sfl_match, b.sfl_match)
    &&& a.set_number == b.set_number
    &&& a.win_flag == b.win_flag
    &&& a.point == b.point
    &&& a.game_type == b.game_type
    &&& a.is_valid == b.is_valid
    &&& a.is_prediction == b.is_prediction
}

impl Clone for SflRecord {
    fn clone(&self) -> (r: Self)
        ensures
            record_eq(r, *self),
    {
        SflRecord {
            sfl_match: self.sfl_match.clone(),
            set_number: self.set_number,
            win_flag: self.win_flag,
            point: self.point,
            game_type: self.game_type,
            is_valid: self.is_valid,
            is_prediction: self.is_prediction,
        }
    }
}

/// How many games a fixture of the given stage owns.
pub open spec fn games_len_spec(stage: SflStage) -> int {
    match stage {
        SflStage::JP2024DivisionS => 12,
        SflStage::JP2024DivisionF => 12,
        SflStage::JP2024AllDivision => 12,
        SflStage::JP2024Playoff => 36,
        SflStage::JP2024GrandFinal => 47,
    }
}

/// The game type at position `i` of a fixture's record sequence.  A regular
/// fixture is three opening, three mid, five anchor and one tiebreak game;
/// the playoff and grand-final meta-series repeat that eleven-game block
/// (three and four times) and close with a three-game tiebreak block.
pub open spec fn game_type_at(stage: SflStage, i: int) -> GameType {
    match stage {
        SflStage::JP2024Playoff => if i < 33 {
            block_game_type(i % 11)
        } else {
            GameType::PlayoffExtra
        },
        SflStage::JP2024GrandFinal => if i < 44 {
            block_game_type(i % 11)
        } else {
            GameType::PlayoffExtra
        },
        _ => if i < 11 {
            block_game_type(i)
        } else {
            GameType::EXTRA
        },
    }
}

/// The game type within one eleven-game regular block.
pub open spec fn block_game_type(j: int) -> GameType {
    if j < 3 {
        GameType::VAN
    } else if j < 6 {
        GameType::MID
    } else {
        GameType::GENERAL
    }
}

/// The set number (position within its own series, starting at 1) at
/// position `i` of a fixture's record sequence.
pub open spec fn set_number_at(stage: SflStage, i: int) -> int {
    match stage {
        SflStage::JP2024Playoff => if i < 33 {
            block_set_number(i % 11)
        } else {
            i - 32
        },
        SflStage::JP2024GrandFinal => if i < 44 {
            block_set_number(i % 11)
        } else {
            i - 43
        },
        _ => if i < 11 {
            block_set_number(i)
        } else {
            1
        },
    }
}

/// The set number within one eleven-game regular block.
pub open spec fn block_set_number(j: int) -> int {
    if j < 3 {
        j + 1
    } else if j < 6 {
        j - 2
    } else {
        j - 5
    }
}

impl GameType {
    /// The (set number, game type) layout of one fixture of the stage.
    pub fn get_games_by_stage(sfl_stage: &SflStage) -> (games: Vec<(u32, GameType)>)
        ensures
            games@.len() == games_len_spec(*sfl_stage),
            forall|i: int|
                0 <= i < games@.len() ==> games@[i].0 == set_number_at(*sfl_stage, i)
                    && games@[i].1 == game_type_at(*sfl_stage, i),
    {
        let len: usize = match sfl_stage {
            SflStage::JP2024Playoff => 36,
            SflStage::JP2024GrandFinal => 47,
            _ => 12,
        };
        let block_end: usize = match sfl_stage {
            SflStage::JP2024Playoff => 33,
            SflStage::JP2024GrandFinal => 44,
            _ => 11,
        };
        let mut games: Vec<(u32, GameType)> = Vec::new();
        let mut i: usize = 0;
        while i < len
            invariant
                i <= len,
                games@.len() == i,
                len == games_len_spec(*sfl_stage),
                block_end == if *sfl_stage == SflStage::JP2024Playoff {
                    33int
                } else if *sfl_stage == SflStage::JP2024GrandFinal {
                    44int
                } else {
                    11int
                },
                forall|k: int|
                    0 <= k < i ==> games@[k].0 == set_number_at(*sfl_stage, k)
                        && games@[k].1 == game_type_at(*sfl_stage, k),
            decreases len - i,
        {
            if i < block_end {
                let j: usize = i % 11;
                let set_number: u32 = if j < 3 {
                    (j + 1) as u32
                } else if j < 6 {
                    (j - 2) as u32
                } else {
                    (j - 5) as u32
                };
                let game_type: GameType = if j < 3 {
                    GameType::VAN
                } else if j < 6 {
                    GameType::MID
                } else {
                    GameType::GENERAL
                };
                games.push((set_number, game_type));
            } else {
                let tiebreak_type: GameType = match sfl_stage {
                    SflStage::JP2024Playoff => GameType::PlayoffExtra,
                    SflStage::JP2024GrandFinal => GameType::PlayoffExtra,
                    _ => GameType::EXTRA,
                };
                games.push((((i - block_end) + 1) as u32, tiebreak_type));
            }
            i = i + 1;
        }
        games
    }
}

/// The fresh (all-prediction, no points, nothing valid) record sequence of
/// one fixture, in the stage's layout.
pub open spec fn records_of_match(rs: Seq<SflRecord>, m: SflMatch) -> bool {
    &&& rs.len() == games_len_spec(m.sfl_stage)
    &&& forall|j: int|
        0 <= j < rs.len() ==> {
            &&& match_eq(#[trigger] rs[j].sfl_match, m)
            &&& rs[j].set_number == set_number_at(m.sfl_stage, j)
            &&& rs[j].game_type == game_type_at(m.sfl_stage, j)
            &&& !rs[j].win_flag
            &&& rs[j].point == 0
            &&& !rs[j].is_valid
            &&& rs[j].is_prediction
        }
}

/// The teams of a stage, in their fixed listing order.
pub open spec fn teams_spec(stage: SflStage) -> Seq<SflTeam> {
    match stage {
        SflStage::JP2024DivisionS => seq![
            SflTeam::G8S,
            SflTeam::DFM,
            SflTeam::SOL,
            SflTeam::IBS,
            SflTeam::OJA,
            SflTeam::SNB,
        ],
        SflStage::JP2024DivisionF => seq![
            SflTeam::CR,
            SflTeam::CAG,
            SflTeam::IXA,
            SflTeam::RC,
            SflTeam::VAR,
            SflTeam::FAV,
        ],
        SflStage::JP2024AllDivision => seq![
            SflTeam::G8S,
            SflTeam::DFM,
            SflTeam::SOL,
            SflTeam::IBS,
            SflTeam::OJA,
            SflTeam::SNB,
            SflTeam::CR,
            SflTeam::CAG,
            SflTeam::IXA,
            SflTeam::RC,
            SflTeam::VAR,
            SflTeam::FAV,
        ],
        _ => Seq::empty(),
    }
}

/// The team pairings of the division S schedule: entry k is fixture k
/// (week k / 3 + 1, slot k % 3 + 1).
pub open spec fn s_pairs() -> Seq<(SflTeam, SflTeam)> {
    seq![
        (SflTeam::DFM, SflTeam::OJA),
        (SflTeam::G8S, SflTeam::SNB),
        (SflTeam::SOL, SflTeam::IBS),
        (SflTeam::SNB, SflTeam::DFM),
        (SflTeam::IBS, SflTeam::OJA),
        (SflTeam::SOL, SflTeam::G8S),
        (SflTeam::OJA, SflTeam::SOL),
        (SflTeam::G8S, SflTeam::DFM),
        (SflTeam::SNB, SflTeam::IBS),
        (SflTeam::G8S, SflTeam::OJA),
        (SflTeam::SNB, SflTeam::SOL),
        (SflTeam::IBS, SflTeam::DFM),
        (SflTeam::IBS, SflTeam::G8S),
        (SflTeam::DFM, SflTeam::SOL),
        (SflTeam::OJA, SflTeam::SNB),
        (SflTeam::IBS, SflTeam::SOL),
        (SflTeam::SNB, SflTeam::G8S),
        (SflTeam::OJA, SflTeam::DFM),
        (SflTeam::G8S, SflTeam::SOL),
        (SflTeam::DFM, SflTeam::SNB),
        (SflTeam::OJA, SflTeam::IBS),
        (SflTeam::IBS, SflTeam::SNB),
        (SflTeam::SOL, SflTeam::OJA),
        (SflTeam::DFM, SflTeam::G8S),
        (SflTeam::OJA, SflTeam::G8S),
        (SflTeam::DFM, SflTeam::IBS),
        (SflTeam::SOL, SflTeam::SNB),
        (SflTeam::SNB, SflTeam::OJA),
        (SflTeam::SOL, SflTeam::DFM),
        (SflTeam::G8S, SflTeam::IBS),
    ]
}

/// The team pairings of the division F schedule, laid out as `s_pairs`.
pub open spec fn f_pairs() -> Seq<(SflTeam, SflTeam)> {
    seq![
        (SflTeam::RC, SflTeam::IXA),
        (SflTeam::CAG, SflTeam::VAR),
        (SflTeam::CR, SflTeam::FAV),
        (SflTeam::VAR, SflTeam::RC),
        (SflTeam::FAV, SflTeam::IXA),
        (SflTeam::CR, SflTeam::CAG),
        (SflTeam::IXA, SflTeam::CR),
        (SflTeam::CAG, SflTeam::RC),
        (SflTeam::VAR, SflTeam::FAV),
        (SflTeam::CAG, SflTeam::IXA),
        (SflTeam::VAR, SflTeam::CR),
        (SflTeam::FAV, SflTeam::RC),
        (SflTeam::FAV, SflTeam::CAG),
        (SflTeam::RC, SflTeam::CR),
        (SflTeam::IXA, SflTeam::VAR),
        (SflTeam::FAV, SflTeam::CR),
        (SflTeam::VAR, SflTeam::CAG),
        (SflTeam::IXA, SflTeam::RC),
        (SflTeam::CAG, SflTeam::CR),
        (SflTeam::RC, SflTeam::VAR),
        (SflTeam::IXA, SflTeam::FAV),
        (SflTeam::FAV, SflTeam::VAR),
        (SflTeam::CR, SflTeam::IXA),
        (SflTeam::RC, SflTeam::CAG),
        (SflTeam::IXA, SflTeam::CAG),
        (SflTeam::RC, SflTeam::FAV),
        (SflTeam::CR, SflTeam::VAR),
        (SflTeam::VAR, SflTeam::IXA),
        (SflTeam::CR, SflTeam::RC),
        (SflTeam::CAG, SflTeam::FAV),
    ]
}

/// The date labels of the ten division S weeks.
pub open spec fn s_dates() -> Seq<Seq<char>> {
    seq![
        "08/16"@,
        "08/27"@,
        "09/03"@,
        "09/10"@,
        "09/20"@,
        "10/04"@,
        "10/22"@,
        "10/29"@,
        "11/05"@,
        "11/19"@,
    ]
}

/// The date labels of the ten division F weeks.
pub open spec fn f_dates() -> Seq<Seq<char>> {
    seq![
        "08/20"@,
        "08/30"@,
        "09/06"@,
        "09/18"@,
        "10/01"@,
        "10/08"@,
        "10/25"@,
        "11/01"@,
        "11/15"@,
        "11/22"@,
    ]
}

/// The date label of fixture `i` of a stage's schedule.
pub open spec fn date_at(stage: SflStage, i: int) -> Seq<char> {
    match stage {
        SflStage::JP2024DivisionS => s_dates()[i / 3],
        SflStage::JP2024DivisionF => f_dates()[i / 3],
        SflStage::JP2024AllDivision => if i % 6 < 3 {
            s_dates()[i / 6]
        } else {
            f_dates()[i / 6]
        },
        _ => Seq::empty(),
    }
}

/// The pairing of fixture `i` of a stage's schedule: division S and F read
/// their own tables; the combined schedule interleaves the two, three
/// fixtures of each division per week.
pub open spec fn pair_at(stage: SflStage, i: int) -> (SflTeam, SflTeam) {
    match stage {
        SflStage::JP2024DivisionS => s_pairs()[i],
        SflStage::JP2024DivisionF => f_pairs()[i],
        SflStage::JP2024AllDivision => if i % 6 < 3 {
            s_pairs()[(i / 6) * 3 + i % 6]
        } else {
            f_pairs()[(i / 6) * 3 + i % 6 - 3]
        },
        _ => (SflTeam::G8S, SflTeam::G8S),
    }
}

/// How many fixtures a stage's schedule holds.
pub open spec fn schedule_len_spec(stage: SflStage) -> int {
    match stage {
        SflStage::JP2024DivisionS => 30,
        SflStage::JP2024DivisionF => 30,
        SflStage::JP2024AllDivision => 60,
        _ => 0,
    }
}

/// The week number of fixture `i` of a stage's schedule.
pub open spec fn section_at(stage: SflStage, i: int) -> int {
    if stage == SflStage::JP2024AllDivision {
        i / 6 + 1
    } else {
        i / 3 + 1
    }
}

/// The slot within its week of fixture `i` of a stage's schedule.
pub open spec fn branch_at(stage: SflStage, i: int) -> int {
    if stage == SflStage::JP2024AllDivision {
        i % 6 % 3 + 1
    } else {
        i % 3 + 1
    }
}

/// The full shape of a stage's schedule as `get_matches` returns it.
pub open spec fn schedule_spec(ms: Seq<SflMatch>, stage: SflStage) -> bool {
    &&& ms.len() == schedule_len_spec(stage)
    &&& forall|i: int|
        0 <= i < ms.len() ==> {
            &&& (#[trigger] ms[i]).sfl_stage == stage
            &&& !ms[i].is_home
            &&& ms[i].section == section_at(stage, i)
            &&& ms[i].branch == branch_at(stage, i)
            &&& ms[i].team == pair_at(stage, i).0
            &&& ms[i].opponent_team == pair_at(stage, i).1
            &&& ms[i].date_expression@ == date_at(stage, i)
        }
}

/// The fresh record sequence of fixture `i` of a stage's schedule: the
/// scheduled pairing, in the stage's game layout, all games still
/// predictions with no points and nothing valid.
pub open spec fn fresh_fixture_records(rs: Seq<SflRecord>, stage: SflStage, i: int) -> bool {
    &&& rs.len() == games_len_spec(stage)
    &&& forall|j: int|
        0 <= j < rs.len() ==> {
            &&& (#[trigger] rs[j]).sfl_match.sfl_stage == stage
            &&& !rs[j].sfl_match.is_home
            &&& rs[j].sfl_match.section == section_at(stage, i)
            &&& rs[j].sfl_match.branch == branch_at(stage, i)
            &&& rs[j].sfl_match.team == pair_at(stage, i).0
            &&& rs[j].sfl_match.opponent_team == pair_at(stage, i).1
            &&& rs[j].sfl_match.date_expression@ == date_at(stage, i)
            &&& rs[j].set_number == set_number_at(stage, j)
            &&& rs[j].game_type == game_type_at(stage, j)
            &&& !rs[j].win_flag
            &&& rs[j].point == 0
            &&& !rs[j].is_valid
            &&& rs[j].is_prediction
        }
}

/// The division S pairing table as a vector.
fn s_pair_table() -> (ps: Vec<(SflTeam, SflTeam)>)
    ensures
        ps@ == s_pairs(),
{
    let ps: Vec<(SflTeam, SflTeam)> = vec![
        (SflTeam::DFM, SflTeam::OJA),
        (SflTeam::G8S, SflTeam::SNB),
        (SflTeam::SOL, SflTeam::IBS),
        (SflTeam::SNB, SflTeam::DFM),
        (SflTeam::IBS, SflTeam::OJA),
        (SflTeam::SOL, SflTeam::G8S),
        (SflTeam::OJA, SflTeam::SOL),
        (SflTeam::G8S, SflTeam::DFM),
        (SflTeam::SNB, SflTeam::IBS),
        (SflTeam::G8S, SflTeam::OJA),
        (SflTeam::SNB, SflTeam::SOL),
        (SflTeam::IBS, SflTeam::DFM),
        (SflTeam::IBS, SflTeam::G8S),
        (SflTeam::DFM, SflTeam::SOL),
        (SflTeam::OJA, SflTeam::SNB),
        (SflTeam::IBS, SflTeam::SOL),
        (SflTeam::SNB, SflTeam::G8S),
        (SflTeam::OJA, SflTeam::DFM),
        (SflTeam::G8S, SflTeam::SOL),
        (SflTeam::DFM, SflTeam::SNB),
        (SflTeam::OJA, SflTeam::IBS),
        (SflTeam::IBS, SflTeam::SNB),
        (SflTeam::SOL, SflTeam::OJA),
        (SflTeam::DFM, SflTeam::G8S),
        (SflTeam::OJA, SflTeam::G8S),
        (SflTeam::DFM, SflTeam::IBS),
        (SflTeam::SOL, SflTeam::SNB),
        (SflTeam::SNB, SflTeam::OJA),
        (SflTeam::SOL, SflTeam::DFM),
        (SflTeam::G8S, SflTeam::IBS),
    ];
    proof {
        assert(ps@ =~= s_pairs());
    }
    ps
}

/// The division F pairing table as a vector.
fn f_pair_table() -> (ps: Vec<(SflTeam, SflTeam)>)
    ensures
        ps@ == f_pairs(),
{
    let ps: Vec<(SflTeam, SflTeam)> = vec![
        (SflTeam::RC, SflTeam::IXA),
        (SflTeam::CAG, SflTeam::VAR),
        (SflTeam::CR, SflTeam::FAV),
        (SflTeam::VAR, SflTeam::RC),
        (SflTeam::FAV, SflTeam::IXA),
        (SflTeam::CR, SflTeam::CAG),
        (SflTeam::IXA, SflTeam::CR),
        (SflTeam::CAG, SflTeam::RC),
        (SflTeam::VAR, SflTeam::FAV),
        (SflTeam::CAG, SflTeam::IXA),
        (SflTeam::VAR, SflTeam::CR),
        (SflTeam::FAV, SflTeam::RC),
        (SflTeam::FAV, SflTeam::CAG),
        (SflTeam::RC, SflTeam::CR),
        (SflTeam::IXA, SflTeam::VAR),
        (SflTeam::FAV, SflTeam::CR),
        (SflTeam::VAR, SflTeam::CAG),
        (SflTeam::IXA, SflTeam::RC),
        (SflTeam::CAG, SflTeam::CR),
        (SflTeam::RC, SflTeam::VAR),
        (SflTeam::IXA, SflTeam::FAV),
        (SflTeam::FAV, SflTeam::VAR),
        (SflTeam::CR, SflTeam::IXA),
        (SflTeam::RC, SflTeam::CAG),
        (SflTeam::IXA, SflTeam::CAG),
        (SflTeam::RC, SflTeam::FAV),
        (SflTeam::CR, SflTeam::VAR),
        (SflTeam::VAR, SflTeam::IXA),
        (SflTeam::CR, SflTeam::RC),
        (SflTeam::CAG, SflTeam::FAV),
    ];
    proof {
        assert(ps@ =~= f_pairs());
    }
    ps
}

impl SflStage {
    /// The teams of this stage, in their fixed listing order.
    pub fn get_teams(&self) -> (teams: Vec<SflTeam>)
        ensures
            teams@ == teams_spec(*self),
    {
        let mut teams: Vec<SflTeam> = Vec::new();
        match self {
            SflStage::JP2024DivisionS => {
                teams.push(SflTeam::G8S);
                teams.push(SflTeam::DFM);
                teams.push(SflTeam::SOL);
                teams.push(SflTeam::IBS);
                teams.push(SflTeam::OJA);
                teams.push(SflTeam::SNB);
            },
            SflStage::JP2024DivisionF => {
                teams.push(SflTeam::CR);
                teams.push(SflTeam::CAG);
                teams.push(SflTeam::IXA);
                teams.push(SflTeam::RC);
                teams.push(SflTeam::VAR);
                teams.push(SflTeam::FAV);
            },
            SflStage::JP2024AllDivision => {
                teams.push(SflTeam::G8S);
                teams.push(SflTeam::DFM);
                teams.push(SflTeam::SOL);
                teams.push(SflTeam::IBS);
                teams.push(SflTeam::OJA);
                teams.push(SflTeam::SNB);
                teams.push(SflTeam::CR);
                teams.push(SflTeam::CAG);
                teams.push(SflTeam::IXA);
                teams.push(SflTeam::RC);
                teams.push(SflTeam::VAR);
                teams.push(SflTeam::FAV);
            },
            _ => {},
        }
        proof {
            assert(teams@ =~= teams_spec(*self));
        }
        teams
    }

    /// The largest dense team index among this stage's teams.
    pub fn get_max_team_index(&self) -> (i: usize)
        requires
            teams_spec(*self).len() > 0,
        ensures
            forall|k: int|
                0 <= k < teams_spec(*self).len() ==> teams_spec(*self)[k].index_spec() <= i,
            exists|k: int|
                0 <= k < teams_spec(*self).len() && teams_spec(*self)[k].index_spec() == i,
    {
        let teams = self.get_teams();
        let mut max: usize = teams[0].get_index();
        let mut k: usize = 1;
        while k < teams.len()
            invariant
                1 <= k <= teams@.len(),
                teams@ == teams_spec(*self),
                teams@.len() > 0,
                forall|j: int| 0 <= j < k ==> teams_spec(*self)[j].index_spec() <= max,
                exists|j: int| 0 <= j < k && teams_spec(*self)[j].index_spec() == max,
            decreases teams@.len() - k,
        {
            let idx = teams[k].get_index();
            if idx > max {
                max = idx;
            }
            k = k + 1;
        }
        max
    }

    /// The fixed season schedule of this stage: 30 fixtures per division,
    /// interleaved three-and-three per week for the combined stage, and no
    /// schedule for the playoff and grand-final stages (their fixtures are
    /// synthesized once standings are known).
    pub fn get_matches(&self) -> (ms: Vec<SflMatch>)
        ensures
            schedule_spec(ms@, *self),
    {
        let pairs_s = s_pair_table();
        let pairs_f = f_pair_table();
        let dates_s: Vec<&str> = vec![
            "08/16",
            "08/27",
            "09/03",
            "09/10",
            "09/20",
            "10/04",
            "10/22",
            "10/29",
            "11/05",
            "11/19",
        ];
        let dates_f: Vec<&str> = vec![
            "08/20",
            "08/30",
            "09/06",
            "09/18",
            "10/01",
            "10/08",
            "10/25",
            "11/01",
            "11/15",
            "11/22",
        ];
        proof {
            assert(forall|w: int| 0 <= w < 10 ==> (#[trigger] dates_s@[w])@ == s_dates()[w]) by {
                assert(dates_s@[0]@ == s_dates()[0]);
                assert(dates_s@[1]@ == s_dates()[1]);
                assert(dates_s@[2]@ == s_dates()[2]);
                assert(dates_s@[3]@ == s_dates()[3]);
                assert(dates_s@[4]@ == s_dates()[4]);
                assert(dates_s@[5]@ == s_dates()[5]);
                assert(dates_s@[6]@ == s_dates()[6]);
                assert(dates_s@[7]@ == s_dates()[7]);
                assert(dates_s@[8]@ == s_dates()[8]);
                assert(dates_s@[9]@ == s_dates()[9]);
            }
            assert(forall|w: int| 0 <= w < 10 ==> (#[trigger] dates_f@[w])@ == f_dates()[w]) by {
                assert(dates_f@[0]@ == f_dates()[0]);
                assert(dates_f@[1]@ == f_dates()[1]);
                assert(dates_f@[2]@ == f_dates()[2]);
                assert(dates_f@[3]@ == f_dates()[3]);
                assert(dates_f@[4]@ == f_dates()[4]);
                assert(dates_f@[5]@ == f_dates()[5]);
                assert(dates_f@[6]@ == f_dates()[6]);
                assert(dates_f@[7]@ == f_dates()[7]);
                assert(dates_f@[8]@ == f_dates()[8]);
                assert(dates_f@[9]@ == f_dates()[9]);
            }
        }
        let len: usize = match self {
            SflStage::JP2024DivisionS => 30,
            SflStage::JP2024DivisionF => 30,
            SflStage::JP2024AllDivision => 60,
            _ => 0,
        };
        let mut ms: Vec<SflMatch> = Vec::new();
        let mut i: usize = 0;
        while i < len
            invariant
                i <= len,
                ms@.len() == i,
                len == schedule_len_spec(*self),
                pairs_s@ == s_pairs(),
                pairs_f@ == f_pairs(),
                dates_s@.len() == 10,
                dates_f@.len() == 10,
                forall|w: int| 0 <= w < 10 ==> (#[trigger] dates_s@[w])@ == s_dates()[w],
                forall|w: int| 0 <= w < 10 ==> (#[trigger] dates_f@[w])@ == f_dates()[w],
                forall|k: int|
                    0 <= k < i ==> {
                        &&& (#[trigger] ms@[k]).sfl_stage == *self
                        &&& !ms@[k].is_home
                        &&& ms@[k].section == section_at(*self, k)
                        &&& ms@[k].branch == branch_at(*self, k)
                        &&& ms@[k].team == pair_at(*self, k).0
                        &&& ms@[k].opponent_team == pair_at(*self, k).1
                        &&& ms@[k].date_expression@ == date_at(*self, k)
                    },
            decreases len - i,
        {
            let (section, branch, pair, date): (usize, usize, (SflTeam, SflTeam), &str) =
                match self {
                SflStage::JP2024AllDivision => {
                    let w = i / 6;
                    let r = i % 6;
                    if r < 3 {
                        (w + 1, r + 1, pairs_s[w * 3 + r], dates_s[w])
                    } else {
                        (w + 1, r - 2, pairs_f[w * 3 + r - 3], dates_f[w])
                    }
                },
                SflStage::JP2024DivisionS => (i / 3 + 1, i % 3 + 1, pairs_s[i], dates_s[i / 3]),
                _ => (i / 3 + 1, i % 3 + 1, pairs_f[i], dates_f[i / 3]),
            };
            ms.push(
                SflMatch {
                    section: section as u32,
                    branch: branch as u32,
                    date_expression: date.to_string(),
                    sfl_stage: *self,
                    team: pair.0,
                    opponent_team: pair.1,
                    is_home: false,
                },
            );
            i = i + 1;
        }
        ms
    }

    /// The fresh record sequences of every fixture of this stage's schedule.
    pub fn get_initial_records(&self) -> (rss: Vec<Vec<SflRecord>>)
        ensures
            rss@.len() == schedule_len_spec(*self),
            forall|i: int|
                0 <= i < rss@.len() ==> fresh_fixture_records(#[trigger] rss@[i]@, *self, i),
    {
        let ms = self.get_matches();
        let mut rss: Vec<Vec<SflRecord>> = Vec::new();
        let mut i: usize = 0;
        while i < ms.len()
            invariant
                i <= ms@.len(),
                rss@.len() == i,
                schedule_spec(ms@, *self),
                forall|k: int|
                    0 <= k < i ==> fresh_fixture_records(#[trigger] rss@[k]@, *self, k),
            decreases ms@.len() - i,
        {
            let rs = self.match_to_records(&ms[i]);
            rss.push(rs);
            i = i + 1;
        }
        rss
    }

    /// A synthesized single-elimination playoff fixture between two teams.
    pub fn get_playoff_match(&self, team: &SflTeam, opponent_team: &SflTeam) -> (m: SflMatch)
        ensures
            m.section == 0,
            m.branch == 0,
            m.sfl_stage == SflStage::JP2024Playoff,
            m.team == *team,
            m.opponent_team == *opponent_team,
            !m.is_home,
    {
        SflMatch {
            section: 0,
            branch: 0,
            date_expression: "".to_string(),
            sfl_stage: SflStage::JP2024Playoff,
            team: *team,
            opponent_team: *opponent_team,
            is_home: false,
        }
    }

    /// A synthesized grand-final fixture between two teams.
    pub fn get_grand_final_match(&self, team: &SflTeam, opponent_team: &SflTeam) -> (m: SflMatch)
        ensures
            m.section == 0,
            m.branch == 0,
            m.sfl_stage == SflStage::JP2024GrandFinal,
            m.team == *team,
            m.opponent_team == *opponent_team,
            !m.is_home,
    {
        SflMatch {
            section: 0,
            branch: 0,
            date_expression: "".to_string(),
            sfl_stage: SflStage::JP2024GrandFinal,
            team: *team,
            opponent_team: *opponent_team,
            is_home: false,
        }
    }

    /// The fresh record sequence of a synthesized playoff fixture.
    pub fn get_playoff_records(&self, team: &SflTeam, opponent_team: &SflTeam) -> (rs: Vec<
        SflRecord,
    >)
        ensures
            rs@.len() == 36,
            forall|j: int|
                0 <= j < 36 ==> {
                    &&& (#[trigger] rs@[j]).sfl_match.sfl_stage == SflStage::JP2024Playoff
                    &&& rs@[j].sfl_match.team == *team
                    &&& rs@[j].sfl_match.opponent_team == *opponent_team
                    &&& !rs@[j].sfl_match.is_home
                    &&& rs@[j].set_number == set_number_at(SflStage::JP2024Playoff, j)
                    &&& rs@[j].game_type == game_type_at(SflStage::JP2024Playoff, j)
                    &&& !rs@[j].win_flag
                    &&& rs@[j].point == 0
                    &&& !rs@[j].is_valid
                    &&& rs@[j].is_prediction
                },
    {
        let sfl_match = self.get_playoff_match(team, opponent_team);
        SflStage::JP2024Playoff.match_to_records(&sfl_match)
    }

    /// The fresh record sequence of a synthesized grand-final fixture.
    pub fn get_grand_final_records(&self, team: &SflTeam, opponent_team: &SflTeam) -> (rs: Vec<
        SflRecord,
    >)
        ensures
            rs@.len() == 47,
            forall|j: int|
                0 <= j < 47 ==> {
                    &&& (#[trigger] rs@[j]).sfl_match.sfl_stage == SflStage::JP2024GrandFinal
                    &&& rs@[j].sfl_match.team == *team
                    &&& rs@[j].sfl_match.opponent_team == *opponent_team
                    &&& !rs@[j].sfl_match.is_home
                    &&& rs@[j].set_number == set_number_at(SflStage::JP2024GrandFinal, j)
                    &&& rs@[j].game_type == game_type_at(SflStage::JP2024GrandFinal, j)
                    &&& !rs@[j].win_flag
                    &&& rs@[j].point == 0
                    &&& !rs@[j].is_valid
                    &&& rs@[j].is_prediction
                },
    {
        let sfl_match = self.get_grand_final_match(team, opponent_team);
        SflStage::JP2024GrandFinal.match_to_records(&sfl_match)
    }

    /// The fresh record sequence of one fixture of this stage.
    pub fn match_to_records(&self, sfl_match: &SflMatch) -> (records: Vec<SflRecord>)
        requires
            sfl_match.sfl_stage == *self,
        ensures
            records_of_match(records@, *sfl_match),
    {
        let games = GameType::get_games_by_stage(self);
        let mut records: Vec<SflRecord> = Vec::new();
        let mut i: usize = 0;
        while i < games.len()
            invariant
                i <= games@.len(),
                records@.len() == i,
                games@.len() == games_len_spec(sfl_match.sfl_stage),
                forall|k: int|
                    0 <= k < games@.len() ==> games@[k].0 == set_number_at(sfl_match.sfl_stage, k)
                        && games@[k].1 == game_type_at(sfl_match.sfl_stage, k),
                forall|j: int|
                    0 <= j < i ==> {
                        &&& match_eq(#[trigger] records@[j].sfl_match, *sfl_match)
                        &&& records@[j].set_number == set_number_at(sfl_match.sfl_stage, j)
                        &&& records@[j].game_type == game_type_at(sfl_match.sfl_stage, j)
                        &&& !records@[j].win_flag
                        &&& records@[j].point == 0
                        &&& !records@[j].is_valid
                        &&& records@[j].is_prediction
                    },
            decreases games@.len() - i,
        {
            let (set_number, game_type) = games[i];
            records.push(
                SflRecord {
                    sfl_match: sfl_match.clone(),
                    set_number,
                    win_flag: false,
                    game_type,
                    point: 0,
                    is_valid: false,
                    is_prediction: true,
                },
            );
            i = i + 1;
        }
        records
    }
}

} // verus!
