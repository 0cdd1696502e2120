//! The fixed set of teams and the classification of individual games.

use vstd::prelude::*;

verus! {

/// One of the twelve teams of the league, six per division.
#[derive(Clone, Copy, Debug, PartialEq, Eq, Structural)]
pub enum SflTeam {
    G8S,
    DFM,
    SOL,
    IBS,
    OJA,
    SNB,
    CR,
    CAG,
    IXA,
    RC,
    VAR,
    FAV,
}

impl SflTeam {
    /// The stable dense index used for array-based aggregation.
    pub open spec fn index_spec(self) -> int {
        match self {
            SflTeam::G8S => 0,
            SflTeam::DFM => 1,
            SflTeam::SOL => 2,
            SflTeam::IBS => 3,
            SflTeam::OJA => 4,
            SflTeam::SNB => 5,
            SflTeam::CR => 6,
            SflTeam::CAG => 7,
            SflTeam::IXA => 8,
            SflTeam::RC => 9,
            SflTeam::VAR => 10,
            SflTeam::FAV => 11,
        }
    }

    pub fn get_index(&self) -> (i: usize)
        ensures
            i == self.index_spec(),
            i < 12,
    {
        match self {
            SflTeam::G8S => 0,
            SflTeam::DFM => 1,
            SflTeam::SOL => 2,
            SflTeam::IBS => 3,
            SflTeam::OJA => 4,
            SflTeam::SNB => 5,
            SflTeam::CR => 6,
            SflTeam::CAG => 7,
            SflTeam::IXA => 8,
            SflTeam::RC => 9,
            SflTeam::VAR => 10,
            SflTeam::FAV => 11,
        }
    }

    /// The team's display name.
    pub fn name(&self) -> (s: String)
        ensures
            s@ == self.name_spec(),
    {
        match self {
            SflTeam::G8S => "G8S".to_string(),
            SflTeam::DFM => "DFM".to_string(),
            SflTeam::SOL => "SOL".to_string(),
            SflTeam::IBS => "IBS".to_string(),
            SflTeam::OJA => "OJA".to_string(),
            SflTeam::SNB => "SNB".to_string(),
            SflTeam::CR => "CR".to_string(),
            SflTeam::CAG => "CAG".to_string(),
            SflTeam::IXA => "IXA".to_string(),
            SflTeam::RC => "RC".to_string(),
            SflTeam::VAR => "VAR".to_string(),
            SflTeam::FAV => "FAV".to_string(),
        }
    }

    pub open spec fn name_spec(self) -> Seq<char> {
        match self {
            SflTeam::G8S => "G8S"@,
            SflTeam::DFM => "DFM"@,
            SflTeam::SOL => "SOL"@,
            SflTeam::IBS => "IBS"@,
            SflTeam::OJA => "OJA"@,
            SflTeam::SNB => "SNB"@,
            SflTeam::CR => "CR"@,
            SflTeam::CAG => "CAG"@,
            SflTeam::IXA => "IXA"@,
            SflTeam::RC => "RC"@,
            SflTeam::VAR => "VAR"@,
            SflTeam::FAV => "FAV"@,
        }
    }
}

/// The role of an individual game within a fixture.  VAN and MID are the
/// opening and mid best-of-three series; GENERAL is the series-deciding
/// anchor best-of-five; EXTRA is the regular-season tiebreak game;
/// PlayoffExtra is the tiebreak block of the playoff meta-series.
#[derive(Clone, Copy, Debug, PartialEq, Eq, Structural)]
pub enum GameType {
    VAN,
    MID,
    GENERAL,
    EXTRA,
    PlayoffExtra,
}

impl GameType {
    /// The match points awarded to the game that decides its series.
    pub open spec fn point_spec(self) -> int {
        match self {
            GameType::VAN => 10,
            GameType::MID => 10,
            GameType::GENERAL => 20,
            GameType::EXTRA => 5,
            GameType::PlayoffExtra => 10,
        }
    }

    pub fn get_point(&self) -> (p: u32)
        ensures
            p == self.point_spec(),
    {
        match self {
            GameType::VAN => 10,
            GameType::MID => 10,
            GameType::GENERAL => 20,
            GameType::EXTRA => 5,
            GameType::PlayoffExtra => 10,
        }
    }

    /// Whether the game has a decisive role (anchor or tiebreak); this flag
    /// discriminates the rating context.
    pub open spec fn is_leader_spec(self) -> bool {
        match self {
            GameType::VAN => false,
            GameType::MID => false,
            GameType::GENERAL => true,
            GameType::EXTRA => true,
            GameType::PlayoffExtra => true,
        }
    }

    pub fn is_leader(&self) -> (b: bool)
        ensures
            b == self.is_leader_spec(),
    {
        match self {
            GameType::VAN | GameType::MID => false,
            GameType::GENERAL | GameType::EXTRA | GameType::PlayoffExtra => true,
        }
    }
}

/// How rating contexts are keyed: by team alone, by home/away, by the
/// decisive-role flag, or by both.
#[derive(Clone, Copy, Debug, PartialEq, Eq, Structural)]
pub enum SflRatingSetting {
    TeamOnly,
    HomeAway,
    GameType,
    HomeAwayGameType,
}

} // verus!
