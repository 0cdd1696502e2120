use sfl_lib::schedule::{SflRecord, SflStage};
use sfl_lib::team::SflTeam;

fn regular_fixture() -> Vec<SflRecord> {
    let matches = SflStage::JP2024DivisionS.get_matches();
    SflStage::JP2024DivisionS.match_to_records(&matches[0])
}

fn set_flags(records: &mut Vec<SflRecord>, flags: [bool; 12]) {
    for (j, record) in records.iter_mut().enumerate() {
        record.win_flag = flags[j];
        record.is_valid = true;
        record.is_prediction = false;
        record.point = 0;
    }
}

fn valid_point_sum(records: &Vec<SflRecord>) -> u32 {
    records.iter().filter(|r| r.is_valid).map(|r| r.point).sum()
}

#[test]
fn team_sweeps_everything() {
    let mut records = regular_fixture();
    set_flags(&mut records, [true; 12]);
    SflStage::JP2024DivisionS.correct_records(&mut records);
    assert_eq!(records[1].point, 10);
    assert!(!records[2].is_valid);
    assert_eq!(records[4].point, 10);
    assert!(!records[5].is_valid);
    assert_eq!(records[8].point, 20);
    assert!(!records[9].is_valid);
    assert!(!records[10].is_valid);
    assert!(!records[11].is_valid);
    assert_eq!(valid_point_sum(&records), 40);
}

#[test]
fn third_games_decide() {
    let mut records = regular_fixture();
    // Both short series split one-one and go to the third game; the anchor
    // goes the full five games.
    let flags = [
        true, false, true, // opening: third game to the team
        false, true, false, // mid: third game to the opponent
        true, false, true, false, true, // anchor: three-two to the team
        false,
    ];
    let mut r = records.clone();
    set_flags(&mut r, flags);
    SflStage::JP2024DivisionS.correct_records(&mut r);
    assert!(r[2].is_valid);
    assert_eq!(r[2].point, 10);
    assert!(r[5].is_valid);
    assert_eq!(r[5].point, 10);
    assert!(r[9].is_valid);
    assert_eq!(r[9].point, 0);
    assert!(r[10].is_valid);
    assert_eq!(r[10].point, 20);
    // team 10 + 20, opponent 10: no tiebreak
    assert!(!r[11].is_valid);
    assert_eq!(valid_point_sum(&r), 40);
    set_flags(&mut records, flags);
    SflStage::JP2024DivisionS.correct_records(&mut records);
}

#[test]
fn tiebreak_triggers_on_split_sweep() {
    // Opening and mid swept by the team (20 points), anchor swept by the
    // opponent (20 points): the tiebreak game activates and is scored.
    let mut records = regular_fixture();
    let flags = [
        true, true, true, true, true, true, // both short series to the team
        false, false, false, false, false, // anchor swept by the opponent
        true,
    ];
    set_flags(&mut records, flags);
    SflStage::JP2024DivisionS.correct_records(&mut records);
    assert!(records[11].is_valid);
    assert_eq!(records[11].point, 5);
    assert_eq!(valid_point_sum(&records), 45);
}

#[test]
fn tiebreak_triggers_mirrored() {
    // The mirrored split: opponent takes both short series, team takes the
    // anchor.  The trigger is about the split, not about which side it is.
    let mut records = regular_fixture();
    let flags = [
        false, false, false, false, false, false, true, true, true, false, false, true,
    ];
    set_flags(&mut records, flags);
    SflStage::JP2024DivisionS.correct_records(&mut records);
    assert!(records[11].is_valid);
    assert_eq!(records[11].point, 5);
    assert_eq!(valid_point_sum(&records), 45);
}

#[test]
fn tiebreak_stays_off_on_other_splits() {
    // Team takes the opening, opponent the mid, team the anchor: 30 to 10,
    // no tiebreak.
    let mut records = regular_fixture();
    let flags = [
        true, true, true, false, false, false, true, true, true, false, false, true,
    ];
    set_flags(&mut records, flags);
    SflStage::JP2024DivisionS.correct_records(&mut records);
    assert!(!records[11].is_valid);
    assert_eq!(valid_point_sum(&records), 40);
}

#[test]
fn point_sum_bounded_over_all_outcomes() {
    // Every fully sampled outcome combination resolves to 40 or 45 valid
    // points.
    for bits in 0u32..4096 {
        let mut records = regular_fixture();
        let mut flags = [false; 12];
        for j in 0..12 {
            flags[j] = (bits >> j) & 1 == 1;
        }
        set_flags(&mut records, flags);
        SflStage::JP2024DivisionS.correct_records(&mut records);
        let sum = valid_point_sum(&records);
        assert!(sum == 40 || sum == 45, "sum {} for bits {}", sum, bits);
    }
}

#[test]
fn scoring_pass_is_idempotent() {
    for bits in [0u32, 0xfff, 0x5a5, 0x2d1, 0x83e] {
        let mut records = regular_fixture();
        let mut flags = [false; 12];
        for j in 0..12 {
            flags[j] = (bits >> j) & 1 == 1;
        }
        set_flags(&mut records, flags);
        SflStage::JP2024DivisionS.correct_records(&mut records);
        let snapshot: Vec<(bool, u32, bool, bool)> = records
            .iter()
            .map(|r| (r.win_flag, r.point, r.is_valid, r.is_prediction))
            .collect();
        SflStage::JP2024DivisionS.correct_records(&mut records);
        let again: Vec<(bool, u32, bool, bool)> = records
            .iter()
            .map(|r| (r.win_flag, r.point, r.is_valid, r.is_prediction))
            .collect();
        assert_eq!(snapshot, again);
    }
}

#[test]
fn playoff_race_stops_at_threshold() {
    // The team takes every game: seventy points after six of ten blocks.
    let mut records =
        SflStage::JP2024Playoff.get_playoff_records(&SflTeam::CR, &SflTeam::CAG);
    for r in records.iter_mut() {
        r.win_flag = true;
        r.is_valid = true;
    }
    let (winner, team_points, opponent_points) =
        SflStage::JP2024Playoff.get_win_team(&records);
    assert_eq!(winner, SflTeam::CR);
    assert_eq!(team_points, 80);
    assert_eq!(opponent_points, 0);
}

#[test]
fn playoff_race_ignores_blocks_after_the_exit() {
    // Once the threshold falls at block six, the games of blocks seven to
    // ten have no bearing: flipping them all changes nothing.
    let mut records =
        SflStage::JP2024Playoff.get_playoff_records(&SflTeam::IXA, &SflTeam::RC);
    for r in records.iter_mut() {
        r.win_flag = true;
        r.is_valid = true;
    }
    let before = SflStage::JP2024Playoff.get_win_team(&records);
    for j in 22..36 {
        records[j].win_flag = false;
    }
    let after = SflStage::JP2024Playoff.get_win_team(&records);
    assert_eq!(before, after);
}

#[test]
fn grand_final_needs_ninety() {
    let mut records =
        SflStage::JP2024GrandFinal.get_grand_final_records(&SflTeam::G8S, &SflTeam::CR);
    for r in records.iter_mut() {
        r.win_flag = true;
        r.is_valid = true;
    }
    let (winner, team_points, opponent_points) =
        SflStage::JP2024GrandFinal.get_win_team(&records);
    assert_eq!(winner, SflTeam::G8S);
    assert_eq!(team_points, 90);
    assert_eq!(opponent_points, 0);
}

#[test]
fn opponent_takes_playoff_race() {
    let mut records =
        SflStage::JP2024Playoff.get_playoff_records(&SflTeam::VAR, &SflTeam::FAV);
    for r in records.iter_mut() {
        r.win_flag = false;
        r.is_valid = true;
    }
    let (winner, team_points, opponent_points) =
        SflStage::JP2024Playoff.get_win_team(&records);
    assert_eq!(winner, SflTeam::FAV);
    assert_eq!(team_points, 0);
    assert_eq!(opponent_points, 80);
}
