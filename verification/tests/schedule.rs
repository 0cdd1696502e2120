use sfl_lib::schedule::SflStage;
use sfl_lib::team::{GameType, SflTeam};

#[test]
fn team_indexes_are_dense() {
    let teams = SflStage::JP2024AllDivision.get_teams();
    assert_eq!(teams.len(), 12);
    for (i, team) in teams.iter().enumerate() {
        assert_eq!(team.get_index(), i);
    }
}

#[test]
fn division_team_lists() {
    assert_eq!(
        SflStage::JP2024DivisionS.get_teams(),
        vec![
            SflTeam::G8S,
            SflTeam::DFM,
            SflTeam::SOL,
            SflTeam::IBS,
            SflTeam::OJA,
            SflTeam::SNB
        ]
    );
    assert_eq!(SflStage::JP2024DivisionF.get_teams().len(), 6);
    assert_eq!(SflStage::JP2024Playoff.get_teams().len(), 0);
}

#[test]
fn schedule_lengths() {
    assert_eq!(SflStage::JP2024DivisionS.get_matches().len(), 30);
    assert_eq!(SflStage::JP2024DivisionF.get_matches().len(), 30);
    assert_eq!(SflStage::JP2024AllDivision.get_matches().len(), 60);
    assert_eq!(SflStage::JP2024Playoff.get_matches().len(), 0);
}

#[test]
fn first_and_last_fixtures() {
    let all = SflStage::JP2024AllDivision.get_matches();
    assert_eq!(all[0].team, SflTeam::DFM);
    assert_eq!(all[0].opponent_team, SflTeam::OJA);
    assert_eq!(all[0].section, 1);
    assert_eq!(all[0].branch, 1);
    assert_eq!(all[0].date_expression, "08/16");
    assert!(!all[0].is_home);
    assert_eq!(all[3].team, SflTeam::RC);
    assert_eq!(all[3].opponent_team, SflTeam::IXA);
    assert_eq!(all[3].date_expression, "08/20");
    let last = &all[59];
    assert_eq!(last.team, SflTeam::CAG);
    assert_eq!(last.opponent_team, SflTeam::FAV);
    assert_eq!(last.section, 10);
    assert_eq!(last.branch, 3);
    assert_eq!(last.date_expression, "11/22");
}

#[test]
fn game_layouts() {
    let regular = GameType::get_games_by_stage(&SflStage::JP2024AllDivision);
    assert_eq!(regular.len(), 12);
    assert_eq!(regular[0], (1, GameType::VAN));
    assert_eq!(regular[2], (3, GameType::VAN));
    assert_eq!(regular[3], (1, GameType::MID));
    assert_eq!(regular[6], (1, GameType::GENERAL));
    assert_eq!(regular[10], (5, GameType::GENERAL));
    assert_eq!(regular[11], (1, GameType::EXTRA));
    let playoff = GameType::get_games_by_stage(&SflStage::JP2024Playoff);
    assert_eq!(playoff.len(), 36);
    assert_eq!(playoff[11], (1, GameType::VAN));
    assert_eq!(playoff[33], (1, GameType::PlayoffExtra));
    assert_eq!(playoff[35], (3, GameType::PlayoffExtra));
    let grand_final = GameType::get_games_by_stage(&SflStage::JP2024GrandFinal);
    assert_eq!(grand_final.len(), 47);
    assert_eq!(grand_final[44], (1, GameType::PlayoffExtra));
}

#[test]
fn point_values_and_roles() {
    assert_eq!(GameType::VAN.get_point(), 10);
    assert_eq!(GameType::MID.get_point(), 10);
    assert_eq!(GameType::GENERAL.get_point(), 20);
    assert_eq!(GameType::EXTRA.get_point(), 5);
    assert_eq!(GameType::PlayoffExtra.get_point(), 10);
    assert!(!GameType::VAN.is_leader());
    assert!(!GameType::MID.is_leader());
    assert!(GameType::GENERAL.is_leader());
    assert!(GameType::EXTRA.is_leader());
    assert!(GameType::PlayoffExtra.is_leader());
}

#[test]
fn initial_records_are_fresh_predictions() {
    let records = SflStage::JP2024AllDivision.get_initial_records();
    assert_eq!(records.len(), 60);
    for fixture in records.iter() {
        assert_eq!(fixture.len(), 12);
        for record in fixture.iter() {
            assert!(record.is_prediction);
            assert!(!record.is_valid);
            assert_eq!(record.point, 0);
            assert!(!record.win_flag);
        }
    }
}

#[test]
fn synthesized_fixture_shapes() {
    let playoff =
        SflStage::JP2024Playoff.get_playoff_records(&SflTeam::G8S, &SflTeam::CR);
    assert_eq!(playoff.len(), 36);
    assert_eq!(playoff[0].sfl_match.team, SflTeam::G8S);
    assert_eq!(playoff[0].sfl_match.opponent_team, SflTeam::CR);
    let gf = SflStage::JP2024GrandFinal.get_grand_final_records(&SflTeam::RC, &SflTeam::SNB);
    assert_eq!(gf.len(), 47);
    let m = SflStage::JP2024Playoff.get_playoff_match(&SflTeam::G8S, &SflTeam::CR);
    assert_eq!(m.section, 0);
    assert_eq!(m.date_expression, "");
    let gm = SflStage::JP2024GrandFinal.get_grand_final_match(&SflTeam::RC, &SflTeam::SNB);
    assert_eq!(gm.branch, 0);
}

#[test]
fn max_team_index_per_stage() {
    assert_eq!(SflStage::JP2024DivisionS.get_max_team_index(), 5);
    assert_eq!(SflStage::JP2024DivisionF.get_max_team_index(), 11);
    assert_eq!(SflStage::JP2024AllDivision.get_max_team_index(), 11);
}

#[test]
fn team_names() {
    assert_eq!(SflTeam::G8S.name(), "G8S");
    assert_eq!(SflTeam::FAV.name(), "FAV");
}
