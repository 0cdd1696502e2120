use sfl_lib::results::get_place_sim_count;
use sfl_lib::rating::INITIAL_RATING;
use sfl_lib::schedule::SflStage;
use sfl_lib::sim::SflSimulation;
use sfl_lib::team::SflTeam;

#[test]
fn fresh_engine_defaults() {
    let sim = SflSimulation::new(false);
    assert_eq!(sim.count, 10000);
    assert!(sim.option.enable_rate);
    assert_eq!(sim.max_team_index, 11);
    assert_eq!(sim.get_rating(0, false, false), INITIAL_RATING);
    assert_eq!(sim.get_matches().len(), 60);
    assert_eq!(sim.get_match_records(0).len(), 12);
}

#[test]
fn enable_rate_switches() {
    let mut sim = SflSimulation::new(false);
    sim.enable_rate(false);
    assert!(!sim.option.enable_rate);
}

#[test]
fn known_results_feed_stats_and_ratings() {
    let mut sim = SflSimulation::new(false);
    // Fixture 0 is DFM against OJA; DFM takes every game.
    sim.set_match_result(0, vec![true; 12]);
    let points = sim.sfl_stats.get_points();
    let battles = sim.sfl_stats.get_battles();
    // Seven valid games were played: two opening, two mid, three anchor.
    assert_eq!(points[SflTeam::DFM.get_index()], 40);
    assert_eq!(points[SflTeam::OJA.get_index()], 0);
    assert_eq!(battles[SflTeam::DFM.get_index()], 7);
    assert_eq!(battles[SflTeam::OJA.get_index()], -7);
    // The ratings moved off the baseline for the sides involved.
    assert!(sim.get_rating(SflTeam::DFM.get_index(), false, false) > INITIAL_RATING);
    assert!(sim.get_rating(SflTeam::OJA.get_index(), true, false) < INITIAL_RATING);
    assert_eq!(sim.get_rating(SflTeam::G8S.get_index(), false, false), INITIAL_RATING);
}

#[test]
fn short_inputs_reset_the_tail() {
    let mut sim = SflSimulation::new(false);
    sim.set_match_result(0, vec![true; 12]);
    // Re-writing with only two results puts the other games back to their
    // prediction baseline.
    sim.set_match_result(0, vec![true, false]);
    let records = sim.get_match_records(0);
    assert!(!records[0].is_prediction);
    assert!(records[1].is_valid);
    assert!(records[2].is_prediction);
    assert!(!records[2].is_valid);
    assert!(records[11].is_prediction);
}

#[test]
fn simulation_is_deterministic() {
    // Identical seed, trial count and known results give byte-identical
    // histograms and sums.
    let mut a = SflSimulation::new(false);
    let mut b = SflSimulation::new(false);
    a.count = 300;
    b.count = 300;
    a.enable_rate(false);
    b.enable_rate(false);
    a.set_match_result(0, vec![true; 12]);
    b.set_match_result(0, vec![true; 12]);
    a.simulate();
    b.simulate();
    for t in 0..12 {
        assert_eq!(
            a.get_place_count(SflStage::JP2024DivisionS, t),
            b.get_place_count(SflStage::JP2024DivisionS, t)
        );
        assert_eq!(
            a.get_place_count(SflStage::JP2024AllDivision, t),
            b.get_place_count(SflStage::JP2024AllDivision, t)
        );
        assert_eq!(a.get_expect_point(t), b.get_expect_point(t));
        assert_eq!(a.get_expect_battle(t), b.get_expect_battle(t));
        assert_eq!(a.get_match_points(t), b.get_match_points(t));
    }
    assert_eq!(
        a.get_current_places(SflStage::JP2024AllDivision),
        b.get_current_places(SflStage::JP2024AllDivision)
    );
}

#[test]
fn rating_based_runs_differ_from_uniform_runs() {
    let mut a = SflSimulation::new(false);
    let mut b = SflSimulation::new(false);
    a.count = 200;
    b.count = 200;
    a.enable_rate(true);
    b.enable_rate(false);
    a.set_match_result(0, vec![true; 12]);
    b.set_match_result(0, vec![true; 12]);
    a.simulate();
    b.simulate();
    let mut any_difference = false;
    for t in 0..12 {
        if a.get_expect_point(t) != b.get_expect_point(t) {
            any_difference = true;
        }
    }
    assert!(any_difference);
}

#[test]
fn full_run_fills_exact_histograms() {
    // An all-prediction season, uniform sampling, ten thousand trials: the
    // placement histogram of every team sums to exactly the trial count,
    // and with equal baseline ratings the division wins split evenly
    // within sampling tolerance.
    let mut sim = SflSimulation::new(false);
    sim.enable_rate(false);
    sim.simulate();
    let mut champions = 0u32;
    let mut runners_up = 0u32;
    for t in 0..12 {
        let division = sim.get_place_count(SflStage::JP2024DivisionS, t);
        assert_eq!(division.iter().sum::<u32>(), 10000, "team {}", t);
        let first = division[0];
        assert!(first > 700 && first < 3000, "team {} first {}", t, first);
        let playoff = sim.get_place_count(SflStage::JP2024AllDivision, t);
        champions += playoff[0];
        runners_up += playoff[1];
    }
    assert_eq!(champions, 10000);
    assert_eq!(runners_up, 10000);
    let places = sim.get_current_places(SflStage::JP2024AllDivision);
    assert_eq!(places.len(), 12);
    let mut seen = [false; 12];
    for p in places {
        seen[p] = true;
    }
    assert!(seen.iter().all(|&s| s));
    let division = sim.get_current_places(SflStage::JP2024DivisionS);
    assert_eq!(division.len(), 6);
    assert!(division.iter().all(|&p| p < 6));
    let division_f = sim.get_current_places(SflStage::JP2024DivisionF);
    assert_eq!(division_f.len(), 6);
    assert!(division_f.iter().all(|&p| p >= 6 && p < 12));
}

#[test]
fn places_follow_expected_points() {
    // The stored division order is the expected-points order, best first,
    // and the playoff order follows championship counts.
    let mut sim = SflSimulation::new(false);
    sim.count = 500;
    sim.enable_rate(false);
    sim.simulate();
    for stage in [SflStage::JP2024DivisionS, SflStage::JP2024DivisionF] {
        let places = sim.get_current_places(stage);
        for w in places.windows(2) {
            assert!(sim.get_expect_point(w[0]) >= sim.get_expect_point(w[1]));
        }
    }
    let playoff = sim.get_current_places(SflStage::JP2024AllDivision);
    for w in playoff.windows(2) {
        let a = sim.get_place_count(SflStage::JP2024AllDivision, w[0])[0];
        let b = sim.get_place_count(SflStage::JP2024AllDivision, w[1])[0];
        assert!(a >= b);
    }
}

#[test]
fn out_of_range_queries_answer_empty() {
    let sim = SflSimulation::new(false);
    assert_eq!(sim.get_place_count(SflStage::JP2024DivisionS, 12).len(), 0);
    assert_eq!(sim.get_place_count(SflStage::JP2024Playoff, 0).len(), 0);
    assert_eq!(sim.get_expect_point(25), 0);
    assert_eq!(sim.get_expect_battle(25), 0);
    assert_eq!(sim.get_match_points(60).len(), 0);
}

#[test]
fn stored_snapshot_reads_back() {
    let sim = SflSimulation::new(true);
    assert_eq!(sim.get_expect_point(0), 2464300);
    assert_eq!(sim.get_expect_battle(0), 130664);
    assert_eq!(
        sim.get_place_count(SflStage::JP2024DivisionS, 0),
        vec![4448, 3591, 1399, 514, 47, 1]
    );
    assert_eq!(
        sim.get_place_count(SflStage::JP2024AllDivision, 9),
        vec![3368, 3265, 3067, 287]
    );
    assert_eq!(
        sim.get_current_places(SflStage::JP2024DivisionS),
        vec![0, 5, 2, 3, 4, 1]
    );
    assert_eq!(sim.get_current_places(SflStage::JP2024AllDivision)[0], 9);
    assert_eq!(sim.get_match_points(0), vec![200000, 0, 50000, 200000]);
}

#[test]
fn detail_rows_mention_the_team() {
    let mut sim = SflSimulation::new(true);
    let details = sim.get_division_places_detail(0);
    assert!(!details.is_empty());
    for d in details {
        assert!(d.first == 0 || d.second == 0 || d.third == 0);
        assert!(d.time > 0);
    }
}

#[test]
fn team_names_from_engine() {
    let sim = SflSimulation::new(false);
    let names = sim.get_team_names(SflStage::JP2024DivisionS);
    assert_eq!(names, vec!["G8S", "DFM", "SOL", "IBS", "OJA", "SNB"]);
}

#[test]
fn place_sim_count_starts_zeroed() {
    let counts = get_place_sim_count(SflStage::JP2024AllDivision);
    assert_eq!(counts.len(), 12);
    for (team, (places, totals)) in counts.iter() {
        assert_eq!(places, &vec![0u32; 6]);
        assert_eq!(totals, &(0u32, 0u32, 0i32, 0i32));
        let _ = team;
    }
}
