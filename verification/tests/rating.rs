use sfl_lib::rating::{
    create_key_function_and_init_ratings, get_win_percentage, rating_context_indexes,
    rating_key_pair, update_rating, SflRating, INITIAL_RATING, PROB_SCALE,
};
use sfl_lib::schedule::SflStage;
use sfl_lib::team::{SflRatingSetting, SflTeam};

#[test]
fn equal_ratings_split_evenly() {
    let (pa, pb) = get_win_percentage(INITIAL_RATING, INITIAL_RATING);
    assert_eq!(pa, 500000);
    assert_eq!(pb, 500000);
}

#[test]
fn four_hundred_points_behind() {
    // Four hundred rating points behind: one chance in eleven.
    let (pa, pb) = get_win_percentage(1500000, 1900000);
    assert_eq!(pa, 90909);
    assert_eq!(pb, 909091);
}

#[test]
fn probabilities_always_complement() {
    // The two parts of every answer sum to the whole scale.
    let pairs = [
        (1500000i64, 1500000i64),
        (1500000, 1501000),
        (1400000, 1900000),
        (2000000, 1000000),
        (1500000, 1512345),
        (0, 5000000),
    ];
    for (a, b) in pairs {
        let (pa, pb) = get_win_percentage(a, b);
        assert_eq!(pa + pb, PROB_SCALE as u64);
        let (qa, qb) = get_win_percentage(b, a);
        assert_eq!(qa + qb, PROB_SCALE as u64);
        // Asking about the two sides in either order agrees.
        assert_eq!(pa, qb);
        assert_eq!(pb, qa);
    }
}

#[test]
fn update_moves_equal_ratings_by_half_k() {
    let (a, b) = update_rating(INITIAL_RATING, INITIAL_RATING, true);
    assert_eq!(a, 1508000);
    assert_eq!(b, 1492000);
}

#[test]
fn update_is_zero_sum() {
    let pairs = [
        (1500000i64, 1500000i64, true),
        (1500000, 1500000, false),
        (1600000, 1400000, true),
        (1600000, 1400000, false),
        (1234567, 1765432, true),
        (1111111, 1111112, false),
    ];
    for (a, b, a_win) in pairs {
        let (na, nb) = update_rating(a, b, a_win);
        assert_eq!(na + nb, a + b);
    }
}

#[test]
fn upsets_move_more_than_expected_wins() {
    // A heavy favourite gains little from winning; an underdog gains a lot.
    let (fav_after, _) = update_rating(1900000, 1500000, true);
    let (dog_after, _) = update_rating(1500000, 1900000, true);
    assert!(fav_after - 1900000 < dog_after - 1500000);
}

#[test]
fn context_indexes_follow_home_and_role() {
    let records = SflStage::JP2024AllDivision.get_initial_records();
    // Fixture 0 is DFM (index 1) against OJA (index 4), away layout.
    let opening = &records[0][0];
    let (a, b) = rating_context_indexes(opening);
    assert_eq!(a, 1 * 4);
    assert_eq!(b, 4 * 4 + 1);
    let anchor = &records[0][6];
    let (a, b) = rating_context_indexes(anchor);
    assert_eq!(a, 1 * 4 + 2);
    assert_eq!(b, 4 * 4 + 1 + 2);
}

#[test]
fn key_pairs_by_setting() {
    let records = SflStage::JP2024AllDivision.get_initial_records();
    let opening = &records[0][0];
    let anchor = &records[0][6];
    assert_eq!(
        rating_key_pair(&SflRatingSetting::TeamOnly, opening),
        ((SflTeam::DFM, 0), (SflTeam::OJA, 0))
    );
    assert_eq!(
        rating_key_pair(&SflRatingSetting::HomeAway, opening),
        ((SflTeam::DFM, 120), (SflTeam::OJA, 121))
    );
    assert_eq!(
        rating_key_pair(&SflRatingSetting::GameType, anchor),
        ((SflTeam::DFM, 112), (SflTeam::OJA, 112))
    );
    assert_eq!(
        rating_key_pair(&SflRatingSetting::HomeAwayGameType, anchor),
        ((SflTeam::DFM, 110), (SflTeam::OJA, 111))
    );
}

#[test]
fn fresh_season_keeps_baseline_ratings() {
    let records = SflStage::JP2024AllDivision.get_initial_records();
    let mut rating = SflRating::new();
    rating.calc_ratings(&SflStage::JP2024AllDivision, &records);
    for t in 0..12 {
        for (h, l) in [(false, false), (true, false), (false, true), (true, true)] {
            assert_eq!(rating.get_rating(t, h, l), INITIAL_RATING);
        }
    }
}

#[test]
fn played_records_move_ratings() {
    let mut records = SflStage::JP2024AllDivision.get_initial_records();
    // DFM takes the first two opening games of fixture 0.
    for j in 0..2 {
        records[0][j].win_flag = true;
        records[0][j].is_valid = true;
        records[0][j].is_prediction = false;
    }
    let mut rating = SflRating::new();
    rating.calc_ratings(&SflStage::JP2024AllDivision, &records);
    // DFM away, non-decisive context: two wins, first worth 8000, the
    // second a little less since the estimate already moved.
    assert_eq!(rating.get_rating(1, false, false), 1515634);
    assert_eq!(rating.get_rating(4, true, false), 1484366);
}

#[test]
fn init_ratings_cover_all_contexts() {
    let ratings = create_key_function_and_init_ratings(
        SflRatingSetting::HomeAwayGameType,
        SflStage::JP2024AllDivision.get_teams(),
    );
    assert_eq!(ratings.len(), 48);
    assert!(ratings.iter().all(|&r| r == INITIAL_RATING));
}
