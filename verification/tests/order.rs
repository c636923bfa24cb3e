use gameday::domain::{Game, League, Status};
use gameday::order::{fingerprints, order_moved};

fn live(id: &str, away: u16, home: u16, clock: &str) -> Game {
    Game {
        id: id.into(),
        league: League::Nfl,
        away_score: away,
        home_score: home,
        status: Status::Live,
        clock: clock.into(),
        ..Game::default()
    }
}

#[test]
fn a_clock_that_ran_is_not_an_event() {
    let before = fingerprints(&vec![live("1", 7, 3, "5:00"), live("2", 0, 0, "9:00")], &vec![false, true]);
    let after = fingerprints(&vec![live("1", 7, 3, "4:12"), live("2", 0, 0, "8:01")], &vec![false, true]);
    assert!(!order_moved(&before, &after));
}

#[test]
fn a_score_a_hot_flag_or_a_new_game_is() {
    let before = fingerprints(&vec![live("1", 7, 3, "5:00")], &vec![false]);
    assert!(order_moved(&before, &fingerprints(&vec![live("1", 7, 10, "5:00")], &vec![false])));
    assert!(order_moved(&before, &fingerprints(&vec![live("1", 7, 3, "5:00")], &vec![true])));
    assert!(order_moved(&before, &fingerprints(&vec![live("2", 7, 3, "5:00")], &vec![false])));
    assert!(order_moved(
        &before,
        &fingerprints(&vec![live("1", 7, 3, "5:00"), live("2", 0, 0, "9:00")], &vec![false, false])
    ));
}
