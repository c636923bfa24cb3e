//! Seed data for the demo board and the gallery: a full watch board and no
//! network. One live marquee game per league (NFL/NBA/MLB/NHL) pinned to
//! Home, plus slate games so league tabs have upcoming and final rows.
use vstd::prelude::*;
use crate::board::count_status;
use crate::config::{Config, Pin};
use crate::domain::{
    Extras, EventKind, Game, GameStats, League, Leader, MatchEvent, Meter, Play, PlayKind, Situation, StatRow, Status,
    Team,
};
use crate::rank::SortKey;
use crate::text::{append, owned, str_to_lowercase};

verus! {

broadcast use vstd::seq_lib::group_seq_properties;

/// The scheduled kickoff of the demo's later games: 2026-09-13 16:25 -4,
/// seconds since the Unix epoch.
pub const LATER_START: i64 = 1789331100;

/// The demo's Sunday-night kickoff: 2026-09-13 20:20 -4.
pub const NIGHT_START: i64 = 1789345200;

fn team(abbr: &str, location: &str, name: &str, record: &str, color: [u8; 3], alt: [u8; 3], league: League) -> (t: Team)
    ensures
        t.abbr@ == abbr@,
        t.id@ == abbr@,
        t.name@ == name@,
        t.location@ == location@,
        t.rank.is_none(),
{
    let mut logo_key = owned(league.slug());
    append(&mut logo_key, "/");
    let lower = str_to_lowercase(abbr);
    append(&mut logo_key, lower.as_str());
    Team {
        id: owned(abbr),
        abbr: owned(abbr),
        name: owned(name),
        location: owned(location),
        record: owned(record),
        color,
        alt_color: alt,
        logo_key,
        rank: None,
    }
}

/// A play with a game clock.
pub fn play(clock: &str, team: &str, text: &str, scoring: bool) -> (p: Play)
    ensures
        p.clock@ == clock@,
        p.period@.len() == 0,
        p.team@ == team@,
        p.text@ == text@,
        p.scoring == scoring,
        p.id@.len() == 0,
        p.kind == PlayKind::Other,
        p.score_value.is_none(),
        p.score_after.is_none(),
{
    Play {
        id: String::new(),
        clock: owned(clock),
        period: String::new(),
        team: owned(team),
        text: owned(text),
        scoring,
        kind: PlayKind::Other,
        score_value: None,
        score_after: None,
    }
}

/// A play in a sport with no play clock: stamped with its half-inning
/// (`B7`, `T8`).
pub fn inning_play(period: &str, team: &str, text: &str, scoring: bool) -> (p: Play)
    ensures
        p.clock@.len() == 0,
        p.period@ == period@,
        p.team@ == team@,
        p.text@ == text@,
        p.scoring == scoring,
        p.id@.len() == 0,
        p.kind == PlayKind::Other,
        p.score_value.is_none(),
        p.score_after.is_none(),
{
    Play {
        id: String::new(),
        clock: String::new(),
        period: owned(period),
        team: owned(team),
        text: owned(text),
        scoring,
        kind: PlayKind::Other,
        score_value: None,
        score_after: None,
    }
}

/// The demo's configuration: five leagues, no favorites, theme `theme`,
/// watchability order.
pub fn demo_config(theme: &str) -> (c: Config)
    ensures
        c.enabled_tabs@ == seq![League::Nfl, League::Nba, League::Mlb, League::Nhl, League::Epl],
        c.favorites@.len() == 0,
        c.theme@ == theme@,
        c.sort == SortKey::Watch,
{
    let mut tabs: Vec<League> = Vec::new();
    tabs.push(League::Nfl);
    tabs.push(League::Nba);
    tabs.push(League::Mlb);
    tabs.push(League::Nhl);
    tabs.push(League::Epl);
    Config { enabled_tabs: tabs, favorites: Vec::new(), theme: owned(theme), sort: SortKey::Watch }
}

/// One pin: KC@TB, the pin that reads as a choice.
pub fn demo_pins() -> (p: Vec<Pin>)
    ensures
        is_demo_pins(p@),
{
    let mut v: Vec<Pin> = Vec::new();
    v.push(Pin { game_id: owned("nfl-live"), league: League::Nfl, final_at: None });
    v
}

fn row(label: &str, away: &str, home: &str) -> (r: StatRow)
    ensures
        r.label@ == label@,
        r.away@ == away@,
        r.home@ == home@,
{
    StatRow { label: owned(label), away: owned(away), home: owned(home) }
}

fn leader(team: &str, label: &str, text: &str) -> (r: Leader)
    ensures
        r.team@ == team@,
        r.label@ == label@,
        r.text@ == text@,
{
    Leader { team: owned(team), label: owned(label), text: owned(text) }
}

/// The box score of the demo's `nfl-live` game (KC 27 @ TB 24): comparison
/// rows in the feed's order with its labels, then one leader per team per
/// category, KC's first.
pub fn demo_stats() -> (s: GameStats)
    ensures
        s.rows@.len() == 22,
        s.rows@[0].label@ == "1st Downs"@ && s.rows@[0].away@ == "19"@ && s.rows@[0].home@ == "21"@,
        s.rows@[21].label@ == "Possession"@ && s.rows@[21].away@ == "28:41"@ && s.rows@[21].home@ == "31:19"@,
        s.leaders@.len() == 10,
        s.leaders@[0].label@ == "Passing Yards"@ && s.leaders@[0].text@ == "P. Mahomes 22/31, 255 YDS, 2 TD"@,
        s.leaders@[5].label@ == "Passing Yards"@ && s.leaders@[5].text@ == "B. Mayfield 24/38, 250 YDS, 1 TD, 1 INT"@,
        forall|i: int| 0 <= i < 5 ==> (#[trigger] s.leaders@[i]).team@ == "KC"@,
        forall|i: int| 5 <= i < 10 ==> (#[trigger] s.leaders@[i]).team@ == "TB"@,
{
    let mut rows: Vec<StatRow> = Vec::new();
    rows.push(row("1st Downs", "19", "21"));
    rows.push(row("Passing 1st downs", "12", "13"));
    rows.push(row("Rushing 1st downs", "5", "6"));
    rows.push(row("1st downs from penalties", "2", "2"));
    rows.push(row("3rd down efficiency", "6-11", "5-12"));
    rows.push(row("4th down efficiency", "1-1", "0-2"));
    rows.push(row("Total Plays", "58", "64"));
    rows.push(row("Total Yards", "356", "341"));
    rows.push(row("Yards per Play", "6.1", "5.3"));
    rows.push(row("Total Drives", "10", "11"));
    rows.push(row("Passing", "241", "228"));
    rows.push(row("Comp/Att", "22/31", "24/38"));
    rows.push(row("Yards per pass", "7.3", "5.7"));
    rows.push(row("Interceptions thrown", "0", "1"));
    rows.push(row("Sacks-Yards Lost", "2-14", "3-22"));
    rows.push(row("Rushing", "115", "113"));
    rows.push(row("Rushing Attempts", "25", "23"));
    rows.push(row("Yards per rush", "4.6", "4.9"));
    rows.push(row("Red Zone (Made-Att)", "2-4", "3-3"));
    rows.push(row("Penalties", "5-40", "7-61"));
    rows.push(row("Turnovers", "0", "1"));
    rows.push(row("Possession", "28:41", "31:19"));
    let mut leaders: Vec<Leader> = Vec::new();
    leaders.push(leader("KC", "Passing Yards", "P. Mahomes 22/31, 255 YDS, 2 TD"));
    leaders.push(leader("KC", "Rushing Yards", "I. Pacheco 17 CAR, 82 YDS, 1 TD"));
    leaders.push(leader("KC", "Receiving Yards", "T. Kelce 8 REC, 96 YDS, 1 TD"));
    leaders.push(leader("KC", "Sacks", "G. Karlaftis 2.0"));
    leaders.push(leader("KC", "Tackles", "N. Bolton 9"));
    leaders.push(leader("TB", "Passing Yards", "B. Mayfield 24/38, 250 YDS, 1 TD, 1 INT"));
    leaders.push(leader("TB", "Rushing Yards", "R. White 15 CAR, 71 YDS, 1 TD"));
    leaders.push(leader("TB", "Receiving Yards", "M. Evans 6 REC, 88 YDS, 1 TD"));
    leaders.push(leader("TB", "Sacks", "Y. Diaby 1.5"));
    leaders.push(leader("TB", "Tackles", "L. David 11"));
    proof {
        reveal_strlit("KC");
        reveal_strlit("TB");
    }
    GameStats { rows, leaders }
}

/// The scoring plays a game authored newest first carries: its scoring
/// plays, oldest first.
pub open spec fn scoring_mirror(last: Seq<Play>) -> Seq<Play>
    decreases last.len(),
{
    if last.len() == 0 {
        Seq::empty()
    } else if last[0].scoring {
        scoring_mirror(last.skip(1)).push(last[0])
    } else {
        scoring_mirror(last.skip(1))
    }
}

/// The scoring plays of a newest-first list, oldest first.
pub fn mirror_scoring(last: &Vec<Play>) -> (r: Vec<Play>)
    ensures
        r@ == scoring_mirror(last@),
{
    let mut out: Vec<Play> = Vec::new();
    let mut i: usize = last.len();
    while i > 0
        invariant
            i <= last@.len(),
            out@ == scoring_mirror(last@.skip(i as int)),
        decreases i,
    {
        i -= 1;
        assert(last@.skip(i as int).skip(1) =~= last@.skip(i + 1));
        assert(last@.skip(i as int)[0] == last@[i as int]);
        if last[i].scoring {
            out.push(crate::cut::copy_play(&last[i]));
        }
    }
    assert(last@.skip(0) =~= last@);
    out
}

/// The scoring row a play adds to a mirror: itself if it scored.
pub open spec fn scoring_row(p: Play) -> Seq<Play> {
    if p.scoring {
        seq![p]
    } else {
        Seq::empty()
    }
}

proof fn lemma_mirror_step(s: Seq<Play>)
    requires
        s.len() > 0,
    ensures
        scoring_mirror(s) == scoring_mirror(s.skip(1)) + scoring_row(s[0]),
{
    assert(scoring_mirror(s.skip(1)).push(s[0]) =~= scoring_mirror(s.skip(1)) + seq![s[0]]);
    assert(scoring_mirror(s.skip(1)) =~= scoring_mirror(s.skip(1)) + Seq::<Play>::empty());
}

proof fn lemma_mirror_of_one(s: Seq<Play>)
    requires
        s.len() == 1,
    ensures
        scoring_mirror(s) == scoring_row(s[0]),
{
    lemma_mirror_step(s);
    assert(scoring_mirror(s.skip(1)) == Seq::<Play>::empty());
    assert(Seq::<Play>::empty() + scoring_row(s[0]) =~= scoring_row(s[0]));
}

proof fn lemma_mirror_of_two(s: Seq<Play>)
    requires
        s.len() == 2,
    ensures
        scoring_mirror(s) == scoring_row(s[1]) + scoring_row(s[0]),
{
    lemma_mirror_step(s);
    lemma_mirror_of_one(s.skip(1));
}

proof fn lemma_mirror_of_three(s: Seq<Play>)
    requires
        s.len() == 3,
    ensures
        scoring_mirror(s) == scoring_row(s[2]) + scoring_row(s[1]) + scoring_row(s[0]),
{
    lemma_mirror_step(s);
    lemma_mirror_of_two(s.skip(1));
}

proof fn lemma_mirror_of_four(s: Seq<Play>)
    requires
        s.len() == 4,
    ensures
        scoring_mirror(s) == scoring_row(s[3]) + scoring_row(s[2]) + scoring_row(s[1]) + scoring_row(s[0]),
{
    lemma_mirror_step(s);
    lemma_mirror_of_three(s.skip(1));
}

/// A game authored with recent plays, its scoring plays set to the mirror of
/// their scoring rows.
fn seal(g: Game) -> (r: Game)
    ensures
        r.id == g.id && r.league == g.league && r.status == g.status,
        r.away == g.away && r.home == g.home,
        r.away_score == g.away_score && r.home_score == g.home_score,
        r.last_plays == g.last_plays,
        r.scoring_plays@ == scoring_mirror(g.last_plays@),
{
    let mut g = g;
    g.scoring_plays = mirror_scoring(&g.last_plays);
    g
}

/// A finished game: the board's FINAL row is an abbreviation pair, a score,
/// a league tag and one headline, so that is all it carries.
fn final_game(id: &str, league: League, away: Team, home: Team, away_score: u16, home_score: u16, headline: &str) -> (g: Game)
    ensures
        g.id@ == id@,
        g.league == league,
        g.status == Status::Final,
        g.away == away && g.home == home,
        g.away_score == away_score && g.home_score == home_score,
        g.last_plays@.len() == 0,
        g.scoring_plays@.len() == 1,
        g.scoring_plays@[0].text@ == headline@,
{
    let mut sp: Vec<Play> = Vec::new();
    sp.push(play("", "", headline, true));
    Game {
        id: owned(id),
        league,
        away,
        home,
        away_score,
        home_score,
        status: Status::Final,
        period: owned("F"),
        scoring_plays: sp,
        ..Game::default()
    }
}

/// A scheduled game: a start time, a network and a line.
fn later_game(id: &str, league: League, away: Team, home: Team, net: &str, odds: &str) -> (g: Game)
    ensures
        g.id@ == id@,
        g.league == league,
        g.status == Status::Pre,
        g.away == away && g.home == home,
        g.away_score == 0 && g.home_score == 0,
        g.last_plays@.len() == 0,
        g.scoring_plays@.len() == 0,
{
    Game {
        id: owned(id),
        league,
        away,
        home,
        status: Status::Pre,
        start: Some(LATER_START),
        broadcast: Some(owned(net)),
        odds: Some(owned(odds)),
        ..Game::default()
    }
}

/// What the slate fixes of one game: its id, the two abbreviations, its
/// state, the score and the text of its scoring plays, oldest first.
#[verifier::ext_equal]
pub struct SlateEntry {
    pub id: Seq<char>,
    pub away: Seq<char>,
    pub home: Seq<char>,
    pub status: Status,
    pub away_score: u16,
    pub home_score: u16,
    pub scoring: Seq<Seq<char>>,
}

/// The entry a game shows on the slate.
pub open spec fn entry_of(g: Game) -> SlateEntry {
    SlateEntry {
        id: g.id@,
        away: g.away.abbr@,
        home: g.home.abbr@,
        status: g.status,
        away_score: g.away_score,
        home_score: g.home_score,
        scoring: g.scoring_plays@.map_values(|p: Play| p.text@),
    }
}

pub open spec fn entry(
    id: Seq<char>,
    away: Seq<char>,
    home: Seq<char>,
    status: Status,
    away_score: u16,
    home_score: u16,
    scoring: Seq<Seq<char>>,
) -> SlateEntry {
    SlateEntry { id, away, home, status, away_score, home_score, scoring }
}

/// The NFL board: KC@TB live in the red zone, SF@SEA tonight, GB@CHI live,
/// two finals and two later games.
pub open spec fn nfl_slate() -> Seq<SlateEntry> {
    seq![
        entry("nfl-live"@, "KC"@, "TB"@, Status::Live, 27, 24, seq!["Mahomes pass to Kelce, 12 yd TOUCHDOWN"@]),
        entry("nfl-pre"@, "SF"@, "SEA"@, Status::Pre, 0, 0, Seq::empty()),
        entry("nfl-live2"@, "GB"@, "CHI"@, Status::Live, 13, 10, Seq::empty()),
        entry("nfl-final"@, "PHI"@, "DAL"@, Status::Final, 28, 17, Seq::empty()),
        entry("nfl-final2"@, "NYJ"@, "MIA"@, Status::Final, 10, 13, seq!["Tua finds Hill for the winner"@]),
        entry("nfl-late2"@, "HOU"@, "LAR"@, Status::Pre, 0, 0, Seq::empty()),
        entry("nfl-late3"@, "NO"@, "CAR"@, Status::Pre, 0, 0, Seq::empty()),
    ]
}

/// The NBA board: DEN@BOS live.
pub open spec fn nba_slate() -> Seq<SlateEntry> {
    seq![entry("nba-live"@, "DEN"@, "BOS"@, Status::Live, 88, 81, seq!["Jayson Tatum 3pt shot (23 PTS)"@])]
}

/// The MLB board: NYY@TOR and BOS@TEX live, SF@ATL final.
pub open spec fn mlb_slate() -> Seq<SlateEntry> {
    seq![
        entry("mlb-live"@, "NYY"@, "TOR"@, Status::Live, 5, 3, seq!["Aaron Judge homers to left (18)  [5-3]"@]),
        entry("mlb-live2"@, "BOS"@, "TEX"@, Status::Live, 2, 2, Seq::empty()),
        entry("mlb-final"@, "SF"@, "ATL"@, Status::Final, 7, 3, seq!["Chapman homers twice"@]),
    ]
}

/// The NHL board: EDM@DAL live after two goals, BOS@TOR final.
pub open spec fn nhl_slate() -> Seq<SlateEntry> {
    seq![
        entry(
            "nhl-live"@,
            "EDM"@,
            "DAL"@,
            Status::Live,
            3,
            2,
            seq!["Roope Hintz tip-in goal  [2-2]"@, "Leon Draisaitl snap shot GOAL (32)  [3-2]"@],
        ),
        entry("nhl-final"@, "BOS"@, "TOR"@, Status::Final, 4, 2, seq!["Pastrnak two goals, Swayman 31 saves"@]),
    ]
}

/// The EPL board: ARS@LIV live, MCI@CHE final.
pub open spec fn epl_slate() -> Seq<SlateEntry> {
    seq![
        entry(
            "epl-live"@,
            "ARS"@,
            "LIV"@,
            Status::Live,
            1,
            2,
            seq![
                "Bukayo Saka curls one in from the edge  [1-1]"@,
                "Mohamed Salah right-footed GOAL from the box  [2-1]"@,
            ],
        ),
        entry("epl-final"@, "MCI"@, "CHE"@, Status::Final, 2, 2, seq!["Haaland levels it in the 88th"@]),
    ]
}

/// The demo slate, board by board.
pub open spec fn demo_slate() -> Seq<(League, Seq<SlateEntry>)> {
    seq![
        (League::Nfl, nfl_slate()),
        (League::Nba, nba_slate()),
        (League::Mlb, mlb_slate()),
        (League::Nhl, nhl_slate()),
        (League::Epl, epl_slate()),
    ]
}

/// A board holds the slate's games in its order, each of the board's
/// league; a game authored with recent plays carries their scoring rows,
/// oldest first, as its scoring plays.
pub open spec fn board_matches(league: League, games: Seq<Game>, slate: Seq<SlateEntry>) -> bool {
    &&& games.len() == slate.len()
    &&& forall|i: int|
        0 <= i < games.len() ==> {
            &&& (#[trigger] games[i]).league == league
            &&& entry_of(games[i]) == slate[i]
            &&& games[i].last_plays@.len() > 0 ==> games[i].scoring_plays@ == scoring_mirror(games[i].last_plays@)
        }
}

/// The boards are the demo slate's, in its order.
pub open spec fn is_demo_slate(b: Seq<(League, Vec<Game>)>) -> bool {
    &&& b.len() == demo_slate().len()
    &&& forall|k: int|
        0 <= k < b.len() ==> (#[trigger] b[k]).0 == demo_slate()[k].0 && board_matches(
            b[k].0,
            b[k].1@,
            demo_slate()[k].1,
        )
}

/// The pins are the demo's one pin.
pub open spec fn is_demo_pins(p: Seq<Pin>) -> bool {
    &&& p.len() == 1
    &&& p[0].game_id@ == "nfl-live"@
    &&& p[0].league == League::Nfl
    &&& p[0].final_at.is_none()
}

fn nfl_board() -> (v: Vec<Game>)
    ensures
        board_matches(League::Nfl, v@, nfl_slate()),
{
    let kc = team("KC", "Kansas City", "Chiefs", "11-6", [227, 24, 55], [255, 184, 28], League::Nfl);
    let tb = team("TB", "Tampa Bay", "Buccaneers", "11-6", [255, 60, 40], [180, 180, 180], League::Nfl);
    let sf = team("SF", "San Francisco", "49ers", "12-5", [200, 60, 50], [230, 190, 130], League::Nfl);
    let sea = team("SEA", "Seattle", "Seahawks", "9-8", [105, 190, 40], [0, 90, 170], League::Nfl);
    let phi = team("PHI", "Philadelphia", "Eagles", "12-5", [0, 140, 130], [200, 200, 200], League::Nfl);
    let dal = team("DAL", "Dallas", "Cowboys", "10-7", [90, 130, 200], [180, 180, 180], League::Nfl);
    let gb = team("GB", "Green Bay", "Packers", "9-8", [24, 48, 40], [255, 184, 28], League::Nfl);
    let chi = team("CHI", "Chicago", "Bears", "7-10", [11, 22, 42], [200, 56, 3], League::Nfl);
    let nyj = team("NYJ", "New York", "Jets", "6-11", [18, 87, 64], [255, 255, 255], League::Nfl);
    let mia = team("MIA", "Miami", "Dolphins", "10-7", [0, 142, 151], [252, 76, 2], League::Nfl);
    let hou = team("HOU", "Houston", "Texans", "10-7", [3, 32, 47], [167, 25, 48], League::Nfl);
    let lar = team("LAR", "Los Angeles", "Rams", "10-7", [0, 53, 148], [255, 209, 0], League::Nfl);
    let no_ = team("NO", "New Orleans", "Saints", "5-12", [211, 188, 141], [16, 24, 31], League::Nfl);
    let car = team("CAR", "Carolina", "Panthers", "5-12", [0, 133, 202], [16, 24, 31], League::Nfl);
    let mut nfl: Vec<Game> = Vec::new();
    let mut lp: Vec<Play> = Vec::new();
    lp.push(play("1:27", "KC", "Patrick Mahomes pass to T. Kelce for 3 yards (1st & Goal)", false));
    lp.push(play("2:02", "TB", "Baker Mayfield sacked for -7 yards", false));
    lp.push(play("2:45", "KC", "Isiah Pacheco rush for 8 yards", false));
    lp.push(play("3:21", "KC", "Mahomes pass to Kelce, 12 yd TOUCHDOWN", true));
    proof {
        lemma_mirror_of_four(lp@);
    }
    let mut ls: Vec<(u16, u16)> = Vec::new();
    ls.push((7, 3));
    ls.push((6, 14));
    ls.push((7, 0));
    ls.push((7, 7));
    nfl.push(seal(Game {
        id: owned("nfl-live"),
        league: League::Nfl,
        away: kc,
        home: tb,
        away_score: 27,
        home_score: 24,
        status: Status::Live,
        period: owned("Q4"),
        clock: owned("1:27"),
        situation: Some(Situation {
            down_distance: owned("1st & Goal"),
            possession: Some(owned("KC")),
            ball_on: Some(owned("TB 3")),
            ..Situation::default()
        }),
        last_plays: lp,
        meter: Some(Meter::RedZone { yards_to_goal: 3 }),
        timeouts: Some((2, 1)),
        linescore: ls,
        broadcast: Some(owned("CBS")),
        ..Game::default()
    }));
    nfl.push(Game {
        id: owned("nfl-pre"),
        league: League::Nfl,
        away: sf,
        home: sea,
        away_score: 0,
        home_score: 0,
        status: Status::Pre,
        start: Some(NIGHT_START),
        broadcast: Some(owned("NBC")),
        odds: Some(owned("SF -2.5  O/U 44.5")),
        ..Game::default()
    });
    let mut lp: Vec<Play> = Vec::new();
    lp.push(play("4:20", "GB", "Love scrambles for 6, short of the sticks", false));
    lp.push(play("5:02", "CHI", "Williams pass to Odunze for 14", false));
    proof {
        lemma_mirror_of_two(lp@);
    }
    let mut ls: Vec<(u16, u16)> = Vec::new();
    ls.push((3, 7));
    ls.push((7, 0));
    ls.push((3, 3));
    nfl.push(seal(Game {
        id: owned("nfl-live2"),
        league: League::Nfl,
        away: gb,
        home: chi,
        away_score: 13,
        home_score: 10,
        status: Status::Live,
        period: owned("Q3"),
        clock: owned("4:20"),
        situation: Some(Situation {
            down_distance: owned("3rd & 2"),
            possession: Some(owned("GB")),
            ball_on: Some(owned("CHI 41")),
            ..Situation::default()
        }),
        last_plays: lp,
        timeouts: Some((3, 2)),
        linescore: ls,
        broadcast: Some(owned("FOX")),
        ..Game::default()
    }));
    nfl.push(Game {
        id: owned("nfl-final"),
        league: League::Nfl,
        away: phi,
        home: dal,
        away_score: 28,
        home_score: 17,
        status: Status::Final,
        period: owned("F"),
        broadcast: Some(owned("FOX")),
        ..Game::default()
    });
    nfl.push(final_game("nfl-final2", League::Nfl, nyj, mia, 10, 13, "Tua finds Hill for the winner"));
    nfl.push(later_game("nfl-late2", League::Nfl, hou, lar, "CBS", "LAR -3  O/U 45.5"));
    nfl.push(later_game("nfl-late3", League::Nfl, no_, car, "CBS", "CAR -1  O/U 40.5"));
    proof {
        assert forall|i: int| 0 <= i < nfl@.len() implies entry_of(nfl@[i]) == nfl_slate()[i] by {
            if i == 0 {
                assert(entry_of(nfl@[i]) =~~= nfl_slate()[i]);
            } else if i == 4 {
                assert(entry_of(nfl@[i]) =~~= nfl_slate()[i]);
            } else {
                assert(entry_of(nfl@[i]) =~~= nfl_slate()[i]);
            }
        }
    }
    nfl
}

fn nba_board() -> (v: Vec<Game>)
    ensures
        board_matches(League::Nba, v@, nba_slate()),
{
    let den = team("DEN", "Denver", "Nuggets", "53-29", [254, 197, 36], [30, 60, 110], League::Nba);
    let bos = team("BOS", "Boston", "Celtics", "58-24", [0, 180, 90], [220, 220, 220], League::Nba);
    let mut nba: Vec<Game> = Vec::new();
    let mut lp: Vec<Play> = Vec::new();
    lp.push(play("4:38", "DEN", "Nikola Jokic makes layup (28 PTS)", false));
    lp.push(play("5:02", "BOS", "Jayson Tatum 3pt shot (23 PTS)", true));
    lp.push(play("5:28", "DEN", "Jamal Murray makes jumper (18 PTS)", false));
    lp.push(play("5:45", "BOS", "Jrue Holiday steal", false));
    proof {
        lemma_mirror_of_four(lp@);
    }
    nba.push(seal(Game {
        id: owned("nba-live"),
        league: League::Nba,
        away: den,
        home: bos,
        away_score: 88,
        home_score: 81,
        status: Status::Live,
        period: owned("Q3"),
        clock: owned("4:38"),
        situation: Some(Situation { shot_clock: Some(24), ..Situation::default() }),
        last_plays: lp,
        meter: Some(Meter::Lead { plus_minus: -7 }),
        timeouts: Some((3, 2)),
        broadcast: Some(owned("TNT")),
        ..Game::default()
    }));
    proof {
        assert(entry_of(nba@[0]) =~~= nba_slate()[0]);
    }
    nba
}

fn mlb_board() -> (v: Vec<Game>)
    ensures
        board_matches(League::Mlb, v@, mlb_slate()),
{
    let nyy = team("NYY", "New York", "Yankees", "29-17", [220, 220, 230], [70, 110, 180], League::Mlb);
    let tor = team("TOR", "Toronto", "Blue Jays", "24-22", [70, 130, 220], [220, 220, 220], League::Mlb);
    let bos = team("BOS", "Boston", "Red Sox", "25-21", [189, 48, 57], [12, 35, 64], League::Mlb);
    let tex = team("TEX", "Texas", "Rangers", "23-23", [0, 50, 120], [192, 17, 31], League::Mlb);
    let sf = team("SF", "San Francisco", "Giants", "26-20", [253, 90, 30], [39, 37, 31], League::Mlb);
    let atl = team("ATL", "Atlanta", "Braves", "22-24", [19, 39, 79], [206, 17, 65], League::Mlb);
    let mut mlb: Vec<Game> = Vec::new();
    let mut lp: Vec<Play> = Vec::new();
    lp.push(inning_play("B7", "TOR", "Vladimir Guerrero Jr. singles to right", false));
    lp.push(inning_play("T7", "NYY", "Aaron Judge homers to left (18)  [5-3]", true));
    lp.push(inning_play("T7", "NYY", "Jazz Chisholm Jr. walks", false));
    lp.push(inning_play("B6", "TOR", "Bo Bichette strikes out swinging", false));
    proof {
        lemma_mirror_of_four(lp@);
    }
    let mut due: Vec<String> = Vec::new();
    due.push(owned("D. Varsho"));
    due.push(owned("E. Clement"));
    due.push(owned("G. Springer"));
    let mut ls: Vec<(u16, u16)> = Vec::new();
    ls.push((0, 1));
    ls.push((2, 0));
    ls.push((0, 0));
    ls.push((1, 1));
    ls.push((0, 0));
    ls.push((2, 1));
    ls.push((0, 0));
    mlb.push(seal(Game {
        id: owned("mlb-live"),
        league: League::Mlb,
        away: nyy,
        home: tor,
        away_score: 5,
        home_score: 3,
        status: Status::Live,
        period: owned("BOT 7TH"),
        clock: String::new(),
        situation: Some(Situation {
            down_distance: owned("2 OUT · 1-2"),
            balls: Some(1),
            strikes: Some(2),
            outs: Some(2),
            on_base: Some([true, false, false]),
            pitcher: Some(owned("C. Schmidt")),
            batter: Some(owned("A. Kirk")),
            due_up: due,
            ..Situation::default()
        }),
        last_plays: lp,
        meter: Some(Meter::Diamond { occupied: [true, false, false] }),
        linescore: ls,
        extras: Extras::Baseball { hits: Some((9, 7)), errors: Some((0, 1)) },
        broadcast: Some(owned("SN")),
        ..Game::default()
    }));
    let mut lp: Vec<Play> = Vec::new();
    lp.push(inning_play("T6", "BOS", "Devers lines out to left", false));
    proof {
        lemma_mirror_of_one(lp@);
    }
    mlb.push(seal(Game {
        id: owned("mlb-live2"),
        league: League::Mlb,
        away: bos,
        home: tex,
        away_score: 2,
        home_score: 2,
        status: Status::Live,
        period: owned("TOP 6TH"),
        situation: Some(Situation {
            down_distance: owned("1 OUT · 0-1"),
            balls: Some(0),
            strikes: Some(1),
            outs: Some(1),
            on_base: Some([false, false, false]),
            ..Situation::default()
        }),
        last_plays: lp,
        meter: Some(Meter::Diamond { occupied: [false, false, false] }),
        broadcast: Some(owned("NESN")),
        ..Game::default()
    }));
    mlb.push(final_game("mlb-final", League::Mlb, sf, atl, 7, 3, "Chapman homers twice"));
    proof {
        assert forall|i: int| 0 <= i < mlb@.len() implies entry_of(mlb@[i]) == mlb_slate()[i] by {
            assert(entry_of(mlb@[i]) =~~= mlb_slate()[i]);
        }
    }
    mlb
}

fn nhl_board() -> (v: Vec<Game>)
    ensures
        board_matches(League::Nhl, v@, nhl_slate()),
{
    let edm = team("EDM", "Edmonton", "Oilers", "49-27", [252, 100, 30], [65, 105, 225], League::Nhl);
    let dal = team("DAL", "Dallas", "Stars", "52-21", [0, 200, 130], [220, 220, 220], League::Nhl);
    let bos = team("BOS", "Boston", "Bruins", "44-32", [252, 181, 20], [17, 17, 17], League::Nhl);
    let tor = team("TOR", "Toronto", "Maple Leafs", "46-30", [0, 32, 91], [220, 220, 220], League::Nhl);
    let mut nhl: Vec<Game> = Vec::new();
    let mut lp: Vec<Play> = Vec::new();
    lp.push(play("1:03", "EDM", "Leon Draisaitl snap shot GOAL (32)  [3-2]", true));
    lp.push(play("2:37", "DAL", "Roope Hintz tip-in goal  [2-2]", true));
    lp.push(play("4:11", "EDM", "Evan Bouchard shot on goal", false));
    lp.push(play("5:09", "DAL", "Jamie Benn hit", false));
    proof {
        lemma_mirror_of_four(lp@);
    }
    nhl.push(seal(Game {
        id: owned("nhl-live"),
        league: League::Nhl,
        away: edm,
        home: dal,
        away_score: 3,
        home_score: 2,
        status: Status::Live,
        period: owned("2ND"),
        clock: owned("1:03"),
        last_plays: lp,
        meter: Some(Meter::Penalty { team_abbr: owned("DAL"), seconds: 42 }),
        broadcast: Some(owned("ESPN")),
        ..Game::default()
    }));
    nhl.push(final_game("nhl-final", League::Nhl, bos, tor, 4, 2, "Pastrnak two goals, Swayman 31 saves"));
    proof {
        assert forall|i: int| 0 <= i < nhl@.len() implies entry_of(nhl@[i]) == nhl_slate()[i] by {
            assert(entry_of(nhl@[i]) =~~= nhl_slate()[i]);
        }
    }
    nhl
}

fn epl_board() -> (v: Vec<Game>)
    ensures
        board_matches(League::Epl, v@, epl_slate()),
{
    let liv = team("LIV", "Liverpool", "Liverpool", "0-2-0", [211, 19, 23], [220, 220, 220], League::Epl);
    let ars = team("ARS", "London", "Arsenal", "1-1-0", [239, 1, 7], [220, 220, 220], League::Epl);
    let mci = team("MCI", "Manchester", "Man City", "2-0-0", [108, 171, 221], [220, 220, 220], League::Epl);
    let che = team("CHE", "London", "Chelsea", "1-0-1", [3, 70, 148], [220, 220, 220], League::Epl);
    let mut epl: Vec<Game> = Vec::new();
    let mut lp: Vec<Play> = Vec::new();
    lp.push(play("76'", "LIV", "Mohamed Salah right-footed GOAL from the box  [2-1]", true));
    lp.push(play("64'", "ARS", "Bukayo Saka curls one in from the edge  [1-1]", true));
    lp.push(play("58'", "LIV", "Virgil van Dijk header cleared off the line", false));
    lp.push(play("51'", "ARS", "Declan Rice booked for a late challenge", false));
    proof {
        lemma_mirror_of_four(lp@);
    }
    let mut ev: Vec<MatchEvent> = Vec::new();
    ev.push(MatchEvent { minute: owned("51'"), kind: EventKind::Yellow, team: owned("ARS"), player: owned("Rice") });
    ev.push(MatchEvent { minute: owned("64'"), kind: EventKind::Goal, team: owned("ARS"), player: owned("Saka") });
    ev.push(MatchEvent { minute: owned("76'"), kind: EventKind::Goal, team: owned("LIV"), player: owned("Salah") });
    epl.push(seal(Game {
        id: owned("epl-live"),
        league: League::Epl,
        away: ars,
        home: liv,
        away_score: 1,
        home_score: 2,
        status: Status::Live,
        period: owned("78'"),
        clock: String::new(),
        last_plays: lp,
        extras: Extras::Soccer { events: ev, men: None },
        broadcast: Some(owned("NBC")),
        ..Game::default()
    }));
    epl.push(final_game("epl-final", League::Epl, mci, che, 2, 2, "Haaland levels it in the 88th"));
    proof {
        assert forall|i: int| 0 <= i < epl@.len() implies entry_of(epl@[i]) == epl_slate()[i] by {
            assert(entry_of(epl@[i]) =~~= epl_slate()[i]);
        }
    }
    epl
}

/// The demo slate: fifteen games over five boards (NFL, NBA, MLB, NHL,
/// EPL) — seven live, five final, three later — enough to overflow the
/// gallery frame. Each game authored with recent plays carries their scoring
/// rows, oldest first, as its scoring plays; a final keeps its headline.
pub fn demo_boards() -> (b: Vec<(League, Vec<Game>)>)
    ensures
        is_demo_slate(b@),
        count_status(b@[0].1@, Status::Live, 7) == 2 && count_status(b@[0].1@, Status::Final, 7) == 2
            && count_status(b@[0].1@, Status::Pre, 7) == 3,
        count_status(b@[1].1@, Status::Live, 1) == 1,
        count_status(b@[2].1@, Status::Live, 3) == 2 && count_status(b@[2].1@, Status::Final, 3) == 1,
        count_status(b@[3].1@, Status::Live, 2) == 1 && count_status(b@[3].1@, Status::Final, 2) == 1,
        count_status(b@[4].1@, Status::Live, 2) == 1 && count_status(b@[4].1@, Status::Final, 2) == 1,
{
    let mut boards: Vec<(League, Vec<Game>)> = Vec::new();
    boards.push((League::Nfl, nfl_board()));
    boards.push((League::Nba, nba_board()));
    boards.push((League::Mlb, mlb_board()));
    boards.push((League::Nhl, nhl_board()));
    boards.push((League::Epl, epl_board()));
    proof {
        reveal_with_fuel(count_status, 8);
        assert forall|k: int| 0 <= k < boards@.len() implies (#[trigger] boards@[k]).0 == demo_slate()[k].0
            && board_matches(boards@[k].0, boards@[k].1@, demo_slate()[k].1) by {
            if k == 0 {
            } else if k == 1 {
            } else if k == 2 {
            } else if k == 3 {
            } else {
            }
        }
        let n = boards@[0].1@;
        assert(entry_of(n[0]).status == Status::Live && entry_of(n[1]).status == Status::Pre);
        assert(entry_of(n[2]).status == Status::Live && entry_of(n[3]).status == Status::Final);
        assert(entry_of(n[4]).status == Status::Final && entry_of(n[5]).status == Status::Pre);
        assert(entry_of(n[6]).status == Status::Pre);
        let m = boards@[2].1@;
        assert(entry_of(m[0]).status == Status::Live && entry_of(m[1]).status == Status::Live);
        assert(entry_of(m[2]).status == Status::Final);
        assert(entry_of(boards@[1].1@[0]).status == Status::Live);
        assert(entry_of(boards@[3].1@[0]).status == Status::Live);
        assert(entry_of(boards@[3].1@[1]).status == Status::Final);
        assert(entry_of(boards@[4].1@[0]).status == Status::Live);
        assert(entry_of(boards@[4].1@[1]).status == Status::Final);
    }
    boards
}

/// Every game the demo pins stands on the demo board, under the pin's
/// league, and is live.
pub proof fn lemma_demo_pins_stand_on_the_board(b: Seq<(League, Vec<Game>)>, p: Seq<Pin>)
    requires
        is_demo_slate(b),
        is_demo_pins(p),
    ensures
        forall|j: int|
            0 <= j < p.len() ==> exists|k: int, i: int|
                0 <= k < b.len() && 0 <= i < b[k].1@.len() && b[k].0 == (#[trigger] p[j]).league && b[k].1@[i].id@
                    == p[j].game_id@ && b[k].1@[i].status == Status::Live,
{
    assert(b[0].0 == demo_slate()[0].0);
    assert(entry_of(b[0].1@[0]) == nfl_slate()[0]);
}

} // verus!
