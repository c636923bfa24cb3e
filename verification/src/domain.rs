//! The scoreboard's vocabulary: leagues, teams, plays and games, as the
//! feed describes them.
use vstd::prelude::*;
use crate::text::{append, append_dec, dec, str_eq};

verus! {

/// A league the board can show.
#[derive(Clone, Copy, Debug, PartialEq, Eq, Hash, Structural)]
pub enum League {
    Nfl,
    Cfb,
    Cbb,
    Nba,
    Wnba,
    Nhl,
    Mlb,
    Epl,
    Mls,
}

/// The short command-line name of each league.
pub open spec fn slug_of(l: League) -> Seq<char> {
    match l {
        League::Nfl => "nfl"@,
        League::Cfb => "cfb"@,
        League::Cbb => "cbb"@,
        League::Nba => "nba"@,
        League::Wnba => "wnba"@,
        League::Nhl => "nhl"@,
        League::Mlb => "mlb"@,
        League::Epl => "epl"@,
        League::Mls => "mls"@,
    }
}

/// ESPN's URL parts for a league: (sport, competition).
pub open spec fn espn_path_of(l: League) -> (Seq<char>, Seq<char>) {
    match l {
        League::Nfl => ("football"@, "nfl"@),
        League::Cfb => ("football"@, "college-football"@),
        League::Cbb => ("basketball"@, "mens-college-basketball"@),
        League::Nba => ("basketball"@, "nba"@),
        League::Wnba => ("basketball"@, "wnba"@),
        League::Nhl => ("hockey"@, "nhl"@),
        League::Mlb => ("baseball"@, "mlb"@),
        League::Epl => ("soccer"@, "eng.1"@),
        League::Mls => ("soccer"@, "usa.1"@),
    }
}

/// Every league, in the order tabs, completion and errors list them.
pub open spec fn all_leagues() -> Seq<League> {
    seq![
        League::Nfl,
        League::Cfb,
        League::Cbb,
        League::Nba,
        League::Wnba,
        League::Nhl,
        League::Mlb,
        League::Epl,
        League::Mls,
    ]
}

/// Each league appears in `all_leagues` exactly once.
pub proof fn lemma_all_leagues_complete(l: League)
    ensures
        all_leagues().contains(l),
        all_leagues().no_duplicates(),
{
    match l {
        League::Nfl => assert(all_leagues()[0] == l),
        League::Cfb => assert(all_leagues()[1] == l),
        League::Cbb => assert(all_leagues()[2] == l),
        League::Nba => assert(all_leagues()[3] == l),
        League::Wnba => assert(all_leagues()[4] == l),
        League::Nhl => assert(all_leagues()[5] == l),
        League::Mlb => assert(all_leagues()[6] == l),
        League::Epl => assert(all_leagues()[7] == l),
        League::Mls => assert(all_leagues()[8] == l),
    }
}

/// No two leagues share a slug.
pub proof fn lemma_slugs_distinct(a: League, b: League)
    ensures
        slug_of(a) == slug_of(b) ==> a == b,
{
    reveal_strlit("nfl");
    reveal_strlit("cfb");
    reveal_strlit("cbb");
    reveal_strlit("nba");
    reveal_strlit("wnba");
    reveal_strlit("nhl");
    reveal_strlit("mlb");
    reveal_strlit("epl");
    reveal_strlit("mls");
    if slug_of(a) == slug_of(b) && a != b {
        assert(slug_of(a).len() == slug_of(b).len());
        assert(slug_of(a)[0] == slug_of(b)[0]);
        assert(slug_of(a)[1] == slug_of(b)[1]);
        assert(slug_of(a)[2] == slug_of(b)[2]);
    }
}

impl League {
    pub const ALL: [League; 9] = [
        League::Nfl,
        League::Cfb,
        League::Cbb,
        League::Nba,
        League::Wnba,
        League::Nhl,
        League::Mlb,
        League::Epl,
        League::Mls,
    ];

    /// Every league as a vector, in `ALL` order.
    pub fn all() -> (v: Vec<League>)
        ensures
            v@ == all_leagues(),
    {
        let v = vec![
            League::Nfl,
            League::Cfb,
            League::Cbb,
            League::Nba,
            League::Wnba,
            League::Nhl,
            League::Mlb,
            League::Epl,
            League::Mls,
        ];
        assert(v@ =~= all_leagues());
        v
    }

    /// ESPN URL parts: (sport, competition slug). Soccer competitions use
    /// ESPN's league codes ("eng.1", "usa.1") rather than a name slug.
    pub fn espn_path(self) -> (r: (&'static str, &'static str))
        ensures
            (r.0@, r.1@) == espn_path_of(self),
    {
        match self {
            League::Nfl => ("football", "nfl"),
            League::Cfb => ("football", "college-football"),
            League::Cbb => ("basketball", "mens-college-basketball"),
            League::Nba => ("basketball", "nba"),
            League::Wnba => ("basketball", "wnba"),
            League::Nhl => ("hockey", "nhl"),
            League::Mlb => ("baseball", "mlb"),
            League::Epl => ("soccer", "eng.1"),
            League::Mls => ("soccer", "usa.1"),
        }
    }

    pub fn slug(self) -> (r: &'static str)
        ensures
            r@ == slug_of(self),
    {
        match self {
            League::Nfl => "nfl",
            League::Cfb => "cfb",
            League::Cbb => "cbb",
            League::Nba => "nba",
            League::Wnba => "wnba",
            League::Nhl => "nhl",
            League::Mlb => "mlb",
            League::Epl => "epl",
            League::Mls => "mls",
        }
    }

    /// The league whose slug is exactly `s` (case-sensitive).
    pub fn from_slug(s: &str) -> (r: Option<League>)
        ensures
            r == league_of_slug(s@),
    {
        let all = League::all();
        let mut i: usize = 0;
        while i < all.len()
            invariant
                i <= all.len(),
                all@ == all_leagues(),
                forall|j: int| 0 <= j < i ==> slug_of(#[trigger] all@[j]) != s@,
            decreases all.len() - i,
        {
            if str_eq(all[i].slug(), s) {
                proof {
                    lemma_slug_lookup(all@[i as int]);
                }
                return Some(all[i]);
            }
            i += 1;
        }
        proof {
            assert forall|l: League| slug_of(l) != s@ by {
                lemma_all_leagues_complete(l);
                let k = choose|k: int| 0 <= k < all_leagues().len() && all_leagues()[k] == l;
                assert(slug_of(all@[k]) != s@);
            }
        }
        None
    }
}

/// The league a slug names, if any.
pub open spec fn league_of_slug(s: Seq<char>) -> Option<League> {
    if exists|l: League| slug_of(l) == s {
        Some(choose|l: League| slug_of(l) == s)
    } else {
        None
    }
}

/// A slug names exactly its own league.
proof fn lemma_slug_lookup(l: League)
    ensures
        league_of_slug(slug_of(l)) == Some(l),
{
    let m = choose|m: League| slug_of(m) == slug_of(l);
    lemma_slugs_distinct(m, l);
}

/// `from_slug` undoes `slug`: every league's slug reads back as that league.
pub proof fn lemma_from_slug_roundtrip(l: League)
    ensures
        league_of_slug(slug_of(l)) == Some(l),
{
    lemma_slug_lookup(l);
}

/// Where a game stands.
#[derive(Clone, Copy, Debug, PartialEq, Eq, Hash, Structural)]
pub enum Status {
    Pre,
    Live,
    Final,
}

/// One side of a game.
#[derive(Clone, Debug, PartialEq, Eq)]
pub struct Team {
    pub id: String,
    pub abbr: String,
    pub name: String,
    /// City / market ("KANSAS CITY"). Empty when the feed only had a display name.
    pub location: String,
    /// Overall record ("11-6"). Empty when unknown.
    pub record: String,
    pub color: [u8; 3],
    pub alt_color: [u8; 3],
    pub logo_key: String,
    /// AP/coaches rank for college sports; None for pro leagues and unranked teams.
    pub rank: Option<u8>,
}

impl Default for Team {
    fn default() -> (t: Team)
        ensures
            t.abbr@.len() == 0,
            t.name@.len() == 0,
            t.location@.len() == 0,
            t.rank.is_none(),
    {
        Team {
            id: String::new(),
            abbr: String::new(),
            name: String::new(),
            location: String::new(),
            record: String::new(),
            color: [0, 0, 0],
            alt_color: [0, 0, 0],
            logo_key: String::new(),
            rank: None,
        }
    }
}

/// Structural classification of a play, from the feed's per-league type ids.
#[derive(Clone, Copy, PartialEq, Eq, Debug, Structural)]
pub enum PlayKind {
    Touchdown,
    FieldGoal,
    Safety,
    HomeRun,
    RunScoringPlay,
    Goal,
    OwnGoal,
    PenaltyGoal,
    YellowCard,
    RedCard,
    HockeyPenalty,
    ThreePointer,
    /// Everything unmapped.
    Other,
}

impl Default for PlayKind {
    fn default() -> (k: PlayKind)
        ensures
            k == PlayKind::Other,
    {
        PlayKind::Other
    }
}

/// One play off the feed.
#[derive(Clone, Debug, PartialEq, Eq)]
pub struct Play {
    /// The feed's play id; empty for demo and simulated plays.
    pub id: String,
    pub clock: String,
    /// Period label for sports without a play clock: baseball `B9`/`T7`.
    pub period: String,
    /// Abbr of the team credited with the play. Empty when unknown.
    pub team: String,
    pub text: String,
    pub scoring: bool,
    pub kind: PlayKind,
    /// Runs/points this play was worth, where the feed says so.
    pub score_value: Option<u8>,
    /// The running (away, home) score right after this play, where the feed
    /// carries one.
    pub score_after: Option<(u16, u16)>,
}

impl Default for Play {
    fn default() -> (p: Play)
        ensures
            p.id@.len() == 0,
            p.text@.len() == 0,
            p.team@.len() == 0,
            !p.scoring,
            p.kind == PlayKind::Other,
            p.score_after.is_none(),
    {
        Play {
            id: String::new(),
            clock: String::new(),
            period: String::new(),
            team: String::new(),
            text: String::new(),
            scoring: false,
            kind: PlayKind::Other,
            score_value: None,
            score_after: None,
        }
    }
}

/// The live situation of a game, where the feed reports one.
#[derive(Clone, Debug, PartialEq, Eq)]
pub struct Situation {
    /// Headline situation text: football "1st & Goal", baseball "2 OUT · 1-2".
    pub down_distance: String,
    pub possession: Option<String>,
    pub ball_on: Option<String>,
    pub down: Option<u8>,
    pub distance: Option<u8>,
    /// Field coordinate 0..=100 from the home goal line.
    pub yard_line: Option<u8>,
    pub is_red_zone: Option<bool>,
    pub drive_desc: Option<String>,
    pub balls: Option<u8>,
    pub strikes: Option<u8>,
    pub outs: Option<u8>,
    /// Base runners as [first, second, third].
    pub on_base: Option<[bool; 3]>,
    pub pitcher: Option<String>,
    pub batter: Option<String>,
    pub due_up: Vec<String>,
    /// Basketball shot clock in seconds.
    pub shot_clock: Option<u8>,
}

impl Default for Situation {
    fn default() -> (s: Situation)
        ensures
            s.down_distance@.len() == 0,
            s.possession.is_none(),
            s.ball_on.is_none(),
            s.balls.is_none(),
            s.strikes.is_none(),
            s.outs.is_none(),
    {
        Situation {
            down_distance: String::new(),
            possession: None,
            ball_on: None,
            down: None,
            distance: None,
            yard_line: None,
            is_red_zone: None,
            drive_desc: None,
            balls: None,
            strikes: None,
            outs: None,
            on_base: None,
            pitcher: None,
            batter: None,
            due_up: Vec::new(),
            shot_clock: None,
        }
    }
}

/// The baseball count headline: outs first, then balls-strikes.
pub open spec fn count_headline(o: u8, b: u8, s: u8) -> Seq<char> {
    dec(o as nat) + " OUT · "@ + dec(b as nat) + "-"@ + dec(s as nat)
}

impl Situation {
    /// Baseball headline, reference-board style: "2 OUT · 1-2". `OUT` never
    /// pluralizes, and the `·` keeps the count from reading as a score. None
    /// unless all three are known.
    pub fn mlb_count_headline(&self) -> (r: Option<String>)
        ensures
            match (self.outs, self.balls, self.strikes) {
                (Some(o), Some(b), Some(s)) => r.is_some() && r.unwrap()@ == count_headline(o, b, s),
                _ => r.is_none(),
            },
    {
        match (self.outs, self.balls, self.strikes) {
            (Some(o), Some(b), Some(s)) => {
                let mut out = String::new();
                append_dec(&mut out, o as u64);
                append(&mut out, " OUT · ");
                append_dec(&mut out, b as u64);
                append(&mut out, "-");
                append_dec(&mut out, s as u64);
                Some(out)
            },
            _ => None,
        }
    }
}

/// The meter row's reading.
#[derive(Clone, Debug, PartialEq, Eq)]
pub enum Meter {
    RedZone { yards_to_goal: u8 },
    Lead { plus_minus: i16 },
    Diamond { occupied: [bool; 3] },
    Penalty { team_abbr: String, seconds: u16 },
}

#[derive(Clone, Copy, Debug, PartialEq, Eq, Structural)]
pub enum EventKind {
    Goal,
    OwnGoal,
    Penalty,
    Yellow,
    Red,
    Sub,
}

/// One soccer match event (goal, card, substitution).
#[derive(Clone, Debug, PartialEq, Eq)]
pub struct MatchEvent {
    pub minute: String,
    pub kind: EventKind,
    pub team: String,
    pub player: String,
}

/// The NHL strength stamped on the newest play.
#[derive(Clone, Copy, Debug, PartialEq, Eq, Structural)]
pub enum HockeyStrength {
    Even,
    PowerPlay,
    Shorthanded,
    EmptyNet,
}

/// One NHL penalty: the penalized side, its length and the feed's word for it.
#[derive(Clone, Debug, PartialEq, Eq)]
pub struct PenaltyEvent {
    pub team: String,
    pub minutes: u8,
    pub kind: String,
    pub period: u8,
    pub clock: String,
}

/// Per-sport facts that don't fit the shared fields.
#[derive(Clone, Debug, PartialEq, Eq)]
pub enum Extras {
    Empty,
    Baseball { hits: Option<(u16, u16)>, errors: Option<(u16, u16)> },
    /// `men` is each side's on-field count (away, home), where the feed says.
    Soccer { events: Vec<MatchEvent>, men: Option<(u8, u8)> },
    /// NHL: the current strength and every penalty called so far, oldest first.
    Hockey { strength: HockeyStrength, penalties: Vec<PenaltyEvent> },
}

impl Default for Extras {
    fn default() -> (e: Extras)
        ensures
            e is Empty,
    {
        Extras::Empty
    }
}

impl Extras {
    /// `Meter::Penalty` for a special-teams situation the feed declares: the
    /// current strength is PowerPlay or Shorthanded, and the newest penalty
    /// names the side serving it. `seconds` is the penalty's nominal length,
    /// `minutes × 60`, not the time remaining.
    pub fn penalty_meter(&self) -> (r: Option<Meter>)
        ensures
            match self {
                Extras::Hockey { strength, penalties } => {
                    if (*strength == HockeyStrength::PowerPlay || *strength == HockeyStrength::Shorthanded)
                        && penalties@.len() > 0 {
                        r == Some(Meter::Penalty {
                            team_abbr: penalties@.last().team,
                            seconds: (penalties@.last().minutes * 60) as u16,
                        })
                    } else {
                        r.is_none()
                    }
                },
                _ => r.is_none(),
            },
    {
        match self {
            Extras::Hockey { strength, penalties } => {
                let special = match strength {
                    HockeyStrength::PowerPlay => true,
                    HockeyStrength::Shorthanded => true,
                    _ => false,
                };
                if !special || penalties.len() == 0 {
                    return None;
                }
                let newest = &penalties[penalties.len() - 1];
                Some(Meter::Penalty {
                    team_abbr: newest.team.clone(),
                    seconds: (newest.minutes as u16) * 60,
                })
            },
            _ => None,
        }
    }
}

/// One game on a board.
#[derive(Clone, Debug, PartialEq, Eq)]
pub struct Game {
    pub id: String,
    pub league: League,
    pub home: Team,
    pub away: Team,
    pub home_score: u16,
    pub away_score: u16,
    pub status: Status,
    pub period: String,
    pub clock: String,
    pub situation: Option<Situation>,
    /// Newest first.
    pub last_plays: Vec<Play>,
    pub meter: Option<Meter>,
    /// Scheduled start, seconds since the Unix epoch.
    pub start: Option<i64>,
    /// Scoring plays, oldest first.
    pub scoring_plays: Vec<Play>,
    /// Per period/inning (away, home).
    pub linescore: Vec<(u16, u16)>,
    /// (away, home) timeouts remaining, football/basketball only.
    pub timeouts: Option<(u8, u8)>,
    pub extras: Extras,
    pub broadcast: Option<String>,
    /// Pre-game betting line, already formatted for display.
    pub odds: Option<String>,
    /// The scoreboard's own story line for a finished game.
    pub headline: Option<String>,
}

impl Default for Game {
    /// An empty pre-game NFL game: no plays, no start, no extras.
    fn default() -> (g: Game)
        ensures
            g.id@.len() == 0,
            g.league == League::Nfl,
            g.status == Status::Pre,
            g.home_score == 0,
            g.away_score == 0,
            g.last_plays@.len() == 0,
            g.scoring_plays@.len() == 0,
            g.linescore@.len() == 0,
            g.start.is_none(),
            g.timeouts.is_none(),
            g.extras is Empty,
            g.away.rank.is_none(),
            g.home.rank.is_none(),
    {
        Game {
            id: String::new(),
            league: League::Nfl,
            home: Team::default(),
            away: Team::default(),
            home_score: 0,
            away_score: 0,
            status: Status::Pre,
            period: String::new(),
            clock: String::new(),
            situation: None,
            last_plays: Vec::new(),
            meter: None,
            start: None,
            scoring_plays: Vec::new(),
            linescore: Vec::new(),
            timeouts: None,
            extras: Extras::Empty,
            broadcast: None,
            odds: None,
            headline: None,
        }
    }
}

/// What a game summary adds to a scoreboard game.
#[derive(Clone, Debug, PartialEq, Eq)]
pub struct Summary {
    pub last_plays: Vec<Play>,
    pub scoring_plays: Vec<Play>,
    pub meter: Option<Meter>,
    pub extras: Extras,
}

impl Default for Summary {
    /// A summary that says nothing: no plays, no meter, no extras.
    fn default() -> (s: Summary)
        ensures
            s.last_plays@.len() == 0,
            s.scoring_plays@.len() == 0,
            s.meter.is_none(),
            s.extras is Empty,
    {
        Summary { last_plays: Vec::new(), scoring_plays: Vec::new(), meter: None, extras: Extras::Empty }
    }
}

/// One box-score comparison row: "Total Yards  251  277".
#[derive(Clone, Debug, PartialEq, Eq, Default)]
pub struct StatRow {
    pub label: String,
    pub away: String,
    pub home: String,
}

/// One team's statistical leader in one category.
#[derive(Clone, Debug, PartialEq, Eq, Default)]
pub struct Leader {
    pub team: String,
    pub label: String,
    pub text: String,
}

/// Box score for one game.
#[derive(Clone, Debug, PartialEq, Eq, Default)]
pub struct GameStats {
    pub rows: Vec<StatRow>,
    pub leaders: Vec<Leader>,
}

/// One team's line in a standings group.
#[derive(Clone, Debug, PartialEq, Eq, Default)]
pub struct StandingRow {
    pub abbr: String,
    pub name: String,
    pub wins: u32,
    pub losses: u32,
    /// Ties for football, overtime losses for hockey; None otherwise.
    pub third: Option<u32>,
    pub third_label: String,
}

/// One conference/division block of a standings table.
#[derive(Clone, Debug, PartialEq, Eq, Default)]
pub struct StandingsGroup {
    pub name: String,
    pub rows: Vec<StandingRow>,
}

/// One league's standings.
#[derive(Clone, Debug, PartialEq, Eq)]
pub struct StandingsTable {
    pub league: League,
    pub season: Option<String>,
    pub groups: Vec<StandingsGroup>,
    /// When the snapshot was taken, seconds since the Unix epoch.
    pub fetched_at: Option<i64>,
}

} // verus!
