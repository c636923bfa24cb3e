//! The `/` filter: prefix tokens over team words, not a substring over every
//! field. A token has to start the abbr or a word of the location or name,
//! and every token has to land on one of the two teams. A token that is a
//! league slug scopes the query to that league.
use vstd::prelude::*;
use crate::domain::{league_of_slug, Game, League, Team};
use crate::text::{
    all_ascii, char_is_alphanumeric, chars_of, is_alnum, lemma_lower_of_upper, lemma_words_ascii, lemma_words_upper,
    lower, lower_ascii_seq, split_ws, starts_with, str_to_lowercase, string_of, upper_ascii_seq, views, words,
};

verus! {

broadcast use vstd::seq_lib::group_seq_properties;

/// A parsed filter.
#[derive(Clone, Debug, PartialEq, Eq, Default)]
pub struct Query {
    /// Lowercased tokens; each must prefix-match a word of either team.
    tokens: Vec<String>,
    /// Set by the first token that is a league slug; a second slug stays a
    /// plain token (and matches nothing), which is the honest reading.
    league: Option<League>,
}

/// Reading the words of a filter left to right: `(tokens, league)`.
pub open spec fn read_words(ws: Seq<Seq<char>>) -> (Seq<Seq<char>>, Option<League>)
    decreases ws.len(),
{
    if ws.len() == 0 {
        (Seq::empty(), None)
    } else {
        let (toks, lg) = read_words(ws.drop_last());
        let tok = lower(ws.last());
        match (lg, league_of_slug(tok)) {
            (None, Some(l)) => (toks, Some(l)),
            _ => (toks.push(tok), lg),
        }
    }
}

/// `read_words` for an ASCII line, where lowercasing is ASCII lowercasing.
pub open spec fn read_words_ascii(ws: Seq<Seq<char>>) -> (Seq<Seq<char>>, Option<League>)
    decreases ws.len(),
{
    if ws.len() == 0 {
        (Seq::empty(), None)
    } else {
        let (toks, lg) = read_words_ascii(ws.drop_last());
        let tok = lower_ascii_seq(ws.last());
        match (lg, league_of_slug(tok)) {
            (None, Some(l)) => (toks, Some(l)),
            _ => (toks.push(tok), lg),
        }
    }
}

/// A word starts with the token as written, or with its punctuation
/// stripped (`hawaii` reaches `Hawai'i`, `oh` reaches `(OH)`).
pub open spec fn word_hit(w: Seq<char>, t: Seq<char>) -> bool {
    t.is_prefix_of(lower(w)) || t.is_prefix_of(lower(w).filter(|c: char| is_alnum(c)))
}

/// The token starts the team's abbr or a word of its location or name.
pub open spec fn team_hit(team: Team, t: Seq<char>) -> bool {
    t.is_prefix_of(lower(team.abbr@)) || exists|k: int| 0 <= k < team_words(team).len() && word_hit(
        #[trigger] team_words(team)[k],
        t,
    )
}

/// The words of a team's location, then of its name.
pub open spec fn team_words(team: Team) -> Seq<Seq<char>> {
    words(team.location@) + words(team.name@)
}

/// The game passes the filter: in the scoped league, if any, and every
/// token lands on one of the two teams.
pub open spec fn matches_spec(tokens: Seq<Seq<char>>, league: Option<League>, game: Game) -> bool {
    &&& (league.is_none() || league == Some(game.league))
    &&& forall|i: int| 0 <= i < tokens.len() ==> team_hit(game.away, #[trigger] tokens[i]) || team_hit(game.home, tokens[i])
}

fn strip_alnum(v: &Vec<char>) -> (r: Vec<char>)
    ensures
        r@ == v@.filter(|c: char| is_alnum(c)),
{
    let mut r: Vec<char> = Vec::new();
    let mut i: usize = 0;
    while i < v.len()
        invariant
            i <= v.len(),
            r@ == v@.take(i as int).filter(|c: char| is_alnum(c)),
        decreases v.len() - i,
    {
        reveal_with_fuel(Seq::<_>::filter, 1);
        assert(v@.take(i + 1).drop_last() =~= v@.take(i as int));
        if char_is_alphanumeric(v[i]) {
            r.push(v[i]);
        }
        i += 1;
    }
    assert(v@.take(v.len() as int) =~= v@);
    r
}

fn word_hits(w: &Vec<char>, t: &Vec<char>) -> (r: bool)
    ensures
        r == word_hit(w@, t@),
{
    let lw = chars_of(str_to_lowercase(string_of(w).as_str()).as_str());
    starts_with(&lw, t) || starts_with(&strip_alnum(&lw), t)
}

/// Whether `token` starts a word of `team`: its abbr, or a word of its
/// location or name, as written or with punctuation stripped.
pub fn starts_a_word(team: &Team, token: &str) -> (r: bool)
    ensures
        r == team_hit(*team, token@),
{
    let t = chars_of(token);
    let abbr = chars_of(str_to_lowercase(team.abbr.as_str()).as_str());
    let ws1 = split_ws(&chars_of(team.location.as_str()));
    let ws2 = split_ws(&chars_of(team.name.as_str()));
    let ghost all = team_words(*team);
    proof {
        assert(views(ws1@).len() == ws1@.len());
        assert(views(ws2@).len() == ws2@.len());
    }
    let hit_abbr = starts_with(&abbr, &t);
    let mut i: usize = 0;
    while i < ws1.len()
        invariant
            i <= ws1.len(),
            views(ws1@) == words(team.location@),
            views(ws2@) == words(team.name@),
            all == team_words(*team),
            t@ == token@,
            forall|k: int| 0 <= k < i ==> !word_hit(#[trigger] all[k], t@),
        decreases ws1.len() - i,
    {
        assert(all[i as int] == ws1@[i as int]@);
        if word_hits(&ws1[i], &t) {
            assert(word_hit(all[i as int], t@));
            return true;
        }
        i += 1;
    }
    let mut j: usize = 0;
    while j < ws2.len()
        invariant
            j <= ws2.len(),
            i == ws1.len(),
            views(ws1@) == words(team.location@),
            views(ws2@) == words(team.name@),
            all == team_words(*team),
            t@ == token@,
            hit_abbr == token@.is_prefix_of(lower(team.abbr@)),
            forall|k: int| 0 <= k < i + j ==> !word_hit(#[trigger] all[k], t@),
        decreases ws2.len() - j,
    {
        assert(all[(i + j) as int] == ws2@[j as int]@);
        if word_hits(&ws2[j], &t) {
            assert(word_hit(all[(i + j) as int], t@));
            return true;
        }
        j += 1;
    }
    hit_abbr
}

impl Query {
    pub closed spec fn tokens_spec(self) -> Seq<Seq<char>> {
        self.tokens@.map_values(|s: String| s@)
    }

    pub closed spec fn league_spec(self) -> Option<League> {
        self.league
    }

    /// Reads a filter line: lowercased whitespace-separated tokens, the
    /// first league slug among them scoping the query.
    pub fn parse(s: &str) -> (q: Query)
        ensures
            (q.tokens_spec(), q.league_spec()) == read_words(words(s@)),
            all_ascii(s@) ==> (q.tokens_spec(), q.league_spec()) == read_words_ascii(words(s@)),
    {
        let ws = split_ws(&chars_of(s));
        let ghost wv = views(ws@);
        proof {
            if all_ascii(s@) {
                lemma_words_ascii(s@);
            }
        }
        let mut tokens: Vec<String> = Vec::new();
        let mut league: Option<League> = None;
        let mut i: usize = 0;
        while i < ws.len()
            invariant
                i <= ws.len(),
                wv == views(ws@),
                wv == words(s@),
                (tokens@.map_values(|x: String| x@), league) == read_words(wv.take(i as int)),
                all_ascii(s@) ==> forall|k: int| 0 <= k < wv.len() ==> all_ascii(#[trigger] wv[k]),
                all_ascii(s@) ==> (tokens@.map_values(|x: String| x@), league) == read_words_ascii(wv.take(i as int)),
            decreases ws.len() - i,
        {
            assert(wv.take(i + 1).drop_last() =~= wv.take(i as int));
            assert(wv.take(i + 1).last() == ws@[i as int]@);
            let tok = str_to_lowercase(string_of(&ws[i]).as_str());
            proof {
                if all_ascii(s@) {
                    assert(all_ascii(wv[i as int]));
                }
            }
            let slug = League::from_slug(tok.as_str());
            let ghost prev = tokens@;
            match (league, slug) {
                (None, Some(l)) => {
                    league = Some(l);
                },
                _ => {
                    tokens.push(tok);
                    assert(tokens@.map_values(|x: String| x@) =~= prev.map_values(|x: String| x@).push(
                        tokens@.last()@,
                    ));
                },
            }
            i += 1;
        }
        assert(wv.take(ws.len() as int) =~= wv);
        Query { tokens, league }
    }

    pub fn is_empty(&self) -> (r: bool)
        ensures
            r == (self.tokens_spec().len() == 0 && self.league_spec().is_none()),
    {
        self.tokens.len() == 0 && self.league.is_none()
    }

    /// Whether `game` passes this filter.
    pub fn matches(&self, game: &Game) -> (r: bool)
        ensures
            r == matches_spec(self.tokens_spec(), self.league_spec(), *game),
    {
        if let Some(l) = self.league {
            if l != game.league {
                return false;
            }
        }
        let mut i: usize = 0;
        while i < self.tokens.len()
            invariant
                i <= self.tokens.len(),
                self.league.is_none() || self.league == Some(game.league),
                forall|k: int| 0 <= k < i ==> team_hit(game.away, #[trigger] self.tokens_spec()[k]) || team_hit(
                    game.home,
                    self.tokens_spec()[k],
                ),
            decreases self.tokens.len() - i,
        {
            assert(self.tokens_spec()[i as int] == self.tokens@[i as int]@);
            let t = self.tokens[i].as_str();
            if !(starts_a_word(&game.away, t) || starts_a_word(&game.home, t)) {
                return false;
            }
            i += 1;
        }
        true
    }
}

/// An empty filter matches every game.
pub proof fn lemma_empty_query_matches_everything(q: Query, game: Game)
    requires
        q.tokens_spec().len() == 0,
        q.league_spec().is_none(),
    ensures
        matches_spec(q.tokens_spec(), q.league_spec(), game),
{
}

/// A league slug scopes: a scoped query matches only games of its league.
pub proof fn lemma_slug_scopes(q: Query, game: Game, l: League)
    requires
        q.league_spec() == Some(l),
        matches_spec(q.tokens_spec(), q.league_spec(), game),
    ensures
        game.league == l,
{
}

/// Every token must land: a game that passes a query passes every query
/// made of a subset of its tokens under the same scope.
pub proof fn lemma_fewer_tokens_match_more(
    tokens: Seq<Seq<char>>,
    fewer: Seq<Seq<char>>,
    league: Option<League>,
    game: Game,
)
    requires
        forall|i: int| 0 <= i < fewer.len() ==> tokens.contains(#[trigger] fewer[i]),
        matches_spec(tokens, league, game),
    ensures
        matches_spec(fewer, league, game),
{
    assert forall|i: int| 0 <= i < fewer.len() implies team_hit(game.away, #[trigger] fewer[i])
        || team_hit(game.home, fewer[i]) by {
        let k = choose|k: int| 0 <= k < tokens.len() && tokens[k] == fewer[i];
        assert(team_hit(game.away, tokens[k]) || team_hit(game.home, tokens[k]));
    }
}

proof fn lemma_read_upper(ws: Seq<Seq<char>>)
    ensures
        read_words_ascii(ws.map_values(|w: Seq<char>| upper_ascii_seq(w))) == read_words_ascii(ws),
    decreases ws.len(),
{
    if ws.len() > 0 {
        let f = |w: Seq<char>| upper_ascii_seq(w);
        assert(ws.map_values(f).drop_last() =~= ws.drop_last().map_values(f));
        lemma_read_upper(ws.drop_last());
        lemma_lower_of_upper(ws.last());
    }
}

/// Reading a filter ignores ASCII case: a line and its ASCII uppercase give
/// the same tokens and the same scope (so `RED` finds the Red Sox as `red`
/// does), and the uppercase of an ASCII line is ASCII, which `Query::parse`
/// reads by `read_words_ascii`.
pub proof fn lemma_filter_ignores_ascii_case(s: Seq<char>)
    ensures
        read_words_ascii(words(upper_ascii_seq(s))) == read_words_ascii(words(s)),
        all_ascii(s) ==> all_ascii(upper_ascii_seq(s)),
{
    lemma_words_upper(s);
    lemma_read_upper(words(s));
    if all_ascii(s) {
        let u = upper_ascii_seq(s);
        assert forall|i: int| 0 <= i < u.len() implies (#[trigger] u[i] as u32) < 128 by {
            assert((s[i] as u32) < 128);
            if 'a' <= s[i] && s[i] <= 'z' {
                assert(((s[i] as u32) - 32) as char as u32 == (s[i] as u32) - 32);
            }
        }
    }
}

/// A filter is empty exactly when its line has no word: a lone league
/// slug still scopes, and any other word is a token.
pub proof fn lemma_empty_exactly_without_words(ws: Seq<Seq<char>>)
    ensures
        (read_words(ws).0.len() == 0 && read_words(ws).1.is_none()) <==> ws.len() == 0,
{
}

/// A word that, lowercased, is a league slug.
pub open spec fn is_slug_word(w: Seq<char>) -> bool {
    league_of_slug(lower(w)) is Some
}

proof fn lemma_read_step(ws: Seq<Seq<char>>)
    requires
        ws.len() > 0,
    ensures
        read_words(ws) == ({
            let (toks, lg) = read_words(ws.drop_last());
            let tok = lower(ws.last());
            match (lg, league_of_slug(tok)) {
                (None, Some(l)) => (toks, Some(l)),
                _ => (toks.push(tok), lg),
            }
        }),
{
}

/// With no slug among its words, a filter line's words, lowercased, are all
/// tokens, and nothing scopes it.
pub proof fn lemma_no_slug_no_scope(ws: Seq<Seq<char>>)
    requires
        forall|i: int| 0 <= i < ws.len() ==> !is_slug_word(#[trigger] ws[i]),
    ensures
        read_words(ws) == (ws.map_values(|w: Seq<char>| lower(w)), None::<League>),
    decreases ws.len(),
{
    let f = |w: Seq<char>| lower(w);
    if ws.len() > 0 {
        let d = ws.drop_last();
        assert forall|k: int| 0 <= k < d.len() implies !is_slug_word(#[trigger] d[k]) by {
            assert(d[k] == ws[k]);
        }
        lemma_no_slug_no_scope(d);
        lemma_read_step(ws);
        assert(!is_slug_word(ws[ws.len() - 1]));
        assert(ws.map_values(f) =~= d.map_values(f).push(lower(ws.last())));
    } else {
        assert(ws.map_values(f) =~= Seq::<Seq<char>>::empty());
    }
}

/// The FIRST slug word of a filter line scopes the query to its league,
/// and every other word, lowercased and in order, is a token — a second
/// slug included.
pub proof fn lemma_first_slug_scopes(ws: Seq<Seq<char>>, i: int)
    requires
        0 <= i < ws.len(),
        is_slug_word(ws[i]),
        forall|j: int| 0 <= j < i ==> !is_slug_word(#[trigger] ws[j]),
    ensures
        read_words(ws) == ((ws.take(i) + ws.skip(i + 1)).map_values(|w: Seq<char>| lower(w)), league_of_slug(
            lower(ws[i]),
        )),
    decreases ws.len(),
{
    let f = |w: Seq<char>| lower(w);
    let n = ws.len() as int;
    let d = ws.drop_last();
    lemma_read_step(ws);
    if i == n - 1 {
        assert forall|k: int| 0 <= k < d.len() implies !is_slug_word(#[trigger] d[k]) by {
            assert(d[k] == ws[k]);
        }
        lemma_no_slug_no_scope(d);
        assert(ws.take(i) + ws.skip(i + 1) =~= d);
    } else {
        assert(d[i] == ws[i]);
        assert forall|j: int| 0 <= j < i implies !is_slug_word(#[trigger] d[j]) by {
            assert(d[j] == ws[j]);
        }
        lemma_first_slug_scopes(d, i);
        assert((ws.take(i) + ws.skip(i + 1)).map_values(f) =~= (d.take(i) + d.skip(i + 1)).map_values(f).push(
            lower(ws.last()),
        ));
    }
}

} // verus!
