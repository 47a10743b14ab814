use std::cmp::Ordering;
use vstd::prelude::*;

verus! {

/// What a player is, as contracts speak of it.
pub struct PlayerRecord {
    pub name: Seq<char>,
    pub rating: int,
    pub games: nat,
}

/// Strict lexicographic order on names, character by character by code point.
/// For strings this is the order of their UTF-8 bytes, the order of `str`.
pub open spec fn name_less(a: Seq<char>, b: Seq<char>) -> bool
    decreases a.len(),
{
    if a.len() == 0 {
        b.len() > 0
    } else if b.len() == 0 {
        false
    } else if a[0] != b[0] {
        (a[0] as int) < (b[0] as int)
    } else {
        name_less(a.drop_first(), b.drop_first())
    }
}

/// `a` comes strictly before `b` in a ranking: higher rating first, then more games
/// played, then the name that is smaller.
pub open spec fn ranks_before(a: PlayerRecord, b: PlayerRecord) -> bool {
    ||| a.rating > b.rating
    ||| a.rating == b.rating && a.games > b.games
    ||| a.rating == b.rating && a.games == b.games && name_less(a.name, b.name)
}

/// No player of `s` ranks before one that stands earlier.
pub open spec fn is_ranked(s: Seq<Player>) -> bool {
    forall|i: int, j: int| 0 <= i < j < s.len() ==> !ranks_before(#[trigger] s[j]@, #[trigger] s[i]@)
}

/// No name is smaller than itself, and of two names at most one is smaller.
pub proof fn lemma_name_less_asymmetric(a: Seq<char>, b: Seq<char>)
    ensures
        !(name_less(a, b) && name_less(b, a)),
        !name_less(a, a),
    decreases a.len(),
{
    if a.len() > 0 && b.len() > 0 {
        lemma_name_less_asymmetric(a.drop_first(), b.drop_first());
    }
    if a.len() > 0 {
        lemma_name_less_asymmetric(a.drop_first(), a.drop_first());
    }
}

/// The order on names is transitive.
pub proof fn lemma_name_less_transitive(a: Seq<char>, b: Seq<char>, c: Seq<char>)
    requires
        name_less(a, b),
        name_less(b, c),
    ensures
        name_less(a, c),
    decreases a.len(),
{
    if a.len() > 0 && a[0] == b[0] && b[0] == c[0] {
        lemma_name_less_transitive(a.drop_first(), b.drop_first(), c.drop_first());
    }
}

/// Two different names are ordered one way or the other.
pub proof fn lemma_name_less_total(a: Seq<char>, b: Seq<char>)
    requires
        a != b,
    ensures
        name_less(a, b) || name_less(b, a),
    decreases a.len(),
{
    if a.len() > 0 && b.len() > 0 && a[0] == b[0] {
        if a.drop_first() == b.drop_first() {
            assert(a =~= seq![a[0]] + a.drop_first());
            assert(b =~= seq![b[0]] + b.drop_first());
        }
        lemma_name_less_total(a.drop_first(), b.drop_first());
    }
    if a.len() > 0 && b.len() > 0 && a[0] != b[0] {
        assert((a[0] as int) != (b[0] as int));
    }
    if a.len() == 0 && b.len() == 0 {
        assert(a =~= b);
    }
}

/// The ranking order is a strict total order: irreflexive, transitive, and any two
/// players with different names are ordered one way or the other.
pub proof fn lemma_ranking_is_total_order(a: PlayerRecord, b: PlayerRecord, c: PlayerRecord)
    ensures
        !ranks_before(a, a),
        !(ranks_before(a, b) && ranks_before(b, a)),
        ranks_before(a, b) && ranks_before(b, c) ==> ranks_before(a, c),
        a.name != b.name ==> ranks_before(a, b) || ranks_before(b, a),
{
    lemma_name_less_asymmetric(a.name, a.name);
    lemma_name_less_asymmetric(a.name, b.name);
    if name_less(a.name, b.name) && name_less(b.name, c.name) {
        lemma_name_less_transitive(a.name, b.name, c.name);
    }
    if a.name != b.name {
        lemma_name_less_total(a.name, b.name);
    }
}

/// A player: a unique name, a rating and the number of games played.
#[derive(Debug, Clone)]
pub struct Player {
    name: String,
    rating: i64,
    number_of_games: usize,
}

impl View for Player {
    type V = PlayerRecord;

    closed spec fn view(&self) -> PlayerRecord {
        PlayerRecord {
            name: self.name@,
            rating: self.rating as int,
            games: self.number_of_games as nat,
        }
    }
}

impl Player {
    pub fn new(name: String, rating: i64, number_of_games: usize) -> (p: Player)
        ensures
            p@ == (PlayerRecord { name: name@, rating: rating as int, games: number_of_games as nat }),
    {
        Player { name, rating, number_of_games }
    }

    pub fn rating(&self) -> (r: i64)
        ensures
            r == self@.rating,
    {
        self.rating
    }

    pub fn name(&self) -> (r: &str)
        ensures
            r@ == self@.name,
    {
        self.name.as_str()
    }

    pub fn numer_of_games(&self) -> (r: usize)
        ensures
            r == self@.games,
    {
        self.number_of_games
    }

    pub fn number_of_games(&self) -> (r: usize)
        ensures
            r == self@.games,
    {
        self.number_of_games
    }

    /// A copy of this player.
    pub fn snapshot(&self) -> (p: Player)
        ensures
            p@ == self@,
    {
        Player { name: self.name.clone(), rating: self.rating, number_of_games: self.number_of_games }
    }

    /// Whether this player is called `name`.
    pub fn name_is(&self, name: &String) -> (r: bool)
        ensures
            r == (self@.name == name@),
    {
        self.name == *name
    }

    /// A copy of this player with another rating.
    pub fn with_rating(&self, rating: i64) -> (p: Player)
        ensures
            p@ == (PlayerRecord { rating: rating as int, ..self@ }),
    {
        Player { name: self.name.clone(), rating, number_of_games: self.number_of_games }
    }

    /// A copy of this player with another number of games.
    pub fn with_number_of_games(&self, number_of_games: usize) -> (p: Player)
        ensures
            p@ == (PlayerRecord { games: number_of_games as nat, ..self@ }),
    {
        Player { name: self.name.clone(), rating: self.rating, number_of_games }
    }

    /// This player after one more game, which left it with `rating`.
    pub fn after_game(&self, rating: i64) -> (p: Player)
        requires
            self@.games < usize::MAX,
        ensures
            p@ == (PlayerRecord { name: self@.name, rating: rating as int, games: self@.games + 1 }),
    {
        Player { name: self.name.clone(), rating, number_of_games: self.number_of_games + 1 }
    }

    /// Whether this player comes strictly before `other` in a ranking.
    pub fn ranks_before(&self, other: &Player) -> (r: bool)
        ensures
            r == ranks_before(self@, other@),
    {
        if self.rating != other.rating {
            self.rating > other.rating
        } else if self.number_of_games != other.number_of_games {
            self.number_of_games > other.number_of_games
        } else {
            name_less_exec(self.name.as_str(), other.name.as_str())
        }
    }
}

impl PartialEq for Player {
    fn eq(&self, other: &Player) -> (r: bool) {
        self.rating == other.rating && self.number_of_games == other.number_of_games
            && self.name == other.name
    }
}

impl vstd::std_specs::cmp::PartialEqSpecImpl for Player {
    open spec fn obeys_eq_spec() -> bool {
        true
    }

    open spec fn eq_spec(&self, other: &Player) -> bool {
        self@ == other@
    }
}

impl Eq for Player {

}

/// The place of `a` relative to `b` in a ranking.
pub open spec fn ranking_order(a: PlayerRecord, b: PlayerRecord) -> Ordering {
    if ranks_before(a, b) {
        Ordering::Less
    } else if ranks_before(b, a) {
        Ordering::Greater
    } else {
        Ordering::Equal
    }
}

/// Two players are level in the ranking exactly when they are equal.
pub proof fn lemma_ranking_order_equal(a: PlayerRecord, b: PlayerRecord)
    ensures
        ranking_order(a, b) == Ordering::Equal <==> a == b,
{
    lemma_ranking_is_total_order(a, b, b);
}

/// Players compare by ranking: the better player is the smaller.
impl PartialOrd for Player {
    fn partial_cmp(&self, other: &Player) -> (r: Option<Ordering>) {
        if self.ranks_before(other) {
            Some(Ordering::Less)
        } else if other.ranks_before(self) {
            Some(Ordering::Greater)
        } else {
            Some(Ordering::Equal)
        }
    }
}

impl vstd::std_specs::cmp::PartialOrdSpecImpl for Player {
    open spec fn obeys_partial_cmp_spec() -> bool {
        true
    }

    open spec fn partial_cmp_spec(&self, other: &Player) -> Option<Ordering> {
        Some(ranking_order(self@, other@))
    }
}

/// The players in ranking order, best first: a rearrangement of `players` in which
/// no player ranks before one that stands earlier.
pub fn rank_players(players: Vec<Player>) -> (r: Vec<Player>)
    ensures
        r@.to_multiset() == players@.to_multiset(),
        is_ranked(r@),
{
    broadcast use vstd::seq_lib::group_to_multiset_ensures, vstd::multiset::group_multiset_axioms;

    let mut rest = players;
    let mut ranked: Vec<Player> = Vec::new();
    while rest.len() > 0
        invariant
            ranked@.to_multiset().add(rest@.to_multiset()) == players@.to_multiset(),
            is_ranked(ranked@),
        decreases rest.len(),
    {
        let ghost before = rest@;
        let p = rest.pop().unwrap();
        assert(before =~= rest@.push(p));
        let mut pos: usize = 0;
        while pos < ranked.len() && !p.ranks_before(&ranked[pos])
            invariant
                pos <= ranked.len(),
                forall|k: int| 0 <= k < pos ==> !ranks_before(p@, #[trigger] ranked@[k]@),
            decreases ranked.len() - pos,
        {
            pos = pos + 1;
        }
        proof {
            assert forall|i: int, j: int| 0 <= i < j < ranked@.len() + 1 implies !ranks_before(
                #[trigger] ranked@.insert(pos as int, p)[j]@,
                #[trigger] ranked@.insert(pos as int, p)[i]@,
            ) by {
                let s = ranked@.insert(pos as int, p);
                if pos < ranked@.len() {
                    lemma_ranking_is_total_order(s[j]@, p@, ranked@[pos as int]@);
                    lemma_ranking_is_total_order(s[j]@, ranked@[pos as int]@, p@);
                }
                if i == pos && j > pos {
                    assert(s[j] == ranked@[j - 1]);
                    if j - 1 > pos {
                        assert(!ranks_before(ranked@[j - 1]@, ranked@[pos as int]@));
                    }
                }
            }
        }
        let ghost shorter = ranked@;
        ranked.insert(pos, p);
        assert(ranked@.to_multiset() == shorter.to_multiset().insert(p)) by {
            assert(ranked@ == shorter.insert(pos as int, p));
            vstd::seq_lib::to_multiset_insert(shorter, pos as int, p);
        }
        assert(before.to_multiset() == rest@.to_multiset().insert(p)) by {
            vstd::seq_lib::to_multiset_build(rest@, p);
        }
        assert(ranked@.to_multiset().add(rest@.to_multiset()) =~= shorter.to_multiset().add(
            before.to_multiset(),
        ));
    }
    ranked
}

/// Whether `a` is strictly smaller than `b` in the order of names.
fn name_less_exec(a: &str, b: &str) -> (r: bool)
    ensures
        r == name_less(a@, b@),
{
    let a_len = a.unicode_len();
    let b_len = b.unicode_len();
    let mut i: usize = 0;
    assert(a@.skip(0) =~= a@);
    assert(b@.skip(0) =~= b@);
    while i < a_len && i < b_len
        invariant
            a_len == a@.len(),
            b_len == b@.len(),
            i <= a_len,
            i <= b_len,
            name_less(a@, b@) == name_less(a@.skip(i as int), b@.skip(i as int)),
        decreases a_len - i,
    {
        let ca = a.get_char(i);
        let cb = b.get_char(i);
        proof {
            assert(a@.skip(i as int)[0] == ca);
            assert(b@.skip(i as int)[0] == cb);
        }
        if ca != cb {
            return (ca as u32) < (cb as u32);
        }
        proof {
            assert(a@.skip(i as int).drop_first() =~= a@.skip(i + 1));
            assert(b@.skip(i as int).drop_first() =~= b@.skip(i + 1));
        }
        i = i + 1;
    }
    i < b_len
}

} // verus!
