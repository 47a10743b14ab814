use vstd::prelude::*;
use crate::player::{Player, PlayerRecord};

verus! {

/// A store of players keyed by name. Adding and updating both insert or
/// overwrite the record under the player's name.
pub trait EloStorage: Sized {
    /// The players held, by name.
    spec fn players(&self) -> Map<Seq<char>, PlayerRecord>;

    /// What the store keeps true of itself between calls.
    spec fn inv(&self) -> bool;

    /// Each record is held under its own name.
    proof fn lemma_names_are_keys(&self)
        requires
            self.inv(),
        ensures
            forall|k: Seq<char>| #[trigger] self.players().contains_key(k) ==> self.players()[k].name == k,
    ;

    /// Adds a player, replacing one of the same name.
    fn add_player(&mut self, player: Player)
        requires
            old(self).inv(),
        ensures
            final(self).inv(),
            final(self).players() == old(self).players().insert(player@.name, player@),
    ;

    /// Stores the state of a player, adding it if its name is new.
    fn update_player(&mut self, player: &Player)
        requires
            old(self).inv(),
        ensures
            final(self).inv(),
            final(self).players() == old(self).players().insert(player@.name, player@),
    ;

    /// The player of that name, if any.
    fn get(&self, name: &str) -> (r: Option<&Player>)
        requires
            self.inv(),
        ensures
            match r {
                Some(p) => self.players().contains_key(name@) && p@ == self.players()[name@] && p@.name == name@,
                None => !self.players().contains_key(name@),
            },
    ;

    /// Every player held, each once, in no particular order.
    fn all_players(&self) -> (r: Vec<Player>)
        requires
            self.inv(),
        ensures
            lists_players(r@, self.players()),
    ;
}

/// `s` holds the players of `m`, each exactly once.
pub open spec fn lists_players(s: Seq<Player>, m: Map<Seq<char>, PlayerRecord>) -> bool {
    &&& names_unique(s)
    &&& forall|i: int| 0 <= i < s.len() ==> m.contains_key(#[trigger] s[i]@.name) && m[s[i]@.name] == s[i]@
    &&& forall|k: Seq<char>| #[trigger] m.contains_key(k) ==> exists|i: int| 0 <= i < s.len() && s[i]@.name == k
}

/// No two players of `s` share a name.
pub open spec fn names_unique(s: Seq<Player>) -> bool {
    forall|i: int, j: int| 0 <= i < j < s.len() ==> (#[trigger] s[i])@.name != (#[trigger] s[j])@.name
}

/// The players of `s` by name; a later one wins over an earlier one of the same name.
pub open spec fn records(s: Seq<Player>) -> Map<Seq<char>, PlayerRecord>
    decreases s.len(),
{
    if s.len() == 0 {
        Map::empty()
    } else {
        records(s.drop_last()).insert(s.last()@.name, s.last()@)
    }
}

proof fn lemma_records_keys(s: Seq<Player>, k: Seq<char>)
    ensures
        records(s).contains_key(k) <==> exists|i: int| 0 <= i < s.len() && s[i]@.name == k,
        records(s).contains_key(k) ==> records(s)[k].name == k,
    decreases s.len(),
{
    if s.len() > 0 {
        lemma_records_keys(s.drop_last(), k);
        if exists|i: int| 0 <= i < s.len() && s[i]@.name == k {
            let i = choose|i: int| 0 <= i < s.len() && s[i]@.name == k;
            if i < s.len() - 1 {
                assert(s.drop_last()[i] == s[i]);
            }
        }
        if exists|i: int| 0 <= i < s.len() - 1 && s.drop_last()[i]@.name == k {
            let i = choose|i: int| 0 <= i < s.len() - 1 && s.drop_last()[i]@.name == k;
            assert(s[i] == s.drop_last()[i]);
        }
    }
}

proof fn lemma_records_index(s: Seq<Player>, i: int)
    requires
        names_unique(s),
        0 <= i < s.len(),
    ensures
        records(s).contains_key(s[i]@.name),
        records(s)[s[i]@.name] == s[i]@,
    decreases s.len(),
{
    if i < s.len() - 1 {
        assert(s.drop_last()[i] == s[i]);
        lemma_records_index(s.drop_last(), i);
        assert(s[i]@.name != s[s.len() - 1]@.name);
    }
}

proof fn lemma_records_update(s: Seq<Player>, i: int, p: Player)
    requires
        names_unique(s),
        0 <= i < s.len(),
        p@.name == s[i]@.name,
    ensures
        records(s.update(i, p)) == records(s).insert(p@.name, p@),
    decreases s.len(),
{
    let t = s.update(i, p);
    if i == s.len() - 1 {
        assert(t.drop_last() =~= s.drop_last());
        assert(records(t) =~= records(s).insert(p@.name, p@));
    } else {
        assert(t.drop_last() =~= s.drop_last().update(i, p));
        lemma_records_update(s.drop_last(), i, p);
        assert(s[i]@.name != s[s.len() - 1]@.name);
        assert(records(t) =~= records(s).insert(p@.name, p@));
    }
}

/// Players held in memory, in a vector with no two of the same name.
///
/// A vector rather than a `HashMap<String, Player>`: vstd gives `String` no key
/// model for hash maps, so nothing about a lookup by name could be proved there.
pub struct InMemoryStorage {
    players: Vec<Player>,
}

impl InMemoryStorage {
    /// An empty store.
    pub fn new() -> (r: InMemoryStorage)
        ensures
            r.inv(),
            r.players() == Map::<Seq<char>, PlayerRecord>::empty(),
    {
        InMemoryStorage { players: Vec::new() }
    }

    /// Position of the player of that name, if any.
    fn position(&self, name: &str) -> (r: Option<usize>)
        ensures
            match r {
                Some(i) => i < self.players@.len() && self.players@[i as int]@.name == name@,
                None => forall|i: int| 0 <= i < self.players@.len() ==> (#[trigger] self.players@[i])@.name != name@,
            },
    {
        let key = name.to_owned();
        let mut i: usize = 0;
        while i < self.players.len()
            invariant
                i <= self.players@.len(),
                key@ == name@,
                forall|j: int| 0 <= j < i ==> (#[trigger] self.players@[j])@.name != name@,
            decreases self.players@.len() - i,
        {
            if self.players[i].name_is(&key) {
                return Some(i);
            }
            i = i + 1;
        }
        None
    }

    fn store(&mut self, player: Player)
        requires
            names_unique(old(self).players@),
        ensures
            names_unique(final(self).players@),
            final(self).players() == old(self).players().insert(player@.name, player@),
    {
        let name = player.name();
        match self.position(name) {
            Some(i) => {
                proof {
                    lemma_records_update(self.players@, i as int, player);
                }
                self.players.set(i, player);
            },
            None => {
                proof {
                    assert(self.players@.push(player).drop_last() =~= self.players@);
                }
                self.players.push(player);
            },
        }
    }
}

impl EloStorage for InMemoryStorage {
    closed spec fn players(&self) -> Map<Seq<char>, PlayerRecord> {
        records(self.players@)
    }

    closed spec fn inv(&self) -> bool {
        names_unique(self.players@)
    }

    proof fn lemma_names_are_keys(&self) {
        assert forall|k: Seq<char>| #[trigger] self.players().contains_key(k) implies self.players()[k].name == k by {
            lemma_records_keys(self.players@, k);
        }
    }

    fn add_player(&mut self, player: Player) {
        self.store(player);
    }

    fn update_player(&mut self, player: &Player) {
        self.store(player.snapshot());
    }

    fn get(&self, name: &str) -> (r: Option<&Player>) {
        proof {
            lemma_records_keys(self.players@, name@);
        }
        match self.position(name) {
            Some(i) => {
                proof {
                    lemma_records_index(self.players@, i as int);
                }
                Some(&self.players[i])
            },
            None => None,
        }
    }

    fn all_players(&self) -> (r: Vec<Player>) {
        let mut r: Vec<Player> = Vec::new();
        let mut i: usize = 0;
        while i < self.players.len()
            invariant
                i <= self.players@.len(),
                r@.len() == i,
                forall|j: int| 0 <= j < i ==> (#[trigger] r@[j])@ == self.players@[j]@,
            decreases self.players@.len() - i,
        {
            r.push(self.players[i].snapshot());
            i = i + 1;
        }
        proof {
            let s = self.players@;
            assert forall|j: int| 0 <= j < r@.len() implies self.players().contains_key(#[trigger] r@[j]@.name)
                && self.players()[r@[j]@.name] == r@[j]@ by {
                lemma_records_index(s, j);
            }
            assert forall|k: Seq<char>| #[trigger] self.players().contains_key(k) implies exists|j: int|
                0 <= j < r@.len() && r@[j]@.name == k by {
                lemma_records_keys(s, k);
                let j = choose|j: int| 0 <= j < s.len() && s[j]@.name == k;
                assert(r@[j]@.name == k);
            }
            assert forall|a: int, b: int| 0 <= a < b < r@.len() implies (#[trigger] r@[a])@.name != (
            #[trigger] r@[b])@.name by {
                assert(s[a]@.name != s[b]@.name);
            }
        }
        r
    }
}

} // verus!
