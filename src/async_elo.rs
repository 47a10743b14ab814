use vstd::prelude::*;

verus! {

/// A rating service over a store shared between concurrent callers. The store
/// copies players in and out, so no lock is held across the steps of a game; the
/// steps themselves are `check_opponents`, `registration` and `play_game`.
pub struct AsyncElo<S> {
    players: S,
}

impl<S> AsyncElo<S> {
    /// The store.
    pub closed spec fn storage_view(&self) -> S {
        self.players
    }

    /// A rating service over the given store.
    pub fn new(players: S) -> (r: AsyncElo<S>)
        ensures
            r.storage_view() == players,
    {
        AsyncElo { players }
    }

    /// The store, for the steps of a game.
    pub fn storage(&self) -> (r: &S)
        ensures
            *r == self.storage_view(),
    {
        &self.players
    }

    /// Gives back the store.
    pub fn into_storage(self) -> (r: S)
        ensures
            r == self.storage_view(),
    {
        self.players
    }
}

} // verus!
