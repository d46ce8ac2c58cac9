use vstd::prelude::*;

use crate::track::Track;

verus! {

/// The set of tracks already queued since the last reset, and whether it is to
/// be kept across restarts.
///
/// The store is a plain value: writing it to disk after each change is left to
/// the caller, which asks `should_persist` whether to do so.
#[derive(Debug, Clone)]
pub struct AppState {
    persist: bool,
    already_played: Vec<String>,
}

impl View for AppState {
    type V = Set<Seq<char>>;

    /// The identifiers of the tracks already played.
    closed spec fn view(&self) -> Set<Seq<char>> {
        Set::new(
            |u: Seq<char>|
                exists|i: int|
                    0 <= i < self.already_played@.len() && #[trigger] self.already_played@[i]@ == u,
        )
    }
}

/// The identifiers held by a sequence of strings.
pub open spec fn texts_of(v: Seq<String>) -> Set<Seq<char>> {
    Set::new(|u: Seq<char>| exists|i: int| 0 <= i < v.len() && #[trigger] v[i]@ == u)
}

impl AppState {
    /// Whether each change is to be written to disk.
    pub closed spec fn persists(&self) -> bool {
        self.persist
    }

    /// An empty history.
    pub fn new(persist: bool) -> (r: AppState)
        ensures
            r@ == Set::<Seq<char>>::empty(),
            r.persists() == persist,
    {
        let r = AppState { persist, already_played: Vec::new() };
        assert(r@ =~= Set::<Seq<char>>::empty());
        r
    }

    /// The history to start with: the saved identifiers when persistence is on
    /// and a saved document was found, an empty history otherwise.
    pub fn load(persist: bool, saved: Option<Vec<String>>) -> (r: AppState)
        ensures
            r.persists() == persist,
            r@ == (if persist && saved is Some {
                texts_of(saved->Some_0@)
            } else {
                Set::<Seq<char>>::empty()
            }),
    {
        let mut state = AppState::new(persist);
        if !persist {
            return state;
        }
        match saved {
            None => state,
            Some(v) => {
                let mut i: usize = 0;
                while i < v.len()
                    invariant
                        0 <= i <= v@.len(),
                        state.persists() == persist,
                        state@ == texts_of(v@.take(i as int)),
                    decreases v@.len() - i,
                {
                    state.mark_url(&v[i]);
                    assert(texts_of(v@.take(i + 1)) =~= texts_of(v@.take(i as int)).insert(v@[i as int]@)) by {
                        assert(v@.take(i + 1)[i as int] == v@[i as int]);
                        assert forall|u: Seq<char>| texts_of(v@.take(i as int)).contains(u) implies
                            texts_of(v@.take(i + 1)).contains(u) by {
                            let j = choose|j: int| 0 <= j < i && #[trigger] v@.take(i as int)[j]@ == u;
                            assert(v@.take(i + 1)[j] == v@.take(i as int)[j]);
                        }
                        assert forall|u: Seq<char>| texts_of(v@.take(i + 1)).contains(u) implies
                            texts_of(v@.take(i as int)).insert(v@[i as int]@).contains(u) by {
                            let j = choose|j: int| 0 <= j < i + 1 && #[trigger] v@.take(i + 1)[j]@ == u;
                            if j < i {
                                assert(v@.take(i as int)[j] == v@.take(i + 1)[j]);
                            }
                        }
                    }
                    i = i + 1;
                }
                assert(v@.take(v@.len() as int) =~= v@);
                state
            },
        }
    }

    /// Whether the history holds the identifier `url`.
    fn contains_url(&self, url: &String) -> (r: bool)
        ensures
            r == self@.contains(url@),
    {
        let mut i: usize = 0;
        while i < self.already_played.len()
            invariant
                0 <= i <= self.already_played@.len(),
                forall|j: int| 0 <= j < i ==> self.already_played@[j]@ != url@,
            decreases self.already_played@.len() - i,
        {
            if self.already_played[i] == *url {
                assert(self.already_played@[i as int]@ == url@);
                return true;
            }
            i = i + 1;
        }
        false
    }

    /// Adds the identifier `url` to the history.
    fn mark_url(&mut self, url: &String)
        ensures
            final(self)@ == old(self)@.insert(url@),
            final(self).persists() == old(self).persists(),
    {
        if !self.contains_url(url) {
            self.already_played.push(url.clone());
            assert forall|u: Seq<char>| old(self)@.contains(u) implies self@.contains(u) by {
                let j = choose|j: int|
                    0 <= j < old(self).already_played@.len() && #[trigger] old(self).already_played@[j]@ == u;
                assert(self.already_played@[j] == old(self).already_played@[j]);
            }
            assert(self.already_played@[self.already_played@.len() - 1]@ == url@);
        }
        assert(self@ =~= old(self)@.insert(url@));
    }

    /// Whether the track was played since the last reset, judged by its identifier.
    pub fn has_been_played(&self, track: &Track) -> (r: bool)
        ensures
            r == self@.contains(track.url@),
    {
        self.contains_url(&track.url)
    }

    /// Records the track as played.
    pub fn mark_as_played(&mut self, track: &Track)
        ensures
            final(self)@ == old(self)@.insert(track.url@),
            final(self).persists() == old(self).persists(),
    {
        self.mark_url(&track.url)
    }

    /// Forgets every played track.
    pub fn clear(&mut self)
        ensures
            final(self)@ == Set::<Seq<char>>::empty(),
            final(self).persists() == old(self).persists(),
    {
        self.already_played = Vec::new();
        assert(self@ =~= Set::<Seq<char>>::empty());
    }

    /// Whether each change is to be written to disk.
    pub fn should_persist(&self) -> (r: bool)
        ensures
            r == self.persists(),
    {
        self.persist
    }

    /// The identifiers of the played tracks, as the saved document lists them.
    pub fn already_played(&self) -> (r: Vec<String>)
        ensures
            texts_of(r@) == self@,
    {
        let r = self.already_played.clone();
        assert(r@ =~= self.already_played@);
        assert(texts_of(r@) =~= self@);
        r
    }
}

} // verus!
