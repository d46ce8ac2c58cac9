use rand::Rng;
use vstd::arithmetic::div_mod::lemma_small_mod;
use vstd::prelude::*;

use crate::filter::{field_matches, Filter};
use crate::state::AppState;
use crate::track::Track;

verus! {

/// Why no track could be selected.
#[derive(Debug, Clone, Copy, PartialEq, Eq, Structural)]
pub enum SelectError {
    /// The library holds no track.
    EmptyLibrary,
    /// The filters leave no track, whatever was played.
    FiltersExhausted,
}

pub open spec fn filter_holds(f: Filter, t: Track) -> bool {
    field_matches(f.field, f.value@, t)
}

/// The track matches one of the inclusion filters, or there are none.
pub open spec fn included(filters: Seq<Filter>, t: Track) -> bool {
    filters.len() == 0 || exists|k: int| 0 <= k < filters.len() && filter_holds(#[trigger] filters[k], t)
}

/// The track matches none of the exclusion filters.
pub open spec fn not_excluded(inverted: Seq<Filter>, t: Track) -> bool {
    forall|k: int| 0 <= k < inverted.len() ==> !filter_holds(#[trigger] inverted[k], t)
}

/// The track passes both filter sets and its identifier is not in `played`.
pub open spec fn admitted(
    filters: Seq<Filter>,
    inverted: Seq<Filter>,
    played: Set<Seq<char>>,
    t: Track,
) -> bool {
    included(filters, t) && not_excluded(inverted, t) && !played.contains(t.url@)
}

/// Positions, in increasing order, of the admitted tracks among the first `n`.
pub open spec fn pool_upto(
    catalog: Seq<Track>,
    filters: Seq<Filter>,
    inverted: Seq<Filter>,
    played: Set<Seq<char>>,
    n: int,
) -> Seq<usize>
    decreases n,
{
    if n <= 0 {
        Seq::empty()
    } else {
        let p = pool_upto(catalog, filters, inverted, played, n - 1);
        if admitted(filters, inverted, played, catalog[n - 1]) {
            p.push((n - 1) as usize)
        } else {
            p
        }
    }
}

/// Positions of the catalog's tracks that pass the filters and were not played.
pub open spec fn candidates(
    catalog: Seq<Track>,
    filters: Seq<Filter>,
    inverted: Seq<Filter>,
    played: Set<Seq<char>>,
) -> Seq<usize> {
    pool_upto(catalog, filters, inverted, played, catalog.len() as int)
}

/// Positions of the catalog's tracks that pass the filters.
pub open spec fn eligible(catalog: Seq<Track>, filters: Seq<Filter>, inverted: Seq<Filter>) -> Seq<usize> {
    candidates(catalog, filters, inverted, Set::empty())
}

/// The played set that selection consults: none when history is not tracked.
pub open spec fn played_in(history: Option<AppState>) -> Set<Seq<char>> {
    match history {
        Some(h) => h@,
        None => Set::empty(),
    }
}

/// History is tracked and every eligible track was played.
pub open spec fn exhausted(
    catalog: Seq<Track>,
    filters: Seq<Filter>,
    inverted: Seq<Filter>,
    history: Option<AppState>,
) -> bool {
    history is Some && candidates(catalog, filters, inverted, played_in(history)).len() == 0
}

/// The positions a track is drawn from: the unplayed eligible tracks, or all the
/// eligible ones once history was reset.
pub open spec fn final_pool(
    catalog: Seq<Track>,
    filters: Seq<Filter>,
    inverted: Seq<Filter>,
    history: Option<AppState>,
) -> Seq<usize> {
    if exhausted(catalog, filters, inverted, history) {
        eligible(catalog, filters, inverted)
    } else {
        candidates(catalog, filters, inverted, played_in(history))
    }
}

/// The played set after the track at position `i` was selected.
pub open spec fn history_after(
    catalog: Seq<Track>,
    filters: Seq<Filter>,
    inverted: Seq<Filter>,
    history: Option<AppState>,
    i: int,
) -> Set<Seq<char>> {
    if exhausted(catalog, filters, inverted, history) {
        Set::<Seq<char>>::empty().insert(catalog[i].url@)
    } else {
        played_in(history).insert(catalog[i].url@)
    }
}

/// The track matches one of the filters, or there are none.
fn matches_any(filters: &Vec<Filter>, track: &Track) -> (r: bool)
    ensures
        r == included(filters@, *track),
{
    if filters.len() == 0 {
        return true;
    }
    let mut k: usize = 0;
    while k < filters.len()
        invariant
            0 <= k <= filters@.len(),
            forall|j: int| 0 <= j < k ==> !filter_holds(#[trigger] filters@[j], *track),
        decreases filters@.len() - k,
    {
        if filters[k].matches(track) {
            assert(filter_holds(filters@[k as int], *track));
            return true;
        }
        k = k + 1;
    }
    false
}

/// The track matches none of the filters.
fn matches_none(inverted: &Vec<Filter>, track: &Track) -> (r: bool)
    ensures
        r == not_excluded(inverted@, *track),
{
    let mut k: usize = 0;
    while k < inverted.len()
        invariant
            0 <= k <= inverted@.len(),
            forall|j: int| 0 <= j < k ==> !filter_holds(#[trigger] inverted@[j], *track),
        decreases inverted@.len() - k,
    {
        if inverted[k].matches(track) {
            assert(filter_holds(inverted@[k as int], *track));
            return false;
        }
        k = k + 1;
    }
    true
}

/// Positions of the tracks that pass the filters and, when a history is given,
/// were not played.
fn collect_pool(
    catalog: &Vec<Track>,
    filters: &Vec<Filter>,
    inverted: &Vec<Filter>,
    history: Option<&AppState>,
) -> (r: Vec<usize>)
    ensures
        r@ == candidates(
            catalog@,
            filters@,
            inverted@,
            match history {
                Some(h) => h@,
                None => Set::empty(),
            },
        ),
{
    let ghost played = match history {
        Some(h) => h@,
        None => Set::<Seq<char>>::empty(),
    };
    let mut pool: Vec<usize> = Vec::new();
    let mut i: usize = 0;
    while i < catalog.len()
        invariant
            0 <= i <= catalog@.len(),
            played == match history {
                Some(h) => h@,
                None => Set::<Seq<char>>::empty(),
            },
            pool@ == pool_upto(catalog@, filters@, inverted@, played, i as int),
        decreases catalog@.len() - i,
    {
        let track = &catalog[i];
        let fresh = match history {
            Some(h) => !h.has_been_played(track),
            None => true,
        };
        if fresh && matches_any(filters, track) && matches_none(inverted, track) {
            pool.push(i);
        }
        i = i + 1;
    }
    pool
}

/// Positions of the tracks that pass the filters, or why there are none.
pub fn eligible_tracks(catalog: &Vec<Track>, filters: &Vec<Filter>, inverted: &Vec<Filter>) -> (r: Result<
    Vec<usize>,
    SelectError,
>)
    ensures
        r == Err::<Vec<usize>, SelectError>(SelectError::EmptyLibrary) <==> catalog@.len() == 0,
        r == Err::<Vec<usize>, SelectError>(SelectError::FiltersExhausted) <==> catalog@.len() > 0
            && eligible(catalog@, filters@, inverted@).len() == 0,
        r is Ok ==> r->Ok_0@ == eligible(catalog@, filters@, inverted@),
{
    if catalog.len() == 0 {
        return Err(SelectError::EmptyLibrary);
    }
    let pool = collect_pool(catalog, filters, inverted, None);
    if pool.len() == 0 {
        return Err(SelectError::FiltersExhausted);
    }
    Ok(pool)
}

/// The positions to draw from: the eligible tracks not yet played. When history
/// is tracked and every eligible track was played, the history is cleared first
/// and all the eligible tracks are candidates again.
pub fn select_pool(
    catalog: &Vec<Track>,
    filters: &Vec<Filter>,
    inverted: &Vec<Filter>,
    history: &mut Option<AppState>,
) -> (r: Result<Vec<usize>, SelectError>)
    ensures
        r == Err::<Vec<usize>, SelectError>(SelectError::EmptyLibrary) <==> catalog@.len() == 0,
        r == Err::<Vec<usize>, SelectError>(SelectError::FiltersExhausted) <==> catalog@.len() > 0
            && eligible(catalog@, filters@, inverted@).len() == 0,
        r is Err ==> *final(history) == *old(history),
        r is Ok ==> {
            &&& r->Ok_0@ == final_pool(catalog@, filters@, inverted@, *old(history))
            &&& r->Ok_0@.len() > 0
            &&& (*final(history) is Some) == (*old(history) is Some)
            &&& *final(history) is Some ==> final(history)->Some_0.persists() == old(
                history,
            )->Some_0.persists()
            &&& played_in(*final(history)) == if exhausted(
                catalog@,
                filters@,
                inverted@,
                *old(history),
            ) {
                Set::<Seq<char>>::empty()
            } else {
                played_in(*old(history))
            }
        },
{
    let pool = match eligible_tracks(catalog, filters, inverted) {
        Ok(p) => p,
        Err(e) => {
            return Err(e);
        },
    };
    match history {
        Some(h) => {
            let fresh = collect_pool(catalog, filters, inverted, Some(&*h));
            if fresh.len() > 0 {
                Ok(fresh)
            } else {
                h.clear();
                Ok(pool)
            }
        },
        None => Ok(pool),
    }
}

/// Relies on `rand::Rng::gen_range` over the thread-local generator: a value
/// drawn uniformly from `0..len`; it panics on an empty range.
#[verifier::external_body]
fn random_index(len: usize) -> (r: usize)
    requires
        len > 0,
    ensures
        r < len,
{
    rand::thread_rng().gen_range(0..len)
}

/// Records the track at `pool[k]` in the history, if one is tracked.
fn commit(catalog: &Vec<Track>, pool: &Vec<usize>, k: usize, history: &mut Option<AppState>) -> (r:
    usize)
    requires
        k < pool@.len(),
        forall|j: int| 0 <= j < pool@.len() ==> pool@[j] < catalog@.len(),
    ensures
        r == pool@[k as int],
        (*final(history) is Some) == (*old(history) is Some),
        *final(history) is Some ==> final(history)->Some_0.persists() == old(
            history,
        )->Some_0.persists(),
        played_in(*final(history)) == if *old(history) is Some {
            played_in(*old(history)).insert(catalog@[r as int].url@)
        } else {
            Set::<Seq<char>>::empty()
        },
{
    let i = pool[k];
    match history {
        Some(h) => h.mark_as_played(&catalog[i]),
        None => {},
    }
    i
}

/// Every position in a pool is a position of the catalog, and the pool holds
/// exactly the admitted tracks.
pub proof fn lemma_pool_members(
    catalog: Seq<Track>,
    filters: Seq<Filter>,
    inverted: Seq<Filter>,
    played: Set<Seq<char>>,
    n: int,
)
    requires
        0 <= n <= catalog.len(),
        catalog.len() <= usize::MAX,
    ensures
        pool_upto(catalog, filters, inverted, played, n).len() <= n,
        forall|j: int|
            0 <= j < pool_upto(catalog, filters, inverted, played, n).len() ==> #[trigger] pool_upto(
                catalog,
                filters,
                inverted,
                played,
                n,
            )[j] < n,
        forall|i: usize|
            #[trigger] pool_upto(catalog, filters, inverted, played, n).contains(i) <==> (i < n
                && admitted(filters, inverted, played, catalog[i as int])),
    decreases n,
{
    if n > 0 {
        lemma_pool_members(catalog, filters, inverted, played, n - 1);
        let p = pool_upto(catalog, filters, inverted, played, n - 1);
        let last = (n - 1) as usize;
        if admitted(filters, inverted, played, catalog[n - 1]) {
            let q = p.push(last);
            assert(q[p.len() as int] == last);
            assert forall|i: usize| #[trigger] q.contains(i) <==> (i < n && admitted(
                filters,
                inverted,
                played,
                catalog[i as int],
            )) by {
                if q.contains(i) {
                    let j = choose|j: int| 0 <= j < q.len() && q[j] == i;
                    if j < p.len() {
                        assert(p[j] == i);
                        assert(p.contains(i));
                    }
                }
                if i < n && admitted(filters, inverted, played, catalog[i as int]) {
                    if i < n - 1 {
                        assert(p.contains(i));
                        let j = choose|j: int| 0 <= j < p.len() && p[j] == i;
                        assert(q[j] == i);
                    }
                }
            }
        }
    }
}

/// When history is tracked and already holds every eligible track, selection
/// clears it and draws from all the eligible tracks; afterwards history holds
/// the drawn track alone.
pub proof fn lemma_exhaustion_resets(
    catalog: Seq<Track>,
    filters: Seq<Filter>,
    inverted: Seq<Filter>,
    h: AppState,
)
    requires
        catalog.len() <= usize::MAX,
        eligible(catalog, filters, inverted).len() > 0,
        forall|j: int|
            0 <= j < eligible(catalog, filters, inverted).len() ==> h@.contains(
                catalog[#[trigger] eligible(catalog, filters, inverted)[j] as int].url@,
            ),
    ensures
        exhausted(catalog, filters, inverted, Some(h)),
        final_pool(catalog, filters, inverted, Some(h)) == eligible(catalog, filters, inverted),
        forall|i: usize|
            #[trigger] final_pool(catalog, filters, inverted, Some(h)).contains(i) ==> history_after(
                catalog,
                filters,
                inverted,
                Some(h),
                i as int,
            ) == Set::<Seq<char>>::empty().insert(catalog[i as int].url@),
{
    let n = catalog.len() as int;
    lemma_pool_members(catalog, filters, inverted, Set::empty(), n);
    lemma_pool_members(catalog, filters, inverted, h@, n);
    let fresh = candidates(catalog, filters, inverted, h@);
    if fresh.len() > 0 {
        let i = fresh[0];
        assert(fresh.contains(i));
        let e = eligible(catalog, filters, inverted);
        assert(e.contains(i));
        let j = choose|j: int| 0 <= j < e.len() && e[j] == i;
        assert(h@.contains(catalog[e[j] as int].url@));
    }
}

/// The tracks selection may return are exactly those of the final pool: the
/// eligible tracks not yet played or, once history was reset, all eligible
/// tracks. Each of them is the one drawn for some draw.
pub proof fn lemma_every_candidate_reachable(
    catalog: Seq<Track>,
    filters: Seq<Filter>,
    inverted: Seq<Filter>,
    history: Option<AppState>,
    i: usize,
)
    requires
        catalog.len() <= usize::MAX,
        final_pool(catalog, filters, inverted, history).len() > 0,
    ensures
        ({
            let pool = final_pool(catalog, filters, inverted, history);
            &&& pool.contains(i) <==> exists|pick: usize| #[trigger] pool[pick as int % pool.len() as int] == i
            &&& !exhausted(catalog, filters, inverted, history) ==> (pool.contains(i) <==> (i
                < catalog.len() && admitted(filters, inverted, played_in(history), catalog[i as int])))
            &&& exhausted(catalog, filters, inverted, history) ==> (pool.contains(i) <==> (i
                < catalog.len() && admitted(filters, inverted, Set::empty(), catalog[i as int])))
        }),
{
    let n = catalog.len() as int;
    lemma_pool_members(catalog, filters, inverted, Set::empty(), n);
    lemma_pool_members(catalog, filters, inverted, played_in(history), n);
    let pool = final_pool(catalog, filters, inverted, history);
    if pool.contains(i) {
        let j = choose|j: int| 0 <= j < pool.len() && pool[j] == i;
        let pick = j as usize;
        assert(pick as int == j);
        lemma_small_mod(j as nat, pool.len());
        assert(pick as int % pool.len() as int == j);
        assert(pool[pick as int % pool.len() as int] == i);
    }
    if exists|pick: usize| #[trigger] pool[pick as int % pool.len() as int] == i {
        let pick = choose|pick: usize| #[trigger] pool[pick as int % pool.len() as int] == i;
        assert(pool.contains(pool[pick as int % pool.len() as int]));
    }
}

/// Draws the track at position `pick % len` of the final pool, after resetting
/// an exhausted history, and records it as played.
pub fn select_with(
    catalog: &Vec<Track>,
    filters: &Vec<Filter>,
    inverted: &Vec<Filter>,
    history: &mut Option<AppState>,
    pick: usize,
) -> (r: Result<usize, SelectError>)
    ensures
        r == Err::<usize, SelectError>(SelectError::EmptyLibrary) <==> catalog@.len() == 0,
        r == Err::<usize, SelectError>(SelectError::FiltersExhausted) <==> catalog@.len() > 0
            && eligible(catalog@, filters@, inverted@).len() == 0,
        r is Err ==> *final(history) == *old(history),
        r is Ok ==> {
            let pool = final_pool(catalog@, filters@, inverted@, *old(history));
            &&& pool.len() > 0
            &&& r->Ok_0 == pool[pick as int % pool.len() as int]
            &&& (*final(history) is Some) == (*old(history) is Some)
            &&& *final(history) is Some ==> final(history)->Some_0.persists() == old(
                history,
            )->Some_0.persists()
            &&& *final(history) is Some ==> played_in(*final(history)) == history_after(
                catalog@,
                filters@,
                inverted@,
                *old(history),
                r->Ok_0 as int,
            )
        },
{
    let pool = match select_pool(catalog, filters, inverted, history) {
        Ok(p) => p,
        Err(e) => {
            return Err(e);
        },
    };
    let n = catalog.len();
    proof {
        lemma_pool_members(catalog@, filters@, inverted@, Set::empty(), n as int);
        lemma_pool_members(catalog@, filters@, inverted@, played_in(*old(history)), n as int);
    }
    let k = pick % pool.len();
    Ok(commit(catalog, &pool, k, history))
}

/// Draws a track uniformly at random from the final pool, after resetting an
/// exhausted history, and records it as played. Returns its position in the
/// catalog.
pub fn select_next(
    catalog: &Vec<Track>,
    filters: &Vec<Filter>,
    inverted: &Vec<Filter>,
    history: &mut Option<AppState>,
) -> (r: Result<usize, SelectError>)
    ensures
        r == Err::<usize, SelectError>(SelectError::EmptyLibrary) <==> catalog@.len() == 0,
        r == Err::<usize, SelectError>(SelectError::FiltersExhausted) <==> catalog@.len() > 0
            && eligible(catalog@, filters@, inverted@).len() == 0,
        r is Err ==> *final(history) == *old(history),
        r is Ok ==> {
            &&& final_pool(catalog@, filters@, inverted@, *old(history)).contains(r->Ok_0)
            &&& (*final(history) is Some) == (*old(history) is Some)
            &&& *final(history) is Some ==> final(history)->Some_0.persists() == old(
                history,
            )->Some_0.persists()
            &&& *final(history) is Some ==> played_in(*final(history)) == history_after(
                catalog@,
                filters@,
                inverted@,
                *old(history),
                r->Ok_0 as int,
            )
        },
{
    let pool = match select_pool(catalog, filters, inverted, history) {
        Ok(p) => p,
        Err(e) => {
            return Err(e);
        },
    };
    let n = catalog.len();
    proof {
        lemma_pool_members(catalog@, filters@, inverted@, Set::empty(), n as int);
        lemma_pool_members(catalog@, filters@, inverted@, played_in(*old(history)), n as int);
    }
    let k = random_index(pool.len());
    let i = commit(catalog, &pool, k, history);
    assert(pool@[k as int] == i);
    Ok(i)
}

} // verus!
