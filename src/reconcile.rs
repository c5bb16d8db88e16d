use vstd::prelude::*;

use crate::model::{Episode, EpisodeNoId};
use ahash::AHashMap;

verus! {

#[verifier::external_type_specification]
#[verifier::external_body]
#[verifier::reject_recursive_types(K)]
#[verifier::reject_recursive_types(V)]
#[verifier::reject_recursive_types(S)]
pub struct ExAHashMap<K, V, S>(AHashMap<K, V, S>);

#[verifier::external_type_specification]
#[verifier::external_body]
pub struct ExRandomState(ahash::RandomState);

/// What a guid index holds: each guid, with a position in the stored list.
pub uninterp spec fn guid_index_contents(m: AHashMap<String, usize>) -> Map<Seq<char>, usize>;

/// Relies on `ahash::AHashMap::new`: a new map holds nothing.
#[verifier::external_body]
fn guid_index_new() -> (r: AHashMap<String, usize>)
    ensures
        guid_index_contents(r).is_empty(),
{
    AHashMap::new()
}

/// Relies on `ahash::AHashMap::insert`: the key maps to the value
/// afterwards, replacing any earlier value; other keys are unchanged.
#[verifier::external_body]
fn guid_index_insert(m: &mut AHashMap<String, usize>, k: String, v: usize)
    ensures
        guid_index_contents(*final(m)) == guid_index_contents(*old(m)).insert(k@, v),
{
    m.insert(k, v);
}

/// Relies on `ahash::AHashMap::get`: the value held under the key, if any.
#[verifier::external_body]
fn guid_index_get(m: &AHashMap<String, usize>, k: &String) -> (r: Option<usize>)
    ensures
        r == (if guid_index_contents(*m).contains_key(k@) {
            Some(guid_index_contents(*m)[k@])
        } else {
            None::<usize>
        }),
{
    m.get(k).copied()
}

/// The guid index of a stored list: each non-empty guid, with the
/// position of the last stored episode that carries it.
pub open spec fn guid_index(stored: Seq<Episode>) -> Map<Seq<char>, usize>
    decreases stored.len(),
{
    if stored.len() == 0 {
        Map::empty()
    } else {
        let rest = guid_index(stored.drop_last());
        let g = stored.last().guid@;
        if g.len() > 0 {
            rest.insert(g, (stored.len() - 1) as usize)
        } else {
            rest
        }
    }
}

/// On how many of title, url and publish date (when both have one) a
/// stored and an incoming episode agree.
pub open spec fn fallback_score(old: Episode, new: EpisodeNoId) -> int {
    (if old.title@ == new.title@ { 1int } else { 0int }) + (if old.url@ == new.url@ {
        1int
    } else {
        0int
    }) + (match (old.pubdate, new.pubdate) {
        (Some(a), Some(b)) => if a == b { 1int } else { 0int },
        _ => 0int,
    })
}

/// The first stored episode, at position `from` or later, that agrees
/// with `new` on at least two of the fallback fields.
pub open spec fn first_fallback(stored: Seq<Episode>, new: EpisodeNoId, from: int) -> Option<int>
    decreases stored.len() - from,
{
    if from < 0 || from >= stored.len() {
        None
    } else if fallback_score(stored[from], new) >= 2 {
        Some(from)
    } else {
        first_fallback(stored, new, from + 1)
    }
}

/// The stored episode that an incoming one corresponds to: by guid when
/// its guid is non-empty and indexed, else by the fallback fields.
pub open spec fn match_index(stored: Seq<Episode>, new: EpisodeNoId) -> Option<int> {
    let idx = guid_index(stored);
    if new.guid@.len() > 0 && idx.contains_key(new.guid@) {
        Some(idx[new.guid@] as int)
    } else {
        first_fallback(stored, new, 0)
    }
}

/// Whether any of the fields that a sync rewrites differs.
pub open spec fn differs(old: Episode, new: EpisodeNoId) -> bool {
    ||| old.title@ != new.title@
    ||| old.url@ != new.url@
    ||| old.guid@ != new.guid@
    ||| old.description@ != new.description@
    ||| old.pubdate != new.pubdate
    ||| old.duration != new.duration
}

/// What reconciliation does with one incoming episode.
#[derive(Debug, Clone, Copy, PartialEq, Eq)]
pub enum EpisodeAction {
    /// Store it as a new episode.
    Insert,
    /// Rewrite the metadata of the stored episode with this id.
    Update(i64),
    /// It matches the stored episode with this id, which is up to date.
    Unchanged(i64),
}

/// What reconciliation does with `new`, given the stored episodes.
pub open spec fn action_of(stored: Seq<Episode>, new: EpisodeNoId) -> EpisodeAction {
    match match_index(stored, new) {
        None => EpisodeAction::Insert,
        Some(i) => if differs(stored[i], new) {
            EpisodeAction::Update(stored[i].id)
        } else {
            EpisodeAction::Unchanged(stored[i].id)
        },
    }
}

proof fn lemma_guid_index_bounds(stored: Seq<Episode>)
    requires
        stored.len() <= usize::MAX,
    ensures
        forall|g: Seq<char>| #[trigger]
            guid_index(stored).contains_key(g) ==> {
                &&& g.len() > 0
                &&& (guid_index(stored)[g] as int) < stored.len()
                &&& stored[guid_index(stored)[g] as int].guid@ == g
            },
    decreases stored.len(),
{
    if stored.len() > 0 {
        lemma_guid_index_bounds(stored.drop_last());
    }
}

/// Builds the guid index of the stored list.
fn build_guid_index(stored: &Vec<Episode>) -> (m: AHashMap<String, usize>)
    ensures
        guid_index_contents(m) == guid_index(stored@),
{
    let mut m = guid_index_new();
    let mut i: usize = 0;
    while i < stored.len()
        invariant
            i <= stored@.len(),
            guid_index_contents(m) == guid_index(stored@.take(i as int)),
        decreases stored@.len() - i,
    {
        assert(stored@.take(i + 1).drop_last() == stored@.take(i as int));
        if !stored[i].guid.as_str().is_empty() {
            guid_index_insert(&mut m, stored[i].guid.clone(), i);
        }
        i = i + 1;
    }
    assert(stored@.take(stored@.len() as int) == stored@);
    m
}

/// Checks two matching episodes to see whether there are details that
/// need to be updated.
pub fn check_for_updates(old_ep: &Episode, new_ep: &EpisodeNoId) -> (r: bool)
    ensures
        r == differs(*old_ep, *new_ep),
{
    let pubdate_same = match (old_ep.pubdate, new_ep.pubdate) {
        (Some(a), Some(b)) => a == b,
        (None, None) => true,
        _ => false,
    };
    let duration_same = match (old_ep.duration, new_ep.duration) {
        (Some(a), Some(b)) => a == b,
        (None, None) => true,
        _ => false,
    };
    !(old_ep.title == new_ep.title && old_ep.url == new_ep.url && old_ep.guid == new_ep.guid
        && old_ep.description == new_ep.description && pubdate_same && duration_same)
}

fn fallback_score_exec(old: &Episode, new: &EpisodeNoId) -> (r: u8)
    ensures
        r as int == fallback_score(*old, *new),
{
    let mut score: u8 = 0;
    if old.title == new.title {
        score = score + 1;
    }
    if old.url == new.url {
        score = score + 1;
    }
    if let (Some(a), Some(b)) = (old.pubdate, new.pubdate) {
        if a == b {
            score = score + 1;
        }
    }
    score
}

/// Finds the stored episode that an incoming one corresponds to.
fn find_match(stored: &Vec<Episode>, index: &AHashMap<String, usize>, new: &EpisodeNoId) -> (r:
    Option<usize>)
    requires
        guid_index_contents(*index) == guid_index(stored@),
    ensures
        r matches Some(i) ==> i < stored@.len(),
        match_index(stored@, *new) == (match r {
            Some(i) => Some(i as int),
            None => None::<int>,
        }),
{
    let n = stored.len();
    proof {
        lemma_guid_index_bounds(stored@);
    }
    if !new.guid.as_str().is_empty() {
        if let Some(i) = guid_index_get(index, &new.guid) {
            return Some(i);
        }
    }
    let mut i: usize = 0;
    while i < n
        invariant
            n == stored@.len(),
            i <= stored@.len(),
            first_fallback(stored@, *new, 0) == first_fallback(stored@, *new, i as int),
            !(new.guid@.len() > 0 && guid_index(stored@).contains_key(new.guid@)),
        decreases stored@.len() - i,
    {
        if fallback_score_exec(&stored[i], new) >= 2 {
            return Some(i);
        }
        i = i + 1;
    }
    None
}

/// Decides, for each incoming episode, whether it is new, an update of a
/// stored episode, or already stored as it is. `stored` holds every
/// stored episode of the podcast, hidden ones included, most recent
/// first. Each incoming episode is matched against `stored` alone.
pub fn reconcile(stored: &Vec<Episode>, incoming: &Vec<EpisodeNoId>) -> (r: Vec<EpisodeAction>)
    ensures
        r@.len() == incoming@.len(),
        forall|j: int| 0 <= j < incoming@.len() ==> r@[j] == action_of(stored@, incoming@[j]),
{
    let index = build_guid_index(stored);
    let mut r: Vec<EpisodeAction> = Vec::new();
    let mut j: usize = 0;
    while j < incoming.len()
        invariant
            j <= incoming@.len(),
            r@.len() == j,
            guid_index_contents(index) == guid_index(stored@),
            forall|k: int| 0 <= k < j ==> r@[k] == action_of(stored@, incoming@[k]),
        decreases incoming@.len() - j,
    {
        let new = &incoming[j];
        let action = match find_match(stored, &index, new) {
            None => EpisodeAction::Insert,
            Some(i) => if check_for_updates(&stored[i], new) {
                EpisodeAction::Update(stored[i].id)
            } else {
                EpisodeAction::Unchanged(stored[i].id)
            },
        };
        r.push(action);
        j = j + 1;
    }
    r
}


/// One write of a reconciliation, naming the incoming episode by position.
#[derive(Debug, Clone, Copy, PartialEq, Eq)]
pub enum EpisodeWrite {
    /// Store incoming episode `0` as a new episode.
    Insert(usize),
    /// Rewrite the stored episode with id `0` from incoming episode `1`.
    Update(i64, usize),
}

/// The write, if any, for incoming episode `j`.
pub open spec fn write_for(stored: Seq<Episode>, incoming: Seq<EpisodeNoId>, j: int) -> Seq<
    EpisodeWrite,
> {
    match action_of(stored, incoming[j]) {
        EpisodeAction::Insert => seq![EpisodeWrite::Insert(j as usize)],
        EpisodeAction::Update(id) => seq![EpisodeWrite::Update(id, j as usize)],
        EpisodeAction::Unchanged(_) => Seq::empty(),
    }
}

/// The writes for the incoming episodes at position `j` and after, last
/// one first: a feed lists its newest episode first, and episodes are
/// stored oldest first.
pub open spec fn writes_from(stored: Seq<Episode>, incoming: Seq<EpisodeNoId>, j: int) -> Seq<
    EpisodeWrite,
>
    decreases incoming.len() - j,
{
    if j < 0 || j >= incoming.len() {
        Seq::empty()
    } else {
        writes_from(stored, incoming, j + 1) + write_for(stored, incoming, j)
    }
}

/// The writes that bring the stored episodes of a podcast up to date with
/// a feed, in the order in which they are made: one insert for each new
/// episode, one update for each changed one, nothing for the others.
pub fn plan_writes(stored: &Vec<Episode>, incoming: &Vec<EpisodeNoId>) -> (r: Vec<EpisodeWrite>)
    ensures
        r@ == writes_from(stored@, incoming@, 0),
{
    let actions = reconcile(stored, incoming);
    let mut out: Vec<EpisodeWrite> = Vec::new();
    let mut j: usize = incoming.len();
    while j > 0
        invariant
            j <= incoming@.len(),
            actions@.len() == incoming@.len(),
            forall|k: int| 0 <= k < incoming@.len() ==> actions@[k] == action_of(stored@, incoming@[k]),
            out@ == writes_from(stored@, incoming@, j as int),
        decreases j,
    {
        j = j - 1;
        let ghost before = out@;
        match actions[j] {
            EpisodeAction::Insert => out.push(EpisodeWrite::Insert(j)),
            EpisodeAction::Update(id) => out.push(EpisodeWrite::Update(id, j)),
            EpisodeAction::Unchanged(_) => {},
        }
        assert(out@ =~= before + write_for(stored@, incoming@, j as int));
    }
    out
}

proof fn lemma_guid_index_last(stored: Seq<Episode>, g: Seq<char>)
    requires
        stored.len() <= usize::MAX,
        g.len() > 0,
    ensures
        guid_index(stored).contains_key(g) <==> exists|i: int|
            0 <= i < stored.len() && #[trigger] stored[i].guid@ == g,
        guid_index(stored).contains_key(g) ==> {
            let k = guid_index(stored)[g] as int;
            &&& 0 <= k < stored.len()
            &&& stored[k].guid@ == g
            &&& forall|i: int| k < i < stored.len() ==> #[trigger] stored[i].guid@ != g
        },
    decreases stored.len(),
{
    if stored.len() > 0 {
        let rest = stored.drop_last();
        lemma_guid_index_last(rest, g);
        if guid_index(stored).contains_key(g) {
            if stored.last().guid@ != g {
                let i = choose|i: int| 0 <= i < rest.len() && #[trigger] rest[i].guid@ == g;
                assert(stored[i].guid@ == g);
            }
        } else {
            assert forall|i: int| 0 <= i < stored.len() implies #[trigger] stored[i].guid@ != g by {
                if i < rest.len() {
                    assert(rest[i] == stored[i]);
                }
            }
        }
        if stored.last().guid@ != g && guid_index(rest).contains_key(g) {
            let i = choose|i: int| 0 <= i < rest.len() && #[trigger] rest[i].guid@ == g;
            assert(stored[i].guid@ == g);
            let k = guid_index(rest)[g] as int;
            assert(stored[k] == rest[k]);
            assert forall|i: int| k < i < stored.len() implies #[trigger] stored[i].guid@ != g by {
                if i < rest.len() {
                    assert(rest[i] == stored[i]);
                }
            }
        }
    }
}

proof fn lemma_first_fallback(stored: Seq<Episode>, new: EpisodeNoId, from: int)
    requires
        0 <= from <= stored.len(),
    ensures
        first_fallback(stored, new, from) matches Some(k) ==> {
            &&& from <= k < stored.len()
            &&& fallback_score(stored[k], new) >= 2
            &&& forall|i: int| from <= i < k ==> #[trigger] fallback_score(stored[i], new) < 2
        },
        first_fallback(stored, new, from) is None ==> forall|i: int|
            from <= i < stored.len() ==> #[trigger] fallback_score(stored[i], new) < 2,
    decreases stored.len() - from,
{
    if from < stored.len() {
        lemma_first_fallback(stored, new, from + 1);
    }
}

/// Whether a stored episode is a candidate for an incoming one: it has the
/// same non-empty guid, or it agrees on two of the fallback fields.
pub open spec fn corresponds(old: Episode, new: EpisodeNoId) -> bool {
    (new.guid@.len() > 0 && old.guid@ == new.guid@) || fallback_score(old, new) >= 2
}

/// An incoming episode whose non-empty guid is carried by a stored episode
/// is matched by guid, to the last stored episode with that guid, whatever
/// its title, url and publish date.
pub proof fn law_guid_priority(stored: Seq<Episode>, new: EpisodeNoId, i: int)
    requires
        stored.len() <= usize::MAX,
        0 <= i < stored.len(),
        new.guid@.len() > 0,
        stored[i].guid@ == new.guid@,
    ensures
        match_index(stored, new) matches Some(k) && {
            &&& i <= k < stored.len()
            &&& stored[k].guid@ == new.guid@
            &&& forall|j: int| k < j < stored.len() ==> #[trigger] stored[j].guid@ != new.guid@
        },
        !(action_of(stored, new) is Insert),
{
    lemma_guid_index_last(stored, new.guid@);
}

/// An incoming episode without a guid is matched exactly when some stored
/// episode agrees with it on two of title, url and publish date: agreeing
/// on title and url suffices, while one that differs from every stored
/// episode in url and in publish date is new.
pub proof fn law_fallback_threshold(stored: Seq<Episode>, new: EpisodeNoId)
    requires
        stored.len() <= usize::MAX,
        new.guid@.len() == 0,
    ensures
        !(action_of(stored, new) is Insert) <==> exists|i: int|
            0 <= i < stored.len() && fallback_score(#[trigger] stored[i], new) >= 2,
        (exists|i: int|
            0 <= i < stored.len() && #[trigger] stored[i].title@ == new.title@ && stored[i].url@
                == new.url@) ==> !(action_of(stored, new) is Insert),
        (forall|i: int|
            0 <= i < stored.len() ==> #[trigger] stored[i].url@ != new.url@ && !(stored[i].pubdate
                is Some && stored[i].pubdate == new.pubdate)) ==> action_of(stored, new) is Insert,
{
    lemma_first_fallback(stored, new, 0);
    if exists|i: int|
        0 <= i < stored.len() && #[trigger] stored[i].title@ == new.title@ && stored[i].url@
            == new.url@ {
        let i = choose|i: int|
            0 <= i < stored.len() && #[trigger] stored[i].title@ == new.title@ && stored[i].url@
                == new.url@;
        assert(fallback_score(stored[i], new) >= 2);
    }
    if forall|i: int|
        0 <= i < stored.len() ==> #[trigger] stored[i].url@ != new.url@ && !(stored[i].pubdate
            is Some && stored[i].pubdate == new.pubdate) {
        assert forall|i: int| 0 <= i < stored.len() implies fallback_score(
            #[trigger] stored[i],
            new,
        ) < 2 by {
            assert(stored[i].url@ != new.url@);
        }
    }
}

/// A stored episode that the user hid is still matched: when it appears
/// again in a feed as it was stored, it is not inserted a second time.
pub proof fn law_hidden_not_resurrected(stored: Seq<Episode>, i: int, new: EpisodeNoId)
    requires
        stored.len() <= usize::MAX,
        0 <= i < stored.len(),
        stored[i].hidden,
        !differs(stored[i], new),
    ensures
        !(action_of(stored, new) is Insert),
{
    if new.guid@.len() > 0 {
        law_guid_priority(stored, new, i);
    } else {
        law_fallback_threshold(stored, new);
        assert(fallback_score(stored[i], new) >= 2);
    }
}

/// Whether a stored episode holds an incoming one as it is.
pub open spec fn holds(rec: Episode, new: EpisodeNoId) -> bool {
    !differs(rec, new)
}

/// Whether a stored copy of incoming episode `a` would be a candidate for
/// incoming episode `b`.
pub open spec fn feed_candidates(a: EpisodeNoId, b: EpisodeNoId) -> bool {
    ||| (b.guid@.len() > 0 && a.guid@ == b.guid@)
    ||| (if a.title@ == b.title@ { 1int } else { 0int }) + (if a.url@ == b.url@ {
        1int
    } else {
        0int
    }) + (match (a.pubdate, b.pubdate) {
        (Some(x), Some(y)) => if x == y { 1int } else { 0int },
        _ => 0int,
    }) >= 2
}

/// Whether `after` is the stored list once the writes of a sync of
/// `incoming` were made: each stored episode is kept, or rewritten with
/// the incoming episode matched to it, and each new episode is appended.
pub open spec fn synced_store(
    stored: Seq<Episode>,
    incoming: Seq<EpisodeNoId>,
    after: Seq<Episode>,
) -> bool {
    &&& after.len() >= stored.len()
    &&& forall|i: int|
        0 <= i < stored.len() ==> #[trigger] after[i] == stored[i] || exists|j: int|
            0 <= j < incoming.len() && match_index(stored, incoming[j]) == Some(i) && holds(
                after[i],
                #[trigger] incoming[j],
            )
    &&& forall|j: int|
        0 <= j < incoming.len() ==> match #[trigger] match_index(stored, incoming[j]) {
            Some(i) => holds(after[i], incoming[j]),
            None => exists|k: int|
                stored.len() <= k < after.len() && holds(#[trigger] after[k], incoming[j]),
        }
    &&& forall|k: int|
        stored.len() <= k < after.len() ==> exists|j: int|
            0 <= j < incoming.len() && match_index(stored, incoming[j]) is None && holds(
                #[trigger] after[k],
                #[trigger] incoming[j],
            )
}

proof fn lemma_holds_candidate(rec: Episode, a: EpisodeNoId, b: EpisodeNoId)
    requires
        holds(rec, a),
    ensures
        corresponds(rec, b) == feed_candidates(a, b),
{
}

/// Any candidate for incoming episode `j` in the synced store is a stored
/// episode left as it was, or the place where the sync wrote episode `j`.
proof fn lemma_synced_candidates(
    stored: Seq<Episode>,
    incoming: Seq<EpisodeNoId>,
    after: Seq<Episode>,
    j: int,
)
    requires
        0 <= j < incoming.len(),
        synced_store(stored, incoming, after),
        forall|a: int, b: int|
            0 <= a < incoming.len() && 0 <= b < incoming.len() && a != b ==> !feed_candidates(
                #[trigger] incoming[a],
                #[trigger] incoming[b],
            ),
    ensures
        forall|i: int|
            0 <= i < after.len() && corresponds(#[trigger] after[i], incoming[j]) ==> {
                ||| (i < stored.len() && after[i] == stored[i])
                ||| (i < stored.len() && match_index(stored, incoming[j]) == Some(i))
                ||| (i >= stored.len() && match_index(stored, incoming[j]) is None)
            },
{
    assert forall|i: int|
        0 <= i < after.len() && corresponds(#[trigger] after[i], incoming[j]) implies {
        ||| (i < stored.len() && after[i] == stored[i])
        ||| (i < stored.len() && match_index(stored, incoming[j]) == Some(i))
        ||| (i >= stored.len() && match_index(stored, incoming[j]) is None)
    } by {
        if i < stored.len() {
            if after[i] != stored[i] {
                let k = choose|k: int|
                    0 <= k < incoming.len() && match_index(stored, incoming[k]) == Some(i) && holds(
                        after[i],
                        #[trigger] incoming[k],
                    );
                lemma_holds_candidate(after[i], incoming[k], incoming[j]);
            }
        } else {
            let k = choose|k: int|
                0 <= k < incoming.len() && match_index(stored, incoming[k]) is None && holds(
                    #[trigger] after[i],
                    #[trigger] incoming[k],
                );
            lemma_holds_candidate(after[i], incoming[k], incoming[j]);
        }
    }
}

/// Syncing the same feed twice: once the writes of a first reconciliation
/// are made, a second reconciliation of the same feed writes nothing,
/// provided the feed's episodes can be told apart (no one of them is a
/// candidate for another).
pub proof fn law_sync_is_idempotent(
    stored: Seq<Episode>,
    incoming: Seq<EpisodeNoId>,
    after: Seq<Episode>,
)
    requires
        after.len() <= usize::MAX,
        forall|a: int, b: int|
            0 <= a < incoming.len() && 0 <= b < incoming.len() && a != b ==> !feed_candidates(
                #[trigger] incoming[a],
                #[trigger] incoming[b],
            ),
        synced_store(stored, incoming, after),
    ensures
        forall|j: int|
            0 <= j < incoming.len() ==> #[trigger] action_of(after, incoming[j]) is Unchanged,
{
    assert forall|j: int| 0 <= j < incoming.len() implies #[trigger] action_of(
        after,
        incoming[j],
    ) is Unchanged by {
        let new = incoming[j];
        lemma_synced_candidates(stored, incoming, after, j);
        lemma_first_fallback(stored, new, 0);
        lemma_first_fallback(after, new, 0);
        let m = match_index(stored, new);
        assert(m == match_index(stored, incoming[j]));
        if new.guid@.len() > 0 {
            lemma_guid_index_last(stored, new.guid@);
            lemma_guid_index_last(after, new.guid@);
            // the place where the first sync wrote `new` carries its guid
            let w = match m {
                Some(t) => t,
                None => choose|k: int| stored.len() <= k < after.len() && holds(#[trigger] after[k], new),
            };
            assert(holds(after[w], new));
            assert(after[w].guid@ == new.guid@);
            let last = guid_index(after)[new.guid@] as int;
            assert(corresponds(after[last], new));
            if !holds(after[last], new) {
                assert(last < stored.len() && after[last] == stored[last]);
                assert(stored[last].guid@ == new.guid@);
                assert(guid_index(stored).contains_key(new.guid@));
                assert(m == Some(guid_index(stored)[new.guid@] as int));
                if last != w {
                    assert(w < last);
                }
            }
        } else {
            let w = match m {
                Some(t) => t,
                None => choose|k: int| stored.len() <= k < after.len() && holds(#[trigger] after[k], new),
            };
            assert(holds(after[w], new));
            assert(fallback_score(after[w], new) >= 2);
            let first = first_fallback(after, new, 0)->Some_0;
            assert(corresponds(after[first], new));
            if !holds(after[first], new) {
                assert(first < stored.len() && after[first] == stored[first]);
                assert(fallback_score(stored[first], new) >= 2);
                if first != w {
                    assert(first < w);
                }
            }
        }
    }
}

} // verus!
