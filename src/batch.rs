use vstd::prelude::*;

use crate::feed::FeedError;
use crate::model::{PodcastFeed, PodcastNoId};

verus! {

/// What a fetch job reports for one subscription.
#[derive(Debug)]
pub enum FeedMessage {
    /// A feed that has no stored podcast yet.
    NewData(PodcastNoId),
    /// A feed of the stored podcast with this id.
    SyncData(i64, PodcastNoId),
    /// The feed could not be fetched or read.
    Error(PodcastFeed),
}

/// The report of a fetch job for `feed`, given what the fetch returned.
pub fn feed_message(feed: PodcastFeed, fetched: Result<PodcastNoId, FeedError>) -> (r: FeedMessage)
    ensures
        r == (match fetched {
            Ok(p) => match feed.id {
                Some(id) => FeedMessage::SyncData(id, p),
                None => FeedMessage::NewData(p),
            },
            Err(_) => FeedMessage::Error(feed),
        }),
{
    match fetched {
        Ok(p) => match feed.id {
            Some(id) => FeedMessage::SyncData(id, p),
            None => FeedMessage::NewData(p),
        },
        Err(_) => FeedMessage::Error(feed),
    }
}

/// How one feed of a batch ended.
#[derive(Debug, Clone)]
pub enum Completion {
    /// Its podcast was stored, with these many episodes added and updated.
    Committed { added: usize, updated: usize },
    /// It failed; the text names the feed.
    Failed(String),
}

/// The state of a batch: how many feeds it has, how many have reported,
/// how many were stored, the episode counts, and the failed feeds.
pub struct BatchState {
    pub expected: nat,
    pub received: nat,
    pub committed: nat,
    pub added: nat,
    pub updated: nat,
    pub failed: Seq<Seq<char>>,
}

pub open spec fn batch_start(expected: nat) -> BatchState {
    BatchState { expected, received: 0, committed: 0, added: 0, updated: 0, failed: Seq::empty() }
}

pub open spec fn batch_step(s: BatchState, c: Completion) -> BatchState {
    match c {
        Completion::Committed { added, updated } => BatchState {
            received: s.received + 1,
            committed: s.committed + 1,
            added: s.added + added as nat,
            updated: s.updated + updated as nat,
            ..s
        },
        Completion::Failed(name) => BatchState {
            received: s.received + 1,
            failed: s.failed.push(name@),
            ..s
        },
    }
}

pub open spec fn batch_run(s: BatchState, cs: Seq<Completion>) -> BatchState
    decreases cs.len(),
{
    if cs.len() == 0 {
        s
    } else {
        batch_step(batch_run(s, cs.drop_last()), cs.last())
    }
}

/// The names of the failed feeds among `cs`, in order.
pub open spec fn failures_in(cs: Seq<Completion>) -> Seq<Seq<char>>
    decreases cs.len(),
{
    if cs.len() == 0 {
        Seq::empty()
    } else {
        match cs.last() {
            Completion::Failed(name) => failures_in(cs.drop_last()).push(name@),
            _ => failures_in(cs.drop_last()),
        }
    }
}

/// How many feeds among `cs` were stored.
pub open spec fn commits_in(cs: Seq<Completion>) -> nat
    decreases cs.len(),
{
    if cs.len() == 0 {
        0
    } else {
        commits_in(cs.drop_last()) + if cs.last() is Committed {
            1nat
        } else {
            0nat
        }
    }
}

/// Bookkeeping of a batch sync: it takes exactly as many completions as
/// feeds were submitted, in any order, and sums them up.
#[derive(Debug)]
pub struct BatchSync {
    pub expected: usize,
    pub received: usize,
    pub committed: usize,
    pub added: usize,
    pub updated: usize,
    pub failed: Vec<String>,
}

impl BatchSync {
    pub open spec fn state(&self) -> BatchState {
        BatchState {
            expected: self.expected as nat,
            received: self.received as nat,
            committed: self.committed as nat,
            added: self.added as nat,
            updated: self.updated as nat,
            failed: self.failed@.map_values(|n: String| n@),
        }
    }

    /// Whether the counts fit: what the batch has seen so far.
    pub open spec fn wf(&self) -> bool {
        self.received <= self.expected && self.committed <= self.received
    }

    /// A batch of `expected` feeds, none of which has reported.
    pub fn new(expected: usize) -> (r: Self)
        ensures
            r.state() == batch_start(expected as nat),
            r.wf(),
    {
        let r = BatchSync { expected, received: 0, committed: 0, added: 0, updated: 0, failed: Vec::new() };
        assert(r.state().failed =~= Seq::<Seq<char>>::empty());
        r
    }

    /// Whether every submitted feed has reported.
    pub fn is_finished(&self) -> (r: bool)
        ensures
            r == (self.received >= self.expected),
    {
        self.received >= self.expected
    }

    /// Whether no feed of the batch failed.
    pub fn is_success(&self) -> (r: bool)
        ensures
            r == (self.failed@.len() == 0),
    {
        self.failed.len() == 0
    }

    /// Takes the completion of one more feed.
    pub fn record(&mut self, c: Completion)
        requires
            old(self).wf(),
            old(self).received < old(self).expected,
            c matches Completion::Committed { added, updated } ==> old(self).added + added
                <= usize::MAX && old(self).updated + updated <= usize::MAX,
        ensures
            final(self).wf(),
            final(self).state() == batch_step(old(self).state(), c),
    {
        match c {
            Completion::Committed { added, updated } => {
                self.added = self.added + added;
                self.updated = self.updated + updated;
                self.committed = self.committed + 1;
            },
            Completion::Failed(name) => {
                let ghost before = self.failed@;
                self.failed.push(name);
                assert(self.failed@.map_values(|n: String| n@) =~= before.map_values(
                    |n: String| n@,
                ).push(self.failed@.last()@));
            },
        }
        self.received = self.received + 1;
    }
}

/// A failed feed does not hold up the others: after one completion for
/// each of the `cs.len()` feeds of a batch, in any order, the batch is
/// finished, every feed that was stored counts as stored, and the failed
/// feeds are exactly those that failed.
pub proof fn law_batch_isolation(cs: Seq<Completion>)
    ensures
        batch_run(batch_start(cs.len()), cs).received == cs.len(),
        batch_run(batch_start(cs.len()), cs).committed == commits_in(cs),
        batch_run(batch_start(cs.len()), cs).failed == failures_in(cs),
        commits_in(cs) + failures_in(cs).len() == cs.len(),
{
    lemma_batch_run(cs.len(), cs);
}

proof fn lemma_batch_run(n: nat, cs: Seq<Completion>)
    ensures
        batch_run(batch_start(n), cs).expected == n,
        batch_run(batch_start(n), cs).received == cs.len(),
        batch_run(batch_start(n), cs).committed == commits_in(cs),
        batch_run(batch_start(n), cs).failed == failures_in(cs),
        commits_in(cs) + failures_in(cs).len() == cs.len(),
    decreases cs.len(),
{
    if cs.len() > 0 {
        lemma_batch_run(n, cs.drop_last());
    }
}

} // verus!
