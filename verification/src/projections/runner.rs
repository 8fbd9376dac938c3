//! Drives one projection: which events of a batch it gets, where its checkpoint
//! stands, and when it goes back to the store.
//!
//! A batch is applied together with its checkpoint. Events at or below the
//! checkpoint are left out, so a batch that is delivered again applies nothing.
use vstd::prelude::*;

use super::Projection;

verus! {

/// Events read per catch-up round trip.
pub const DEFAULT_BATCH: usize = 256;

/// What a rebuild did.
#[derive(Debug, Clone, Copy, PartialEq, Eq)]
pub struct RebuildReport {
    pub name: &'static str,
    /// Events replayed.
    pub events: u64,
    /// Checkpoint after the rebuild.
    pub position: u64,
}

/// An event as the runner sees it: its position and its type.
#[derive(Debug, PartialEq, Eq)]
pub struct Delivery {
    pub position: u64,
    pub event_type: String,
}

/// What to do with a batch: the indices of the events to fold, in order, and
/// the position to store as the checkpoint in the same transaction.
#[derive(Debug, PartialEq, Eq)]
pub struct BatchPlan {
    pub fold: Vec<usize>,
    pub checkpoint: u64,
}

/// What a message of the bus asks for.
#[derive(Debug, Clone, Copy, PartialEq, Eq, Structural)]
pub enum Next {
    /// Already applied.
    Skip,
    /// The very next event: apply it alone.
    Apply,
    /// A gap: the store is the source of truth.
    CatchUp,
}

/// A message of the bus.
#[derive(Debug, Clone, Copy, PartialEq, Eq, Structural)]
pub enum BusMessage {
    Live { position: u64 },
    Lagged { from: u64, to: u64 },
}

/// Runs one projection.
#[derive(Debug, Clone, Copy, PartialEq, Eq, Structural)]
pub struct ProjectionRunner {
    pub projection: Projection,
    pub batch: usize,
    /// Position processed so far.
    pub last: u64,
}

/// The highest position of a batch.
pub open spec fn highest(events: Seq<Delivery>) -> int
    decreases events.len(),
{
    if events.len() == 0 {
        0
    } else {
        let before = highest(events.drop_last());
        if events.last().position > before {
            events.last().position as int
        } else {
            before
        }
    }
}

impl ProjectionRunner {
    /// The event at index `i` is new and wanted.
    pub open spec fn folds(self, events: Seq<Delivery>, i: int) -> bool {
        events[i].position > self.last && self.projection.wants(events[i].event_type@)
    }

    /// The indices of the events to fold, in order.
    pub open spec fn to_fold(self, events: Seq<Delivery>) -> Seq<usize>
        decreases events.len(),
    {
        if events.len() == 0 {
            Seq::empty()
        } else {
            let before = self.to_fold(events.drop_last());
            if self.folds(events, events.len() - 1) {
                before.push((events.len() - 1) as usize)
            } else {
                before
            }
        }
    }

    /// What a message of the bus asks for.
    pub open spec fn next(self, message: BusMessage) -> Next {
        match message {
            BusMessage::Live { position } => if position <= self.last {
                Next::Skip
            } else if position == self.last + 1 {
                Next::Apply
            } else {
                Next::CatchUp
            },
            BusMessage::Lagged { .. } => Next::CatchUp,
        }
    }

    /// How far the projection is behind the head of the stream.
    pub open spec fn behind(self, head: u64) -> int {
        if head > self.last {
            head - self.last
        } else {
            0
        }
    }

    /// The runner once a batch with this checkpoint is committed.
    pub open spec fn moved(self, checkpoint: u64) -> ProjectionRunner {
        ProjectionRunner {
            last: if checkpoint > self.last {
                checkpoint
            } else {
                self.last
            },
            ..self
        }
    }

    /// A runner at the start of the stream.
    pub fn new(projection: Projection) -> (r: ProjectionRunner)
        ensures
            r == (ProjectionRunner { projection, batch: DEFAULT_BATCH, last: 0 }),
    {
        ProjectionRunner { projection, batch: DEFAULT_BATCH, last: 0 }
    }

    /// Sets the catch-up batch size; zero is the default.
    pub fn with_batch(self, batch: usize) -> (r: ProjectionRunner)
        ensures
            r == (ProjectionRunner {
                batch: if batch == 0 {
                    DEFAULT_BATCH
                } else {
                    batch
                },
                ..self
            }),
    {
        let mut r = self;
        r.batch = if batch == 0 {
            DEFAULT_BATCH
        } else {
            batch
        };
        r
    }

    /// The projection's name.
    pub fn name(&self) -> (r: &'static str)
        ensures
            r@ == self.projection.key(),
    {
        self.projection.name()
    }

    /// Position processed so far.
    pub fn position(&self) -> (r: u64)
        ensures
            r == self.last,
    {
        self.last
    }

    /// Takes the stored checkpoint; none is the start of the stream.
    pub fn load_checkpoint(&mut self, stored: Option<u64>) -> (r: u64)
        ensures
            *final(self) == (ProjectionRunner { last: stored.unwrap_or(0), ..*old(self) }),
            r == final(self).last,
    {
        self.last = match stored {
            Some(position) => position,
            None => 0,
        };
        self.last
    }

    /// What to do with a batch; nothing for an empty one.
    pub fn plan(&self, events: &Vec<Delivery>) -> (r: Option<BatchPlan>)
        ensures
            match r {
                Some(plan) => events@.len() > 0 && plan.fold@ == self.to_fold(events@)
                    && plan.checkpoint == highest(events@),
                None => events@.len() == 0,
            },
    {
        if events.len() == 0 {
            return None;
        }
        let mut fold: Vec<usize> = Vec::new();
        let mut checkpoint: u64 = 0;
        let mut i: usize = 0;
        while i < events.len()
            invariant
                i <= events@.len(),
                fold@ == self.to_fold(events@.subrange(0, i as int)),
                checkpoint == highest(events@.subrange(0, i as int)),
            decreases events@.len() - i,
        {
            proof {
                let next = events@.subrange(0, i + 1);
                assert(next.drop_last() =~= events@.subrange(0, i as int));
                assert(next.last() == events@[i as int]);
                assert(next[i as int] == events@[i as int]);
            }
            if events[i].position > checkpoint {
                checkpoint = events[i].position;
            }
            if events[i].position > self.last && self.projection.handles(
                events[i].event_type.as_str(),
            ) {
                fold.push(i);
            }
            i = i + 1;
        }
        assert(events@.subrange(0, events@.len() as int) =~= events@);
        Some(BatchPlan { fold, checkpoint })
    }

    /// The batch is committed: the position moves to its checkpoint, never back.
    pub fn committed(&mut self, checkpoint: u64)
        ensures
            *final(self) == old(self).moved(checkpoint),
    {
        if checkpoint > self.last {
            self.last = checkpoint;
        }
    }

    /// Back to the start of the stream, for a rebuild.
    pub fn restart(&mut self)
        ensures
            *final(self) == (ProjectionRunner { last: 0, ..*old(self) }),
    {
        self.last = 0;
    }

    /// What a rebuild that replayed `events` events did.
    pub fn report(&self, events: u64) -> (r: RebuildReport)
        ensures
            r.name@ == self.projection.key(),
            r.events == events,
            r.position == self.last,
    {
        RebuildReport { name: self.name(), events, position: self.last }
    }

    /// What a message of the bus asks for.
    pub fn on_message(&self, message: BusMessage) -> (r: Next)
        ensures
            r == self.next(message),
    {
        match message {
            BusMessage::Live { position } => {
                if position <= self.last {
                    Next::Skip
                } else if position - self.last == 1 {
                    Next::Apply
                } else {
                    Next::CatchUp
                }
            },
            BusMessage::Lagged { .. } => Next::CatchUp,
        }
    }

    /// How far the projection is behind the head of the stream.
    pub fn lag(&self, head: u64) -> (r: u64)
        ensures
            r == self.behind(head),
    {
        head.saturating_sub(self.last)
    }
}

/// The head of the stream from a column; zero where there is none.
pub fn head_position(head: Option<i64>) -> (r: u64)
    ensures
        r == (match head {
            Some(n) => if n < 0 {
                0
            } else {
                n as int
            },
            None => 0,
        }),
{
    match head {
        Some(n) => if n < 0 {
            0
        } else {
            n as u64
        },
        None => 0,
    }
}

/// The checkpoint column after a batch.
pub open spec fn checkpoint_column(stored: Option<i64>, position: u64) -> i64 {
    match stored {
        Some(n) => if n > super::clamp_spec(position) {
            n
        } else {
            super::clamp_spec(position)
        },
        None => super::clamp_spec(position),
    }
}

/// The checkpoint column after a batch: never below the stored one.
pub fn set_checkpoint(stored: Option<i64>, position: u64) -> (r: i64)
    ensures
        r == checkpoint_column(stored, position),
{
    let new: i64 = super::clamp(position);
    match stored {
        Some(n) => if n > new {
            n
        } else {
            new
        },
        None => new,
    }
}

// ---------------------------------------------------------------------------
// Laws
// ---------------------------------------------------------------------------
proof fn lemma_highest(events: Seq<Delivery>, i: int)
    requires
        0 <= i < events.len(),
    ensures
        events[i].position <= highest(events),
    decreases events.len(),
{
    if i < events.len() - 1 {
        lemma_highest(events.drop_last(), i);
        assert(events.drop_last()[i] == events[i]);
    }
}

proof fn lemma_nothing_to_fold(r: ProjectionRunner, events: Seq<Delivery>)
    requires
        forall|i: int| 0 <= i < events.len() ==> (#[trigger] events[i]).position <= r.last,
    ensures
        r.to_fold(events).len() == 0,
    decreases events.len(),
{
    if events.len() > 0 {
        let before = events.drop_last();
        assert forall|i: int| 0 <= i < before.len() implies (#[trigger] before[i]).position
            <= r.last by {
            assert(before[i] == events[i]);
        }
        lemma_nothing_to_fold(r, before);
    }
}

/// A batch that was committed and is delivered again folds nothing: every event
/// is applied at most once.
pub proof fn law_redelivery_folds_nothing(
    r: ProjectionRunner,
    events: Seq<Delivery>,
    after: ProjectionRunner,
)
    requires
        after.projection == r.projection,
        after.last >= highest(events),
    ensures
        after.to_fold(events).len() == 0,
{
    assert forall|i: int| 0 <= i < events.len() implies (#[trigger] events[i]).position
        <= after.last by {
        lemma_highest(events, i);
    }
    lemma_nothing_to_fold(after, events);
}

/// The events that are folded are exactly the new and wanted ones, in order.
pub proof fn law_folds_exactly_the_new_ones(r: ProjectionRunner, events: Seq<Delivery>)
    requires
        events.len() <= usize::MAX,
    ensures
        forall|k: int|
            0 <= k < r.to_fold(events).len() ==> (#[trigger] r.to_fold(events)[k]) < events.len()
                && r.folds(events, r.to_fold(events)[k] as int),
        forall|i: int|
            0 <= i < events.len() && r.folds(events, i) ==> r.to_fold(events).contains(
                #[trigger] (i as usize),
            ),
        forall|k: int, l: int|
            0 <= k < l < r.to_fold(events).len() ==> (#[trigger] r.to_fold(events)[k]) < (
            #[trigger] r.to_fold(events)[l]),
    decreases events.len(),
{
    if events.len() > 0 {
        let before = events.drop_last();
        let n = (events.len() - 1) as int;
        law_folds_exactly_the_new_ones(r, before);
        let f = r.to_fold(before);
        let g = r.to_fold(events);
        assert forall|i: int| 0 <= i < n implies r.folds(events, i) == #[trigger] r.folds(before, i) by {
            assert(events[i] == before[i]);
        }
        assert forall|k: int| 0 <= k < g.len() implies (#[trigger] g[k]) < events.len() && r.folds(
            events,
            g[k] as int,
        ) by {
            if k < f.len() {
                assert(g[k] == f[k]);
                assert(r.folds(before, f[k] as int));
            }
        }
        assert forall|i: int| 0 <= i < events.len() && r.folds(events, i) implies g.contains(
            #[trigger] (i as usize),
        ) by {
            if i < n {
                assert(r.folds(before, i));
                assert(f.contains(i as usize));
                let k = choose|k: int| 0 <= k < f.len() && f[k] == i as usize;
                assert(g[k] == i as usize);
            } else {
                assert(g[g.len() - 1] == i as usize);
            }
        }
        assert forall|k: int, l: int| 0 <= k < l < g.len() implies (#[trigger] g[k]) < (
        #[trigger] g[l]) by {
            assert(g[k] == f[k]);
            if l < f.len() {
                assert(g[l] == f[l]);
            } else {
                assert(f[k] < before.len());
            }
        }
    }
}

/// A message at or below the checkpoint is skipped, the very next one is applied,
/// and a gap or a lag sends the runner to the store: nothing is applied out of
/// order, and nothing is missed.
pub proof fn law_messages_are_taken_in_order(r: ProjectionRunner, position: u64, from: u64, to: u64)
    ensures
        r.next(BusMessage::Live { position }) == Next::Skip <==> position <= r.last,
        r.next(BusMessage::Live { position }) == Next::Apply <==> position == r.last + 1,
        r.next(BusMessage::Live { position }) == Next::CatchUp <==> position > r.last + 1,
        r.next(BusMessage::Lagged { from, to }) == Next::CatchUp,
{
}

/// The checkpoint of a batch is the position of one of its events, and none of
/// them is behind it.
pub proof fn law_the_checkpoint_is_the_last_event(events: Seq<Delivery>)
    requires
        events.len() > 0,
    ensures
        forall|i: int|
            0 <= i < events.len() ==> (#[trigger] events[i]).position <= highest(events),
        exists|i: int| 0 <= i < events.len() && (#[trigger] events[i]).position == highest(events),
    decreases events.len(),
{
    assert forall|i: int| 0 <= i < events.len() implies (#[trigger] events[i]).position <= highest(
        events,
    ) by {
        lemma_highest(events, i);
    }
    let before = events.drop_last();
    if events.last().position > highest(before) || before.len() == 0 {
        assert(events[events.len() - 1].position == highest(events));
    } else {
        law_the_checkpoint_is_the_last_event(before);
        let i = choose|i: int|
            0 <= i < before.len() && (#[trigger] before[i]).position == highest(before);
        assert(events[i].position == highest(events));
    }
}

/// The position only moves forward, to the checkpoint of what was committed; the
/// stored checkpoint does the same.
pub proof fn law_positions_never_go_back(
    r: ProjectionRunner,
    checkpoint: u64,
    stored: Option<i64>,
)
    ensures
        r.moved(checkpoint).last >= r.last,
        r.moved(checkpoint).last >= checkpoint,
        r.moved(checkpoint).last == r.last || r.moved(checkpoint).last == checkpoint,
        r.moved(checkpoint).projection == r.projection,
        stored matches Some(n) ==> checkpoint_column(stored, checkpoint) >= n,
        checkpoint <= i64::MAX ==> checkpoint_column(stored, checkpoint) >= checkpoint,
        checkpoint <= i64::MAX && (stored matches Some(n) ==> n <= checkpoint)
            ==> checkpoint_column(stored, checkpoint) == checkpoint,
{
}

/// How far a projection is behind: what is missing up to the head, and nothing
/// where it has caught up.
pub proof fn law_the_lag_is_what_is_missing(r: ProjectionRunner, head: u64)
    ensures
        head >= r.last ==> r.behind(head) == head - r.last,
        head <= r.last ==> r.behind(head) == 0,
{
}

} // verus!
