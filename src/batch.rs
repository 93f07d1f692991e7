//! Delivery of a batch of new issues and the watermark that records the last
//! issue delivered.
//!
//! Issues go out oldest first. The watermark moves to the highest number of
//! the batch only once every issue of it has been delivered; after a failure
//! it stays where it was, so the next run delivers the whole batch again.

use vstd::prelude::*;

use crate::parsers::{IssueModel, IssueRef};
use crate::text::{i32_value, parse_i32, trim, trimmed};

verus! {

/// The watermark that a stored text gives: the number it holds once trimmed,
/// or 0 when it holds none.
pub open spec fn watermark_of(text: Seq<char>) -> int {
    match i32_value(trimmed(text)) {
        Some(v) => v as int,
        None => 0,
    }
}

/// Reads the stored watermark `text`.
pub fn parse_watermark(text: &str) -> (r: i32)
    ensures
        r as int == watermark_of(text@),
{
    match parse_i32(trim(text).as_str()) {
        Some(v) => v,
        None => 0,
    }
}

/// The highest of `w` and the numbers of `q`.
pub open spec fn highest_of(w: int, q: Seq<IssueModel>) -> int
    decreases q.len(),
{
    if q.len() == 0 {
        w
    } else {
        let h = highest_of(w, q.drop_last());
        if q.last().id > h {
            q.last().id
        } else {
            h
        }
    }
}

/// A batch of issues to deliver, oldest first.
#[derive(Debug)]
pub struct Batch {
    watermark: i32,
    queue: Vec<IssueRef>,
    next: usize,
    highest: i32,
    failed: bool,
}

/// What a `Batch` holds.
pub struct BatchModel {
    /// The watermark read at the start of the run.
    pub watermark: int,
    /// The issues, in the order of delivery.
    pub queue: Seq<IssueModel>,
    /// How many of them have been delivered.
    pub next: int,
    /// The highest number among the watermark and the issues delivered.
    pub highest: int,
    /// Whether an issue has failed.
    pub failed: bool,
}

/// What the runner does next.
#[derive(Debug)]
pub enum Step {
    /// Fetch, extract and deliver this issue, then report how it went.
    Deliver(IssueRef),
    /// Store this watermark: every issue went out.
    Save(i32),
    /// Stop without storing anything.
    Stop,
}

/// What a `Step` says.
pub enum StepModel {
    Deliver(IssueModel),
    Save(int),
    Stop,
}

impl View for Step {
    type V = StepModel;

    open spec fn view(&self) -> StepModel {
        match self {
            Step::Deliver(i) => StepModel::Deliver(i@),
            Step::Save(w) => StepModel::Save(*w as int),
            Step::Stop => StepModel::Stop,
        }
    }
}

/// The models of `v`'s issues.
pub open spec fn queue_models(v: Seq<IssueRef>) -> Seq<IssueModel> {
    v.map_values(|r: IssueRef| r@)
}

/// Whether `b` is a state that a batch can be in.
pub open spec fn batch_wf(b: BatchModel) -> bool {
    &&& 0 <= b.next <= b.queue.len()
    &&& b.highest == highest_of(b.watermark, b.queue.take(b.next))
}

/// The batch that starts a run from watermark `w` with the new issues
/// `fresh`, listed newest first.
pub open spec fn batch_start(w: int, fresh: Seq<IssueModel>) -> BatchModel {
    BatchModel { watermark: w, queue: fresh.reverse(), next: 0, highest: w, failed: false }
}

/// The step that state `b` calls for.
pub open spec fn step_of(b: BatchModel) -> StepModel {
    if b.failed {
        StepModel::Stop
    } else if b.next < b.queue.len() {
        StepModel::Deliver(b.queue[b.next])
    } else if b.queue.len() > 0 {
        StepModel::Save(b.highest)
    } else {
        StepModel::Stop
    }
}

/// The state after the issue being delivered has gone out.
pub open spec fn after_delivery(b: BatchModel) -> BatchModel {
    let id = b.queue[b.next].id;
    BatchModel {
        next: b.next + 1,
        highest: if id > b.highest {
            id
        } else {
            b.highest
        },
        ..b
    }
}

/// The state after the issue being delivered has failed.
pub open spec fn after_failure(b: BatchModel) -> BatchModel {
    BatchModel { failed: true, ..b }
}

impl View for Batch {
    type V = BatchModel;

    closed spec fn view(&self) -> BatchModel {
        BatchModel {
            watermark: self.watermark as int,
            queue: queue_models(self.queue@),
            next: self.next as int,
            highest: self.highest as int,
            failed: self.failed,
        }
    }
}

impl Batch {
    /// Starts a run from the watermark `watermark` with the new issues
    /// `fresh`, as the index page lists them (newest first).
    pub fn new(watermark: i32, fresh: Vec<IssueRef>) -> (r: Batch)
        ensures
            r@ == batch_start(watermark as int, queue_models(fresh@)),
            batch_wf(r@),
    {
        let mut fresh = fresh;
        let ghost all = fresh@;
        let mut queue: Vec<IssueRef> = Vec::new();
        while fresh.len() > 0
            invariant
                all.len() == fresh@.len() + queue@.len(),
                fresh@ == all.take(fresh@.len() as int),
                queue_models(queue@) == queue_models(all).reverse().take(queue@.len() as int),
            decreases fresh.len(),
        {
            let ghost k = fresh@.len();
            let item = fresh.pop().unwrap();
            let ghost before = queue@;
            queue.push(item);
            assert(fresh@ =~= all.take(k - 1));
            assert(queue_models(queue@) =~= queue_models(all).reverse().take(queue@.len() as int));
        }
        assert(queue_models(queue@) =~= queue_models(all).reverse());
        let r = Batch { watermark, queue, next: 0, highest: watermark, failed: false };
        assert(r@.queue.take(0) =~= Seq::<IssueModel>::empty());
        r
    }

    /// The step that the runner takes next.
    pub fn next_step(&self) -> (r: Step)
        ensures
            r@ == step_of(self@),
    {
        if self.failed {
            Step::Stop
        } else if self.next < self.queue.len() {
            let item = &self.queue[self.next];
            Step::Deliver(IssueRef { id: item.id, url: item.url.clone() })
        } else if self.queue.len() > 0 {
            Step::Save(self.highest)
        } else {
            Step::Stop
        }
    }

    /// Records that the issue of the last `Deliver` step went out.
    pub fn delivered(&mut self)
        requires
            batch_wf(old(self)@),
            step_of(old(self)@) is Deliver,
        ensures
            final(self)@ == after_delivery(old(self)@),
            batch_wf(final(self)@),
    {
        let ghost b = self@;
        assert(b.queue.len() == self.queue@.len());
        let len = self.queue.len();
        let at = self.next;
        assert(at < len);
        let id = self.queue[at].id;
        if id > self.highest {
            self.highest = id;
        }
        self.next = at + 1;
        assert(b.queue.take(b.next + 1).drop_last() =~= b.queue.take(b.next));
        assert(b.queue.take(b.next + 1).last() == b.queue[b.next]);
    }

    /// Records that the issue of the last `Deliver` step failed.
    pub fn failed(&mut self)
        ensures
            final(self)@ == after_failure(old(self)@),
    {
        self.failed = true;
    }
}

/// The state after a run of reports: `true` for an issue that went out,
/// `false` for one that failed. Reports that no `Deliver` step asked for
/// leave the state as it is.
pub open spec fn replay(b: BatchModel, reports: Seq<bool>) -> BatchModel
    decreases reports.len(),
{
    if reports.len() == 0 {
        b
    } else {
        let prev = replay(b, reports.drop_last());
        if step_of(prev) is Deliver {
            if reports.last() {
                after_delivery(prev)
            } else {
                after_failure(prev)
            }
        } else {
            prev
        }
    }
}

proof fn lemma_replay_wf(b: BatchModel, reports: Seq<bool>)
    requires
        batch_wf(b),
    ensures
        batch_wf(replay(b, reports)),
        replay(b, reports).watermark == b.watermark,
        replay(b, reports).queue == b.queue,
        b.failed ==> replay(b, reports).failed,
    decreases reports.len(),
{
    if reports.len() > 0 {
        let prev = replay(b, reports.drop_last());
        lemma_replay_wf(b, reports.drop_last());
        if step_of(prev) is Deliver && reports.last() {
            assert(prev.queue.take(prev.next + 1).drop_last() =~= prev.queue.take(prev.next));
        }
    }
}

/// Once an issue of the batch has failed, the runner stops and no watermark
/// is stored: the stored one stays as it was.
pub proof fn lemma_failure_keeps_watermark(w: int, fresh: Seq<IssueModel>, reports: Seq<bool>, i: int)
    requires
        0 <= i < reports.len(),
        !reports[i],
        step_of(replay(batch_start(w, fresh), reports.take(i))) is Deliver,
    ensures
        step_of(replay(batch_start(w, fresh), reports)) == StepModel::Stop,
    decreases reports.len(),
{
    let b = batch_start(w, fresh);
    assert(b.queue.take(0) =~= Seq::<IssueModel>::empty());
    if i == reports.len() - 1 {
        assert(reports.drop_last() =~= reports.take(i));
    } else {
        assert(reports.drop_last().take(i) =~= reports.take(i));
        lemma_failure_keeps_watermark(w, fresh, reports.drop_last(), i);
        lemma_replay_wf(b, reports.drop_last());
    }
    lemma_replay_wf(b, reports);
}

/// When every issue of a non-empty batch has gone out, the runner stores the
/// highest of the old watermark and the numbers of the batch.
pub proof fn lemma_success_saves_highest(w: int, fresh: Seq<IssueModel>, reports: Seq<bool>)
    requires
        fresh.len() > 0,
        reports.len() == fresh.len(),
        forall|i: int| 0 <= i < reports.len() ==> #[trigger] reports[i],
    ensures
        step_of(replay(batch_start(w, fresh), reports)) == StepModel::Save(
            highest_of(w, fresh.reverse()),
        ),
{
    let b = batch_start(w, fresh);
    assert(b.queue.take(0) =~= Seq::<IssueModel>::empty());
    lemma_all_delivered(b, reports);
    assert(b.queue.take(b.queue.len() as int) =~= b.queue);
}

proof fn lemma_all_delivered(b: BatchModel, reports: Seq<bool>)
    requires
        batch_wf(b),
        b.next == 0,
        !b.failed,
        reports.len() <= b.queue.len(),
        forall|i: int| 0 <= i < reports.len() ==> #[trigger] reports[i],
    ensures
        replay(b, reports).next == reports.len(),
        !replay(b, reports).failed,
        batch_wf(replay(b, reports)),
        replay(b, reports).queue == b.queue,
        replay(b, reports).watermark == b.watermark,
    decreases reports.len(),
{
    if reports.len() > 0 {
        lemma_all_delivered(b, reports.drop_last());
        let prev = replay(b, reports.drop_last());
        assert(reports.last() == reports[reports.len() - 1]);
        assert(prev.queue.take(prev.next + 1).drop_last() =~= prev.queue.take(prev.next));
    }
}

} // verus!
