//! Bounded non-blocking publish queue.
//!
//! The queue is plain data: whoever shares it between a producer and a worker
//! guards it with a lock, and reports a failed lock attempt through
//! [`refused_enqueue`] and [`refused_receive`].

use crate::publish::PublishError;
use crate::text;
use crate::text::{push_decimal, push_text};
use std::collections::VecDeque;
use vstd::prelude::*;

verus! {

/// Smallest configurable capacity.
pub const MIN_QUEUE_CAPACITY: usize = 1;

/// Largest configurable capacity.
pub const MAX_QUEUE_CAPACITY: usize = 4096;

/// What happens to a new item when the queue is full.
#[derive(Debug, Clone, Copy, PartialEq, Eq, Structural)]
pub enum QueueFullPolicy {
    /// The oldest queued item makes room.
    DropOldest,
    /// The new item is turned away.
    RejectNewest,
}

impl QueueFullPolicy {
    /// Metric label.
    pub open spec fn label(self) -> Seq<char> {
        match self {
            QueueFullPolicy::DropOldest => "drop_oldest"@,
            QueueFullPolicy::RejectNewest => "reject_newest"@,
        }
    }

    /// Metric label.
    pub fn as_str(self) -> (label: &'static str)
        ensures
            label@ == self.label(),
    {
        match self {
            QueueFullPolicy::DropOldest => "drop_oldest",
            QueueFullPolicy::RejectNewest => "reject_newest",
        }
    }
}

/// Why a frame was lost: a closed set of metric labels.
#[derive(Debug, Clone, Copy, PartialEq, Eq, Structural)]
pub enum DropReason {
    /// The oldest queued frame made room for a newer one.
    DropOldest,
    /// A new frame was turned away because the queue was full.
    RejectNewest,
    /// The queue was momentarily locked.
    Contended,
    /// The receiver was gone.
    Disconnected,
    /// The batch failed validation.
    Invalid,
    /// The transport failed to send.
    SendFailed,
}

impl DropReason {
    /// All reasons, in exposition order.
    pub const ALL: [DropReason; 6] = [
        DropReason::DropOldest,
        DropReason::RejectNewest,
        DropReason::Contended,
        DropReason::Disconnected,
        DropReason::Invalid,
        DropReason::SendFailed,
    ];

    /// Metric label.
    pub open spec fn label(self) -> Seq<char> {
        match self {
            DropReason::DropOldest => "drop_oldest"@,
            DropReason::RejectNewest => "reject_newest"@,
            DropReason::Contended => "contended"@,
            DropReason::Disconnected => "disconnected"@,
            DropReason::Invalid => "invalid"@,
            DropReason::SendFailed => "send_failed"@,
        }
    }

    /// Metric label.
    pub fn as_str(self) -> (label: &'static str)
        ensures
            label@ == self.label(),
    {
        match self {
            DropReason::DropOldest => "drop_oldest",
            DropReason::RejectNewest => "reject_newest",
            DropReason::Contended => "contended",
            DropReason::Disconnected => "disconnected",
            DropReason::Invalid => "invalid",
            DropReason::SendFailed => "send_failed",
        }
    }
}

/// Lost frames by reason, each count limited to what fits.
#[derive(Debug, Clone, Copy, PartialEq, Eq, Structural)]
pub struct DropCounts {
    /// Lost to make room.
    pub drop_oldest: u64,
    /// Turned away.
    pub reject_newest: u64,
    /// Lost to a locked queue.
    pub contended: u64,
    /// Lost to a gone receiver.
    pub disconnected: u64,
    /// Lost to failed validation.
    pub invalid: u64,
    /// Lost to the transport.
    pub send_failed: u64,
}

/// One more, limited to what fits.
pub open spec fn one_more(n: u64) -> u64 {
    if n == u64::MAX {
        n
    } else {
        (n + 1) as u64
    }
}

impl DropCounts {
    /// Count for a reason.
    pub open spec fn of(self, reason: DropReason) -> u64 {
        match reason {
            DropReason::DropOldest => self.drop_oldest,
            DropReason::RejectNewest => self.reject_newest,
            DropReason::Contended => self.contended,
            DropReason::Disconnected => self.disconnected,
            DropReason::Invalid => self.invalid,
            DropReason::SendFailed => self.send_failed,
        }
    }

    /// Counts with one more loss for `reason`.
    pub open spec fn with(self, reason: DropReason) -> DropCounts {
        match reason {
            DropReason::DropOldest => DropCounts {
                drop_oldest: one_more(self.drop_oldest),
                ..self
            },
            DropReason::RejectNewest => DropCounts {
                reject_newest: one_more(self.reject_newest),
                ..self
            },
            DropReason::Contended => DropCounts { contended: one_more(self.contended), ..self },
            DropReason::Disconnected => DropCounts {
                disconnected: one_more(self.disconnected),
                ..self
            },
            DropReason::Invalid => DropCounts { invalid: one_more(self.invalid), ..self },
            DropReason::SendFailed => DropCounts {
                send_failed: one_more(self.send_failed),
                ..self
            },
        }
    }

    /// Nothing lost.
    pub open spec fn zero() -> DropCounts {
        DropCounts {
            drop_oldest: 0,
            reject_newest: 0,
            contended: 0,
            disconnected: 0,
            invalid: 0,
            send_failed: 0,
        }
    }

    /// Count for a reason.
    pub fn get(&self, reason: DropReason) -> (n: u64)
        ensures
            n == self.of(reason),
    {
        match reason {
            DropReason::DropOldest => self.drop_oldest,
            DropReason::RejectNewest => self.reject_newest,
            DropReason::Contended => self.contended,
            DropReason::Disconnected => self.disconnected,
            DropReason::Invalid => self.invalid,
            DropReason::SendFailed => self.send_failed,
        }
    }

    /// Counts one loss.
    pub fn record(&mut self, reason: DropReason)
        ensures
            *final(self) == old(self).with(reason),
    {
        match reason {
            DropReason::DropOldest => {
                self.drop_oldest = self.drop_oldest.saturating_add(1);
            },
            DropReason::RejectNewest => {
                self.reject_newest = self.reject_newest.saturating_add(1);
            },
            DropReason::Contended => {
                self.contended = self.contended.saturating_add(1);
            },
            DropReason::Disconnected => {
                self.disconnected = self.disconnected.saturating_add(1);
            },
            DropReason::Invalid => {
                self.invalid = self.invalid.saturating_add(1);
            },
            DropReason::SendFailed => {
                self.send_failed = self.send_failed.saturating_add(1);
            },
        }
    }
}

/// Mathematical state of an [`IsolatedPublishQueue`].
pub struct QueueState<T> {
    /// Queued items, oldest first.
    pub items: Seq<T>,
    /// Whether a receiver is still there.
    pub receiver_alive: bool,
    /// Whether a sender is still there.
    pub senders_alive: bool,
    /// Most items queued at a time.
    pub capacity: int,
    /// What happens when the queue is full.
    pub policy: QueueFullPolicy,
    /// Whether making room is reported as an error.
    pub reports_replacement: bool,
    /// Accepted items so far, limited to what fits.
    pub enqueued: u64,
    /// Lost items by reason.
    pub dropped: DropCounts,
}

impl<T> QueueState<T> {
    /// The queue holds no more than its capacity, which is positive.
    pub open spec fn bounded(self) -> bool {
        self.items.len() <= self.capacity && self.capacity >= 1
    }

    /// The items without the oldest.
    pub open spec fn without_oldest(self) -> Seq<T> {
        if self.items.len() == 0 {
            self.items
        } else {
            self.items.skip(1)
        }
    }

    /// Whether the queue is full.
    pub open spec fn full(self) -> bool {
        self.items.len() >= self.capacity
    }

    /// State and result of enqueuing `item`.
    pub open spec fn enqueuing(self, item: T) -> (QueueState<T>, Result<(), PublishError>) {
        if !self.receiver_alive {
            (
                QueueState { dropped: self.dropped.with(DropReason::Disconnected), ..self },
                Err(PublishError::Disconnected),
            )
        } else if !self.full() {
            (
                QueueState {
                    items: self.items.push(item),
                    enqueued: one_more(self.enqueued),
                    ..self
                },
                Ok(()),
            )
        } else if self.policy == QueueFullPolicy::RejectNewest {
            (
                QueueState { dropped: self.dropped.with(DropReason::RejectNewest), ..self },
                Err(PublishError::SlowConsumer),
            )
        } else {
            (
                QueueState {
                    items: self.without_oldest().push(item),
                    enqueued: one_more(self.enqueued),
                    dropped: self.dropped.with(DropReason::DropOldest),
                    ..self
                },
                if self.reports_replacement {
                    Err(PublishError::SlowConsumer)
                } else {
                    Ok(())
                },
            )
        }
    }
}

/// Bounded non-blocking queue.
///
/// The safety supervisor only enqueues, never receives and never waits, so a
/// slow or missing consumer cannot stall evaluation.
#[derive(Debug)]
pub struct IsolatedPublishQueue<T> {
    items: VecDeque<T>,
    receiver_alive: bool,
    senders_alive: bool,
    capacity: usize,
    policy: QueueFullPolicy,
    reports_replacement: bool,
    enqueued_total: u64,
    dropped: DropCounts,
}

impl<T> View for IsolatedPublishQueue<T> {
    type V = QueueState<T>;

    closed spec fn view(&self) -> QueueState<T> {
        QueueState {
            items: self.items@,
            receiver_alive: self.receiver_alive,
            senders_alive: self.senders_alive,
            capacity: self.capacity as int,
            policy: self.policy,
            reports_replacement: self.reports_replacement,
            enqueued: self.enqueued_total,
            dropped: self.dropped,
        }
    }
}

/// Receiving end of an [`IsolatedPublishQueue`].
#[derive(Debug)]
pub struct PublishReceiver;

/// Why nothing was received.
#[derive(Debug, Clone, Copy, PartialEq, Eq, Structural)]
pub enum ReceiveError {
    /// The queue is empty for now.
    Empty,
    /// The queue is empty and no sender is left.
    Disconnected,
}

/// One step of a waiting receive.
#[derive(Debug, PartialEq, Eq)]
pub enum ReceiveStep<T> {
    /// The next item.
    Item(T),
    /// Nothing yet; wait for a sender and try again.
    Wait,
    /// No sender is left.
    Disconnected,
}

/// An attempt to lock a shared queue that did not succeed.
#[derive(Debug, Clone, Copy, PartialEq, Eq, Structural)]
pub enum LockFailure {
    /// Somebody else holds the lock.
    WouldBlock,
    /// A holder of the lock panicked.
    Poisoned,
}

/// Capacity outside the configurable range.
#[derive(Debug, Clone, Copy, PartialEq, Eq, Structural)]
pub struct CapacityError {
    /// The capacity asked for.
    pub capacity: usize,
}

/// Empty queue with both ends alive.
pub open spec fn opened<T>(
    queue: QueueState<T>,
    capacity: int,
    policy: QueueFullPolicy,
    reports_replacement: bool,
) -> bool {
    queue == (QueueState::<T> {
        items: Seq::empty(),
        receiver_alive: true,
        senders_alive: true,
        capacity,
        policy,
        reports_replacement,
        enqueued: 0,
        dropped: DropCounts::zero(),
    })
}

/// Error of an enqueue that could not lock the queue: never waits.
pub fn refused_enqueue(failure: LockFailure) -> (error: PublishError)
    ensures
        error == (match failure {
            LockFailure::WouldBlock => PublishError::SlowConsumer,
            LockFailure::Poisoned => PublishError::Disconnected,
        }),
{
    match failure {
        LockFailure::WouldBlock => PublishError::SlowConsumer,
        LockFailure::Poisoned => PublishError::Disconnected,
    }
}

/// Error of a receive that could not lock the queue.
pub fn refused_receive(failure: LockFailure) -> (error: ReceiveError)
    ensures
        error == (match failure {
            LockFailure::WouldBlock => ReceiveError::Empty,
            LockFailure::Poisoned => ReceiveError::Disconnected,
        }),
{
    match failure {
        LockFailure::WouldBlock => ReceiveError::Empty,
        LockFailure::Poisoned => ReceiveError::Disconnected,
    }
}

impl<T> IsolatedPublishQueue<T> {
    fn open(capacity: usize, policy: QueueFullPolicy, reports_replacement: bool) -> (queue: Self)
        requires
            capacity >= 1,
        ensures
            opened(queue@, capacity as int, policy, reports_replacement),
    {
        IsolatedPublishQueue {
            items: VecDeque::new(),
            receiver_alive: true,
            senders_alive: true,
            capacity,
            policy,
            reports_replacement,
            enqueued_total: 0,
            dropped: DropCounts {
                drop_oldest: 0,
                reject_newest: 0,
                contended: 0,
                disconnected: 0,
                invalid: 0,
                send_failed: 0,
            },
        }
    }

    /// Queue of at least one item that drops the oldest when full and reports
    /// the loss, plus the receiving end.
    pub fn bounded(capacity: usize) -> (ends: (Self, PublishReceiver))
        ensures
            opened(
                ends.0@,
                if capacity == 0 {
                    1
                } else {
                    capacity as int
                },
                QueueFullPolicy::DropOldest,
                true,
            ),
    {
        let size: usize = if capacity == 0 {
            1
        } else {
            capacity
        };
        (IsolatedPublishQueue::open(size, QueueFullPolicy::DropOldest, true), PublishReceiver)
    }

    /// Queue with a validated capacity and an explicit full-queue policy, plus
    /// the receiving end. Dropping the oldest counts as success.
    pub fn bounded_with_policy(capacity: usize, policy: QueueFullPolicy) -> (outcome: Result<
        (Self, PublishReceiver),
        CapacityError,
    >)
        ensures
            match outcome {
                Ok(ends) => MIN_QUEUE_CAPACITY <= capacity <= MAX_QUEUE_CAPACITY && opened(
                    ends.0@,
                    capacity as int,
                    policy,
                    false,
                ),
                Err(e) => !(MIN_QUEUE_CAPACITY <= capacity <= MAX_QUEUE_CAPACITY) && e.capacity
                    == capacity,
            },
    {
        if capacity < MIN_QUEUE_CAPACITY || capacity > MAX_QUEUE_CAPACITY {
            return Err(CapacityError { capacity });
        }
        Ok((IsolatedPublishQueue::open(capacity, policy, false), PublishReceiver))
    }

    /// Non-blocking enqueue under the queue's full-queue policy.
    pub fn try_enqueue(&mut self, item: T) -> (outcome: Result<(), PublishError>)
        ensures
            final(self)@ == old(self)@.enqueuing(item).0,
            outcome == old(self)@.enqueuing(item).1,
            old(self)@.bounded() ==> final(self)@.bounded(),
    {
        if !self.receiver_alive {
            self.dropped.record(DropReason::Disconnected);
            return Err(PublishError::Disconnected);
        }
        let replaced: bool = self.items.len() >= self.capacity;
        if replaced {
            match self.policy {
                QueueFullPolicy::RejectNewest => {
                    self.dropped.record(DropReason::RejectNewest);
                    return Err(PublishError::SlowConsumer);
                },
                QueueFullPolicy::DropOldest => {
                    let ghost before = self@;
                    let _ = self.items.pop_front();
                    self.dropped.record(DropReason::DropOldest);
                    proof {
                        assert(self.items@ =~= before.without_oldest());
                    }
                },
            }
        }
        self.items.push_back(item);
        self.enqueued_total = self.enqueued_total.saturating_add(1);
        if replaced && self.reports_replacement {
            Err(PublishError::SlowConsumer)
        } else {
            Ok(())
        }
    }

    /// Counts a frame lost outside the queue.
    pub fn record_loss(&mut self, reason: DropReason)
        ensures
            final(self)@ == (QueueState {
                dropped: old(self)@.dropped.with(reason),
                ..old(self)@
            }),
    {
        self.dropped.record(reason);
    }

    /// The last sender is gone.
    pub fn close_senders(&mut self)
        ensures
            final(self)@ == (QueueState { senders_alive: false, ..old(self)@ }),
    {
        self.senders_alive = false;
    }

    /// What the queue looks like to metrics.
    pub fn snapshot(&self) -> (snapshot: QueueSnapshot)
        ensures
            snapshot.depth == self@.items.len(),
            snapshot.capacity == self@.capacity,
            snapshot.enqueued_total == self@.enqueued,
            snapshot.dropped == self@.dropped,
            snapshot.policy == self@.policy,
    {
        QueueSnapshot {
            depth: self.items.len(),
            capacity: self.capacity,
            enqueued_total: self.enqueued_total,
            dropped: self.dropped,
            policy: self.policy,
        }
    }

    fn take_oldest(&mut self) -> (item: Option<T>)
        ensures
            old(self)@.items.len() > 0 ==> item == Some(old(self)@.items[0]) && final(self)@ == (
            QueueState { items: old(self)@.items.skip(1), ..old(self)@ }),
            old(self)@.items.len() == 0 ==> item is None && final(self)@ == old(self)@,
    {
        let ghost before = self.items@;
        let item: Option<T> = self.items.pop_front();
        proof {
            if before.len() > 0 {
                assert(self.items@ =~= before.skip(1));
            }
        }
        item
    }
}

impl PublishReceiver {
    /// One step of receiving the next queued item, for a worker that waits.
    pub fn recv<T>(&self, queue: &mut IsolatedPublishQueue<T>) -> (step: ReceiveStep<T>)
        ensures
            old(queue)@.items.len() > 0 ==> step == ReceiveStep::Item(old(queue)@.items[0])
                && final(queue)@ == (QueueState {
                items: old(queue)@.items.skip(1),
                ..old(queue)@
            }),
            old(queue)@.items.len() == 0 ==> final(queue)@ == old(queue)@ && step == (if old(
                queue,
            )@.senders_alive {
                ReceiveStep::<T>::Wait
            } else {
                ReceiveStep::<T>::Disconnected
            }),
    {
        match queue.take_oldest() {
            Some(item) => ReceiveStep::Item(item),
            None => if queue.senders_alive {
                ReceiveStep::Wait
            } else {
                ReceiveStep::Disconnected
            },
        }
    }

    /// Receive without waiting.
    pub fn try_recv<T>(&self, queue: &mut IsolatedPublishQueue<T>) -> (outcome: Result<
        T,
        ReceiveError,
    >)
        ensures
            old(queue)@.items.len() > 0 ==> outcome == Ok::<T, ReceiveError>(
                old(queue)@.items[0],
            ) && final(queue)@ == (QueueState {
                items: old(queue)@.items.skip(1),
                ..old(queue)@
            }),
            old(queue)@.items.len() == 0 ==> final(queue)@ == old(queue)@ && outcome == Err::<
                T,
                ReceiveError,
            >(
                if old(queue)@.senders_alive {
                    ReceiveError::Empty
                } else {
                    ReceiveError::Disconnected
                },
            ),
    {
        match queue.take_oldest() {
            Some(item) => Ok(item),
            None => if queue.senders_alive {
                Err(ReceiveError::Empty)
            } else {
                Err(ReceiveError::Disconnected)
            },
        }
    }

    /// The receiver goes away: what is queued is discarded, and later enqueues
    /// find the queue disconnected.
    pub fn close<T>(self, queue: &mut IsolatedPublishQueue<T>)
        ensures
            final(queue)@ == (QueueState {
                items: Seq::empty(),
                receiver_alive: false,
                ..old(queue)@
            }),
    {
        queue.receiver_alive = false;
        queue.items = VecDeque::new();
    }
}

/// What a queue looks like to metrics.
#[derive(Debug, Clone, Copy, PartialEq, Eq, Structural)]
pub struct QueueSnapshot {
    /// Items queued.
    pub depth: usize,
    /// Most items queued at a time.
    pub capacity: usize,
    /// Accepted items so far.
    pub enqueued_total: u64,
    /// Lost items by reason.
    pub dropped: DropCounts,
    /// Full-queue policy.
    pub policy: QueueFullPolicy,
}

/// One sample line of the text exposition format.
pub open spec fn sample_line(name: Seq<char>, value: nat) -> Seq<char> {
    (name + " "@ + text::decimal(value)).push('\n')
}

/// One labelled sample line of the text exposition format.
pub open spec fn labelled_line(
    name: Seq<char>,
    key: Seq<char>,
    label: Seq<char>,
    value: nat,
) -> Seq<char> {
    sample_line(name + "{"@ + key + "=\""@ + label + "\"}"@, value)
}

/// Lines of the first `n` drop counters.
pub open spec fn drop_lines(dropped: DropCounts, n: int) -> Seq<char>
    decreases n,
{
    if n <= 0 {
        Seq::empty()
    } else {
        drop_lines(dropped, n - 1) + labelled_line(
            "sensory_queue_dropped_total"@,
            "reason"@,
            DropReason::ALL@[n - 1].label(),
            dropped.of(DropReason::ALL@[n - 1]) as nat,
        )
    }
}

fn push_sample(out: &mut String, name: &str, value: u128)
    ensures
        final(out)@ == old(out)@ + sample_line(name@, value as nat),
{
    push_text(out, name);
    push_text(out, " ");
    push_decimal(out, value);
    out.push('\n');
    proof {
        assert(out@ =~= old(out)@ + sample_line(name@, value as nat));
    }
}

fn push_labelled(out: &mut String, name: &str, key: &str, label: &str, value: u128)
    ensures
        final(out)@ == old(out)@ + labelled_line(name@, key@, label@, value as nat),
{
    let mut full: String = name.to_owned();
    push_text(&mut full, "{");
    push_text(&mut full, key);
    push_text(&mut full, "=\"");
    push_text(&mut full, label);
    push_text(&mut full, "\"}");
    push_sample(out, full.as_str(), value);
}

impl QueueSnapshot {
    /// Text exposition of the queue metrics.
    pub open spec fn exposition(self) -> Seq<char> {
        sample_line("sensory_queue_depth"@, self.depth as nat) + sample_line(
            "sensory_queue_capacity"@,
            self.capacity as nat,
        ) + sample_line("sensory_queue_enqueued_total"@, self.enqueued_total as nat) + drop_lines(
            self.dropped,
            6,
        ) + labelled_line(
            "sensory_queue_full_policy"@,
            "policy"@,
            "drop_oldest"@,
            if self.policy == QueueFullPolicy::DropOldest {
                1
            } else {
                0
            },
        ) + labelled_line(
            "sensory_queue_full_policy"@,
            "policy"@,
            "reject_newest"@,
            if self.policy == QueueFullPolicy::RejectNewest {
                1
            } else {
                0
            },
        )
    }

    /// Text exposition of the queue metrics.
    pub fn prometheus_exposition(&self) -> (text: String)
        ensures
            text@ == self.exposition(),
    {
        let mut out: String = String::new();
        push_sample(&mut out, "sensory_queue_depth", self.depth as u128);
        push_sample(&mut out, "sensory_queue_capacity", self.capacity as u128);
        push_sample(&mut out, "sensory_queue_enqueued_total", self.enqueued_total as u128);
        let ghost head = out@;
        let reasons: [DropReason; 6] = DropReason::ALL;
        let mut i: usize = 0;
        proof {
            assert(head + drop_lines(self.dropped, 0) =~= head);
        }
        while i < 6
            invariant
                i <= 6,
                reasons@ == DropReason::ALL@,
                out@ == head + drop_lines(self.dropped, i as int),
            decreases 6 - i,
        {
            push_labelled(
                &mut out,
                "sensory_queue_dropped_total",
                "reason",
                reasons[i].as_str(),
                self.dropped.get(reasons[i]) as u128,
            );
            i = i + 1;
            proof {
                assert(out@ =~= head + drop_lines(self.dropped, i as int));
            }
        }
        let drops: bool = matches!(self.policy, QueueFullPolicy::DropOldest);
        push_labelled(
            &mut out,
            "sensory_queue_full_policy",
            "policy",
            "drop_oldest",
            if drops {
                1
            } else {
                0
            },
        );
        push_labelled(
            &mut out,
            "sensory_queue_full_policy",
            "policy",
            "reject_newest",
            if drops {
                0
            } else {
                1
            },
        );
        proof {
            assert(out@ =~= self.exposition());
        }
        out
    }
}

/// State after enqueuing items one after the other.
pub open spec fn enqueuing_all<T>(queue: QueueState<T>, items: Seq<T>) -> QueueState<T>
    decreases items.len(),
{
    if items.len() == 0 {
        queue
    } else {
        enqueuing_all(queue, items.drop_last()).enqueuing(items.last()).0
    }
}

/// The newest `n` of a sequence.
pub open spec fn newest<T>(items: Seq<T>, n: int) -> Seq<T> {
    if items.len() <= n {
        items
    } else {
        items.skip(items.len() - n)
    }
}

/// No operation takes a queue beyond its capacity.
pub proof fn lemma_stays_bounded<T>(queue: QueueState<T>, items: Seq<T>)
    requires
        queue.bounded(),
    ensures
        enqueuing_all(queue, items).bounded(),
    decreases items.len(),
{
    if items.len() > 0 {
        lemma_stays_bounded(queue, items.drop_last());
    }
}

/// However many items a paused consumer misses, a drop-oldest queue keeps
/// exactly the newest ones, in order, up to its capacity.
pub proof fn lemma_newest_tail_is_kept<T>(queue: QueueState<T>, items: Seq<T>)
    requires
        queue.receiver_alive,
        queue.policy == QueueFullPolicy::DropOldest,
        queue.bounded(),
    ensures
        enqueuing_all(queue, items).items == newest(queue.items + items, queue.capacity),
        enqueuing_all(queue, items).receiver_alive,
        enqueuing_all(queue, items).policy == queue.policy,
        enqueuing_all(queue, items).capacity == queue.capacity,
    decreases items.len(),
{
    if items.len() == 0 {
        assert(queue.items + items =~= queue.items);
    } else {
        let front = items.drop_last();
        lemma_newest_tail_is_kept(queue, front);
        let kept = newest(queue.items + front, queue.capacity);
        assert(queue.items + items =~= (queue.items + front).push(items.last()));
        if kept.len() >= queue.capacity {
            assert(kept.skip(1).push(items.last()) =~= newest(
                queue.items + items,
                queue.capacity,
            ));
        } else {
            assert(kept.push(items.last()) =~= newest(queue.items + items, queue.capacity));
        }
    }
}

} // verus!
