//! Fence bookkeeping of one submission queue.
//!
//! A queue signals its fence with strictly increasing values, one per submission. The
//! queue remembers the highest value it knows the device to have reached, so that most
//! completion questions are answered without asking the device again.

use vstd::prelude::*;

verus! {

/// The kind of work a queue accepts. The codes are those of the device API.
#[derive(Clone, Copy, Debug, PartialEq, Eq, Structural)]
pub enum QueueKind {
    Direct,
    Bundle,
    Compute,
    Copy,
    VideoDecode,
    VideoProcess,
    VideoEncode,
}

/// The distance between the fence ranges of two neighbouring queue kinds: `1 << 56`.
pub const FENCE_RANGE: u64 = 0x0100_0000_0000_0000;

impl QueueKind {
    /// The device API's number for this kind.
    pub open spec fn code(self) -> int {
        match self {
            QueueKind::Direct => 0,
            QueueKind::Bundle => 1,
            QueueKind::Compute => 2,
            QueueKind::Copy => 3,
            QueueKind::VideoDecode => 4,
            QueueKind::VideoProcess => 5,
            QueueKind::VideoEncode => 6,
        }
    }

    /// The fence value a queue of this kind starts from: the code in the top byte.
    pub open spec fn base(self) -> int {
        self.code() * FENCE_RANGE
    }

    /// The device API's number for this kind.
    pub fn type_code(&self) -> (code: u64)
        ensures
            code == self.code(),
    {
        match self {
            QueueKind::Direct => 0,
            QueueKind::Bundle => 1,
            QueueKind::Compute => 2,
            QueueKind::Copy => 3,
            QueueKind::VideoDecode => 4,
            QueueKind::VideoProcess => 5,
            QueueKind::VideoEncode => 6,
        }
    }

    /// The fence value a queue of this kind starts from. The device fence is signalled
    /// with it once, when the queue is created.
    pub fn initial_fence_value(&self) -> (value: u64)
        ensures
            value == self.base(),
    {
        self.type_code() * FENCE_RANGE
    }
}

/// What a queue knows, as numbers.
pub struct CommandQueueView {
    pub kind: QueueKind,
    /// The highest fence value known to be complete.
    pub last: int,
    /// The value the next submission will signal.
    pub next: int,
}

impl CommandQueueView {
    /// Whether the cached bound alone shows `fence_value` complete.
    pub open spec fn covers(self, fence_value: int) -> bool {
        fence_value <= self.last
    }

    /// The queue after the device reported `completed`.
    pub open spec fn polled(self, completed: int) -> Self {
        CommandQueueView {
            last: if completed > self.last { completed } else { self.last },
            ..self
        }
    }

    /// The queue after a completion question about `fence_value`: the device's report is
    /// used only where the cached bound does not answer.
    pub open spec fn observed(self, fence_value: int, completed: int) -> Self {
        if self.covers(fence_value) {
            self
        } else {
            self.polled(completed)
        }
    }

    /// The queue after a blocking wait for `fence_value` has returned.
    pub open spec fn waited(self, fence_value: int) -> Self {
        self.polled(fence_value)
    }

    /// The queue after one more submission.
    pub open spec fn submitted(self) -> Self {
        CommandQueueView { next: self.next + 1, ..self }
    }

    /// The invariant of a queue: both counters lie in the queue kind's own range, and a
    /// value is left to signal.
    pub open spec fn wf(self) -> bool {
        &&& self.kind.base() <= self.last <= u64::MAX
        &&& self.kind.base() < self.next <= u64::MAX
    }
}

/// A GPU-side wait to enqueue: work submitted to `waiter` afterwards does not start
/// until the fence of `signaller` reaches `fence_value`.
#[derive(Clone, Copy, Debug, PartialEq, Eq, Structural)]
pub struct FenceWait {
    pub waiter: QueueKind,
    pub signaller: QueueKind,
    pub fence_value: u64,
}

impl FenceWait {
    /// Whether the device lets the waiter's later work start: it does once the fence
    /// of the signaller has reached the value.
    pub open spec fn satisfied_by(self, completed: int) -> bool {
        self.fence_value <= completed
    }
}

/// Fence bookkeeping of one submission queue.
#[derive(Debug)]
pub struct CommandQueue {
    kind: QueueKind,
    last_fence_value: u64,
    next_fence_value: u64,
}

impl View for CommandQueue {
    type V = CommandQueueView;

    closed spec fn view(&self) -> CommandQueueView {
        CommandQueueView {
            kind: self.kind,
            last: self.last_fence_value as int,
            next: self.next_fence_value as int,
        }
    }
}

impl CommandQueue {
    /// Holds of every queue that exists.
    #[verifier::type_invariant]
    pub open spec fn inv(self) -> bool {
        self@.wf()
    }

    /// A queue of the given kind on which nothing was submitted yet.
    pub fn new(kind: QueueKind) -> (queue: CommandQueue)
        ensures
            queue@ == (CommandQueueView { kind, last: kind.base(), next: kind.base() + 1 }),
    {
        let base = kind.initial_fence_value();
        CommandQueue { kind, last_fence_value: base, next_fence_value: base + 1 }
    }

    /// The kind of work this queue accepts.
    pub fn kind(&self) -> (kind: QueueKind)
        ensures
            kind == self@.kind,
    {
        self.kind
    }

    /// The highest fence value known to be complete.
    pub fn last_fence_value(&self) -> (value: u64)
        ensures
            value == self@.last,
    {
        self.last_fence_value
    }

    /// The value the next submission will signal.
    pub fn next_fence_value(&self) -> (value: u64)
        ensures
            value == self@.next,
    {
        self.next_fence_value
    }

    /// Whether a completion question about `fence_value` has to ask the device.
    pub fn needs_poll(&self, fence_value: u64) -> (needed: bool)
        ensures
            needed == !self@.covers(fence_value as int),
    {
        fence_value > self.last_fence_value
    }

    /// Records the value the device fence reported and returns the new bound.
    pub fn poll_fence_value(&mut self, completed: u64) -> (bound: u64)
        ensures
            final(self)@ == old(self)@.polled(completed as int),
            bound == final(self)@.last,
        no_unwind
    {
        proof {
            use_type_invariant(&*self);
        }
        if completed > self.last_fence_value {
            self.last_fence_value = completed;
        }
        self.last_fence_value
    }

    /// Whether `fence_value` is complete. `completed` is what the device fence reports;
    /// it is looked at only when the cached bound does not already cover `fence_value`.
    pub fn is_fence_complete(&mut self, fence_value: u64, completed: u64) -> (done: bool)
        ensures
            final(self)@ == old(self)@.observed(fence_value as int, completed as int),
            done == final(self)@.covers(fence_value as int),
        no_unwind
    {
        if fence_value > self.last_fence_value {
            self.poll_fence_value(completed);
        }
        fence_value <= self.last_fence_value
    }

    /// The wait to enqueue on this queue for a value of its own fence.
    pub fn insert_wait(&self, fence_value: u64) -> (wait: FenceWait)
        ensures
            wait == (FenceWait { waiter: self@.kind, signaller: self@.kind, fence_value }),
    {
        FenceWait { waiter: self.kind, signaller: self.kind, fence_value }
    }

    /// The wait to enqueue on this queue for a value of the fence of `queue`.
    pub fn insert_wait_for_queue_fence(&self, queue: &CommandQueue, fence_value: u64) -> (wait:
        FenceWait)
        ensures
            wait == (FenceWait { waiter: self@.kind, signaller: queue@.kind, fence_value }),
    {
        FenceWait { waiter: self.kind, signaller: queue.kind, fence_value }
    }

    /// Decides whether the calling thread has to block for `fence_value`: `None` when it
    /// is already complete, otherwise the value to arm the wait object with. After the
    /// wait has returned, `complete_blocking_wait` records it.
    pub fn wait_for_fence_blocking(&mut self, fence_value: u64, completed: u64) -> (arm: Option<
        u64,
    >)
        ensures
            final(self)@ == old(self)@.observed(fence_value as int, completed as int),
            arm == if final(self)@.covers(fence_value as int) {
                None
            } else {
                Some(fence_value)
            },
    {
        if self.is_fence_complete(fence_value, completed) {
            None
        } else {
            Some(fence_value)
        }
    }

    /// Records that a blocking wait for `fence_value` has returned.
    pub fn complete_blocking_wait(&mut self, fence_value: u64)
        ensures
            final(self)@ == old(self)@.waited(fence_value as int),
            final(self)@.covers(fence_value as int),
    {
        self.poll_fence_value(fence_value);
    }

    /// Takes the next fence value for a submission and returns it. The device queue is
    /// signalled with the returned value.
    pub fn execute_command_list(&mut self) -> (signalled: u64)
        requires
            old(self)@.next < u64::MAX,
        ensures
            signalled == old(self)@.next,
            final(self)@ == old(self)@.submitted(),
        no_unwind
    {
        proof {
            use_type_invariant(&*self);
        }
        let value_to_signal = self.next_fence_value;
        self.next_fence_value = self.next_fence_value + 1;
        value_to_signal
    }

    /// The highest fence value issued so far.
    pub fn last_issued_fence_value(&self) -> (value: u64)
        ensures
            value == self@.next - 1,
    {
        proof {
            use_type_invariant(self);
        }
        self.next_fence_value - 1
    }

    /// Decides whether the calling thread has to block until the queue is idle, that
    /// is until the highest fence value issued so far is complete.
    pub fn wait_for_idle(&mut self, completed: u64) -> (arm: Option<u64>)
        ensures
            final(self)@ == old(self)@.observed(old(self)@.next - 1, completed as int),
            arm == if final(self)@.covers(old(self)@.next - 1) {
                None
            } else {
                Some((old(self)@.next - 1) as u64)
            },
    {
        let idle = self.last_issued_fence_value();
        self.wait_for_fence_blocking(idle, completed)
    }
}

/// A fence value is reported complete only once the device has reached it: while the
/// cached bound does not run ahead of the device, the answer to a completion question is
/// exactly whether the device's value has reached the one asked about, and the bound
/// still does not run ahead afterwards.
pub proof fn lemma_complete_only_when_reached(
    queue: CommandQueueView,
    fence_value: int,
    completed: int,
)
    requires
        queue.last <= completed,
    ensures
        queue.observed(fence_value, completed).covers(fence_value) <==> fence_value <= completed,
        queue.observed(fence_value, completed).last <= completed,
{
}

/// A fence value that was once reported complete stays complete, as does every lower
/// value: whatever the device reports later, whatever is waited for or submitted, the
/// answer remains yes.
pub proof fn lemma_complete_stays_complete(
    queue: CommandQueueView,
    fence_value: int,
    lower: int,
    later_question: int,
    later_report: int,
)
    requires
        queue.covers(fence_value),
        lower <= fence_value,
    ensures
        queue.covers(lower),
        queue.polled(later_report).covers(lower),
        queue.observed(later_question, later_report).covers(lower),
        queue.waited(later_question).covers(lower),
        queue.submitted().covers(lower),
        queue.observed(lower, later_report) == queue,
{
}

/// The cached bound never decreases.
pub proof fn lemma_bound_is_monotonic(queue: CommandQueueView, question: int, report: int)
    ensures
        queue.last <= queue.polled(report).last,
        queue.last <= queue.observed(question, report).last,
        queue.last <= queue.waited(question).last,
        queue.last == queue.submitted().last,
{
}

/// One thing that can happen to a queue.
pub enum QueueStep {
    /// The device reported a completed value.
    Polled { completed: u64 },
    /// A completion question was asked, with the device's report at hand.
    Observed { fence_value: u64, completed: u64 },
    /// A blocking wait for a fence value returned.
    Waited { fence_value: u64 },
    /// A command list was submitted.
    Submitted,
}

impl CommandQueueView {
    /// The queue after one step. A submission that would leave no fence value to
    /// signal does not happen.
    pub open spec fn step(self, step: QueueStep) -> Self {
        match step {
            QueueStep::Polled { completed } => self.polled(completed as int),
            QueueStep::Observed { fence_value, completed } => self.observed(
                fence_value as int,
                completed as int,
            ),
            QueueStep::Waited { fence_value } => self.waited(fence_value as int),
            QueueStep::Submitted => if self.next < u64::MAX {
                self.submitted()
            } else {
                self
            },
        }
    }

    /// The queue after a sequence of steps.
    pub open spec fn run(self, steps: Seq<QueueStep>) -> Self
        decreases steps.len(),
    {
        if steps.len() == 0 {
            self
        } else {
            self.step(steps[0]).run(steps.drop_first())
        }
    }
}

/// Whatever happens to a queue, in whatever order: the invariant holds throughout,
/// the cached bound never decreases, and a fence value that was reported complete is
/// complete forever after, as is every lower value.
pub proof fn lemma_completion_is_monotonic(
    queue: CommandQueueView,
    steps: Seq<QueueStep>,
    fence_value: int,
)
    requires
        queue.wf(),
    ensures
        queue.run(steps).wf(),
        queue.last <= queue.run(steps).last,
        queue.next <= queue.run(steps).next,
        queue.covers(fence_value) ==> queue.run(steps).covers(fence_value),
    decreases steps.len(),
{
    if steps.len() > 0 {
        lemma_completion_is_monotonic(queue.step(steps[0]), steps.drop_first(), fence_value);
    }
}

} // verus!
