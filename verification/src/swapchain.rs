//! The double-buffered render pipeline's handoff protocol. Two fixed pixel
//! buffers alternate between a producer that draws and a presenter that
//! copies the finished frame to the physical display on its own thread.
//!
//! This model is the bookkeeping of that handoff: which slot is front,
//! which slot the producer holds, whether a submitted frame awaits the
//! presenter, and which slot the presenter is copying out. The platform
//! adapter owns the pixels and the thread; it drives these operations and
//! inherits their guarantee — a slot is never writable and mid-transfer at
//! once.
use vstd::prelude::*;

verus! {

/// One step of either thread against the swapchain.
#[derive(Clone, Copy, Debug, PartialEq, Eq, Structural)]
pub enum SwapEvent {
    Acquire,
    Submit,
    PresenterTake,
    PresenterDone,
}

/// The handoff state. Slots are named by a bool: false for slot A, true
/// for slot B.
#[derive(Clone, Copy, Debug, PartialEq, Eq, Structural)]
pub struct FrameSwapchain {
    /// The slot last submitted (visible or on its way to the display).
    pub front: bool,
    /// The slot the producer acquired for drawing, if any.
    pub writer: Option<bool>,
    /// A submitted frame the presenter has not yet picked up.
    pub pending: bool,
    /// The slot the presenter is copying to the display, if any.
    pub transferring: Option<bool>,
}

/// The protocol invariant: the producer only ever holds the back slot, and
/// only the front slot is ever pending or mid-transfer.
pub open spec fn spec_swap_wf(s: FrameSwapchain) -> bool {
    &&& (match s.writer {
        Some(w) => w == !s.front,
        None => true,
    })
    &&& (match s.transferring {
        Some(t) => t == s.front && !s.pending,
        None => true,
    })
}

/// Mutual exclusion: no slot is both writable by the producer and
/// mid-transfer by the presenter.
pub open spec fn spec_no_overlap(s: FrameSwapchain) -> bool {
    match (s.writer, s.transferring) {
        (Some(w), Some(t)) => w != t,
        _ => true,
    }
}

/// When each event may fire: acquire needs the producer's hands free;
/// submit blocks until no transfer is pending or running (the one-frame
/// pipelining bound); the presenter takes a pending frame and finishes a
/// running transfer.
pub open spec fn spec_swap_enabled(s: FrameSwapchain, ev: SwapEvent) -> bool {
    match ev {
        SwapEvent::Acquire => s.writer is None,
        SwapEvent::Submit => s.writer is Some && !s.pending && s.transferring is None,
        SwapEvent::PresenterTake => s.pending,
        SwapEvent::PresenterDone => s.transferring is Some,
    }
}

/// The transition for each event.
pub open spec fn spec_swap_step(s: FrameSwapchain, ev: SwapEvent) -> FrameSwapchain {
    match ev {
        SwapEvent::Acquire => FrameSwapchain { writer: Some(!s.front), ..s },
        SwapEvent::Submit => FrameSwapchain {
            front: !s.front,
            writer: None,
            pending: true,
            ..s
        },
        SwapEvent::PresenterTake => FrameSwapchain {
            pending: false,
            transferring: Some(s.front),
            ..s
        },
        SwapEvent::PresenterDone => FrameSwapchain { transferring: None, ..s },
    }
}

/// The state at startup: slot A front, nothing held, nothing in flight.
pub open spec fn spec_swap_init() -> FrameSwapchain {
    FrameSwapchain { front: false, writer: None, pending: false, transferring: None }
}

/// A trace is valid when every event fires in a state that enables it.
pub open spec fn spec_swap_valid(events: Seq<SwapEvent>) -> bool
    decreases events.len(),
{
    if events.len() == 0 {
        true
    } else {
        spec_swap_valid(events.drop_last()) && spec_swap_enabled(
            spec_swap_run(events.drop_last()),
            events.last(),
        )
    }
}

/// The state a trace of events leads to.
pub open spec fn spec_swap_run(events: Seq<SwapEvent>) -> FrameSwapchain
    decreases events.len(),
{
    if events.len() == 0 {
        spec_swap_init()
    } else {
        spec_swap_step(spec_swap_run(events.drop_last()), events.last())
    }
}

/// Law: for every interleaving of producer and presenter steps that obeys
/// the blocking rules, the protocol invariant holds — in particular, no
/// buffer slot is ever both writable and mid-transfer at the same instant.
pub proof fn lemma_swap_mutual_exclusion(events: Seq<SwapEvent>)
    requires
        spec_swap_valid(events),
    ensures
        spec_swap_wf(spec_swap_run(events)),
        spec_no_overlap(spec_swap_run(events)),
    decreases events.len(),
{
    if events.len() > 0 {
        lemma_swap_mutual_exclusion(events.drop_last());
    }
}

/// A valid trace stays valid when cut short.
pub proof fn lemma_swap_valid_prefix(events: Seq<SwapEvent>, i: int)
    requires
        spec_swap_valid(events),
        0 <= i <= events.len(),
    ensures
        spec_swap_valid(events.take(i)),
    decreases events.len() - i,
{
    if i == events.len() {
        assert(events.take(i) =~= events);
    } else {
        let shorter = events.drop_last();
        lemma_swap_valid_prefix(shorter, i);
        assert(shorter.take(i) =~= events.take(i));
    }
}

/// Law: along a valid trace, the exclusion holds at every instant, not
/// only at the end.
pub proof fn lemma_swap_exclusion_throughout(events: Seq<SwapEvent>, i: int)
    requires
        spec_swap_valid(events),
        0 <= i <= events.len(),
    ensures
        spec_swap_wf(spec_swap_run(events.take(i))),
        spec_no_overlap(spec_swap_run(events.take(i))),
{
    lemma_swap_valid_prefix(events, i);
    lemma_swap_mutual_exclusion(events.take(i));
}

impl FrameSwapchain {
    /// A fresh swapchain: slot A front, nothing held, nothing in flight.
    pub fn new() -> (s: Self)
        ensures
            s == spec_swap_init(),
    {
        FrameSwapchain { front: false, writer: None, pending: false, transferring: None }
    }

    /// Hands the producer the back slot for exclusive drawing.
    pub fn acquire_back_buffer(&mut self) -> (slot: bool)
        requires
            spec_swap_enabled(*old(self), SwapEvent::Acquire),
        ensures
            *final(self) == spec_swap_step(*old(self), SwapEvent::Acquire),
            slot == !old(self).front,
            spec_swap_wf(*old(self)) ==> spec_swap_wf(*final(self)) && spec_no_overlap(
                *final(self),
            ),
    {
        self.writer = Some(!self.front);
        !self.front
    }

    /// Flips the submitted slot to front and leaves the frame for the
    /// presenter. The platform adapter must have waited out any pending or
    /// running transfer first — that wait is the bounded block of the
    /// render loop.
    pub fn submit(&mut self)
        requires
            spec_swap_enabled(*old(self), SwapEvent::Submit),
        ensures
            *final(self) == spec_swap_step(*old(self), SwapEvent::Submit),
            spec_swap_wf(*old(self)) ==> spec_swap_wf(*final(self)) && spec_no_overlap(
                *final(self),
            ),
    {
        self.front = !self.front;
        self.writer = None;
        self.pending = true;
    }

    /// The presenter picks up the submitted frame and starts its transfer;
    /// returns the slot it must copy out.
    pub fn presenter_take(&mut self) -> (slot: bool)
        requires
            spec_swap_enabled(*old(self), SwapEvent::PresenterTake),
        ensures
            *final(self) == spec_swap_step(*old(self), SwapEvent::PresenterTake),
            slot == old(self).front,
            spec_swap_wf(*old(self)) ==> spec_swap_wf(*final(self)) && spec_no_overlap(
                *final(self),
            ),
    {
        self.pending = false;
        self.transferring = Some(self.front);
        self.front
    }

    /// The presenter finished copying (and cleared the buffer for the next
    /// frame); the slot is free again.
    pub fn presenter_done(&mut self)
        requires
            spec_swap_enabled(*old(self), SwapEvent::PresenterDone),
        ensures
            *final(self) == spec_swap_step(*old(self), SwapEvent::PresenterDone),
            spec_swap_wf(*old(self)) ==> spec_swap_wf(*final(self)) && spec_no_overlap(
                *final(self),
            ),
    {
        self.transferring = None;
    }
}

} // verus!
