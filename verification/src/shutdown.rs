//! Interrupts and shutdown ordering. Each source stream is paired with one
//! idempotent interrupt; closing the relay fires every interrupt; the first
//! user signal asks for a graceful shutdown and the second forces an exit.

use vstd::prelude::*;

verus! {

/// Process exit code when a second signal forces the exit.
pub const FORCE_EXIT_CODE: i32 = 2;

/// Idempotent stop signal, paired one-to-one with a source stream. The
/// I/O runner polls it at the top of every tick.
pub struct Interrupt {
    raised: bool,
}

impl Interrupt {
    /// Whether the interrupt has been raised.
    pub closed spec fn raised(self) -> bool {
        self.raised
    }

    /// A fresh, unraised interrupt.
    pub fn new() -> (res: Interrupt)
        ensures
            !res.raised(),
    {
        Interrupt { raised: false }
    }

    /// Raise the interrupt. Raising it again changes nothing and is no
    /// error: the post-state does not depend on the prior state.
    pub fn trigger(&mut self)
        ensures
            final(self).raised(),
    {
        self.raised = true;
    }

    /// Whether the interrupt has been raised.
    pub fn is_raised(&self) -> (res: bool)
        ensures
            res == self.raised(),
    {
        self.raised
    }
}

/// Raise every interrupt in the list: the relay's close cascades to all
/// sources.
pub fn interrupt_all(interrupts: &mut Vec<Interrupt>)
    ensures
        final(interrupts)@.len() == old(interrupts)@.len(),
        forall|k: int|
            0 <= k < final(interrupts)@.len() ==> (#[trigger] final(interrupts)@[k]).raised(),
{
    let mut i: usize = 0;
    while i < interrupts.len()
        invariant
            i <= interrupts@.len(),
            interrupts@.len() == old(interrupts)@.len(),
            forall|k: int| 0 <= k < i ==> (#[trigger] interrupts@[k]).raised(),
        decreases interrupts@.len() - i,
    {
        let mut cur = interrupts.remove(i);
        cur.trigger();
        interrupts.insert(i, cur);
        i = i + 1;
    }
}

/// A source stream's life: it runs until its interrupt is seen (or its
/// connection ends), then it has ended for good.
#[derive(Debug, Clone, Copy, PartialEq, Eq, Structural)]
pub enum SourcePhase {
    /// Still polling and emitting elements.
    Running,
    /// Ended; nothing more is emitted.
    Ended,
}

/// One poll of the source: if it has ended nothing happens; if the interrupt
/// is seen the source ends now, reporting the end exactly this once.
pub open spec fn spec_source_poll(phase: SourcePhase, interrupted: bool) -> (SourcePhase, bool) {
    match phase {
        SourcePhase::Ended => (SourcePhase::Ended, false),
        SourcePhase::Running => if interrupted {
            (SourcePhase::Ended, true)
        } else {
            (SourcePhase::Running, false)
        },
    }
}

/// How many polls of the run report the source's end.
pub open spec fn spec_end_count(phase: SourcePhase, interrupts: Seq<bool>) -> int
    decreases interrupts.len(),
{
    if interrupts.len() == 0 {
        0
    } else {
        let (p1, ended_now) = spec_source_poll(phase, interrupts.first());
        (if ended_now {
            1int
        } else {
            0int
        }) + spec_end_count(p1, interrupts.drop_first())
    }
}

/// Tracks one source stream's life across polls.
pub struct SourceLife {
    phase: SourcePhase,
}

impl SourceLife {
    /// The source's current phase.
    pub closed spec fn phase(self) -> SourcePhase {
        self.phase
    }

    /// A new, running source.
    pub fn new() -> (res: SourceLife)
        ensures
            res.phase() == SourcePhase::Running,
    {
        SourceLife { phase: SourcePhase::Running }
    }

    /// One poll; returns whether the source ends at this very poll.
    pub fn poll(&mut self, interrupted: bool) -> (ended_now: bool)
        ensures
            (final(self).phase(), ended_now) == spec_source_poll(old(self).phase(), interrupted),
    {
        match self.phase {
            SourcePhase::Ended => false,
            SourcePhase::Running => if interrupted {
                self.phase = SourcePhase::Ended;
                true
            } else {
                false
            },
        }
    }
}

/// Law: a source ends at most once, however many times its interrupt is
/// raised or polled; an already-ended source never reports ending again.
pub proof fn lemma_source_ends_at_most_once(phase: SourcePhase, interrupts: Seq<bool>)
    ensures
        0 <= spec_end_count(phase, interrupts) <= 1,
        phase == SourcePhase::Ended ==> spec_end_count(phase, interrupts) == 0,
    decreases interrupts.len(),
{
    if interrupts.len() == 0 {
    } else {
        let (p1, _) = spec_source_poll(phase, interrupts.first());
        lemma_source_ends_at_most_once(p1, interrupts.drop_first());
    }
}

/// Law: a source that sees a raised interrupt ends by that very poll — no
/// later than one tick after the interrupt fires.
pub proof fn lemma_interrupt_stops_within_one_poll(phase: SourcePhase, interrupted: bool)
    requires
        interrupted,
    ensures
        spec_source_poll(phase, interrupted).0 == SourcePhase::Ended,
{
}

/// What to do on a user signal.
#[derive(Debug, Clone, Copy, PartialEq, Eq, Structural)]
pub enum SignalAction {
    /// First signal: interrupt every source and let the halves drain.
    GracefulShutdown,
    /// Second signal: exit immediately with `FORCE_EXIT_CODE`.
    ForceExit,
}

/// Maps the first signal to a graceful shutdown and every later one to a
/// forced exit.
pub struct SignalPolicy {
    already_interrupted: bool,
}

impl SignalPolicy {
    /// Whether a signal was already handled.
    pub closed spec fn already_interrupted(self) -> bool {
        self.already_interrupted
    }

    /// A fresh policy: no signal seen yet.
    pub fn new() -> (res: SignalPolicy)
        ensures
            !res.already_interrupted(),
    {
        SignalPolicy { already_interrupted: false }
    }

    /// Decide what one signal means.
    pub fn on_signal(&mut self) -> (action: SignalAction)
        ensures
            final(self).already_interrupted(),
            action == if old(self).already_interrupted() {
                SignalAction::ForceExit
            } else {
                SignalAction::GracefulShutdown
            },
    {
        if self.already_interrupted {
            SignalAction::ForceExit
        } else {
            self.already_interrupted = true;
            SignalAction::GracefulShutdown
        }
    }
}

} // verus!
