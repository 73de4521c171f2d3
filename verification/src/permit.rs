//! The two gates of a channel: a single write permit, and a counted set of
//! read permits.
//!
//! A gate here is the state that a lock guards, and one step on it. To
//! acquire a permit is one attempt, which is granted or refused; a caller that
//! must wait tries again when a permit has been released.

use vstd::prelude::*;

verus! {

/// The permit of the one writer that may be at work.
#[derive(Debug, Clone, Copy, PartialEq, Eq)]
pub struct WritePermit {
    available: bool,
}

impl WritePermit {
    /// Whether the permit is free to take.
    pub closed spec fn is_available(&self) -> bool {
        self.available
    }

    /// A gate whose permit is free.
    pub fn new() -> (gate: WritePermit)
        ensures
            gate.is_available(),
    {
        WritePermit { available: true }
    }

    /// Takes the permit if it is free, and says whether it did. Afterwards
    /// the permit is held, by this caller or by the one that held it before.
    pub fn try_acquire(&mut self) -> (granted: bool)
        ensures
            granted == old(self).is_available(),
            !final(self).is_available(),
    {
        let granted = self.available;
        self.available = false;
        granted
    }

    /// Gives the permit back.
    pub fn release(&mut self)
        ensures
            final(self).is_available(),
    {
        self.available = true;
    }

    /// Whether the permit is free to take.
    pub fn available(&self) -> (free: bool)
        ensures
            free == self.is_available(),
    {
        self.available
    }
}

/// A gate of read permits as mathematical values: how many permits there are,
/// and how many of them are free.
pub struct ReadGate {
    pub capacity: nat,
    pub free: nat,
}

/// What a reader does at a gate.
pub enum GateEvent {
    /// An attempt to take a permit.
    Acquire,
    /// The return of a permit that is held.
    Release,
}

impl ReadGate {
    /// No more permits are free than there are.
    pub open spec fn wf(self) -> bool {
        self.free <= self.capacity
    }

    /// The number of permits that are held: the readers at work.
    pub open spec fn held(self) -> nat {
        (self.capacity - self.free) as nat
    }

    /// A gate of `capacity` permits, all free.
    pub open spec fn fresh(capacity: nat) -> ReadGate {
        ReadGate { capacity, free: capacity }
    }

    /// Whether an attempt to take a permit is granted.
    pub open spec fn grants(self) -> bool {
        self.free > 0
    }

    /// This gate after an attempt to take a permit: one permit fewer is free
    /// where the attempt is granted, and nothing has changed where it is not.
    pub open spec fn acquired(self) -> ReadGate {
        if self.grants() {
            ReadGate { capacity: self.capacity, free: (self.free - 1) as nat }
        } else {
            self
        }
    }

    /// This gate after a permit has come back. Where none is held there is
    /// nothing to give back, and nothing changes.
    pub open spec fn released(self) -> ReadGate {
        if self.free < self.capacity {
            ReadGate { capacity: self.capacity, free: self.free + 1 }
        } else {
            self
        }
    }

    /// This gate after one event.
    pub open spec fn step(self, event: GateEvent) -> ReadGate {
        match event {
            GateEvent::Acquire => self.acquired(),
            GateEvent::Release => self.released(),
        }
    }

    /// This gate after a run of events, the first of them first.
    pub open spec fn run(self, events: Seq<GateEvent>) -> ReadGate
        decreases events.len(),
    {
        if events.len() == 0 {
            self
        } else {
            self.run(events.drop_last()).step(events.last())
        }
    }
}

/// The permits of the readers that may be at work together.
#[derive(Debug, Clone, Copy, PartialEq, Eq)]
pub struct ReadPermit {
    capacity: usize,
    free: usize,
}

impl View for ReadPermit {
    type V = ReadGate;

    closed spec fn view(&self) -> ReadGate {
        ReadGate { capacity: self.capacity as nat, free: self.free as nat }
    }
}

impl ReadPermit {
    /// No more permits are free than there are.
    pub open spec fn wf(&self) -> bool {
        self@.wf()
    }

    /// A gate of `capacity` permits, all free.
    pub fn new(capacity: usize) -> (gate: ReadPermit)
        ensures
            gate@ == ReadGate::fresh(capacity as nat),
            gate.wf(),
    {
        ReadPermit { capacity, free: capacity }
    }

    /// Takes a permit if one is free, and says whether it did.
    pub fn try_acquire(&mut self) -> (granted: bool)
        ensures
            granted == old(self)@.grants(),
            final(self)@ == old(self)@.acquired(),
            old(self).wf() ==> final(self).wf(),
    {
        if self.free > 0 {
            self.free = self.free - 1;
            true
        } else {
            false
        }
    }

    /// Gives back a permit that is held.
    pub fn release(&mut self)
        requires
            old(self).wf(),
            old(self)@.held() > 0,
        ensures
            final(self)@ == old(self)@.released(),
            final(self)@.free == old(self)@.free + 1,
            final(self).wf(),
    {
        self.free = self.free + 1;
    }

    /// The number of permits, free or held.
    pub fn capacity(&self) -> (n: usize)
        ensures
            n == self@.capacity,
    {
        self.capacity
    }

    /// The number of permits that are free.
    pub fn free(&self) -> (n: usize)
        ensures
            n == self@.free,
    {
        self.free
    }
}

/// The number of readers at work after a run of events at a gate of
/// `capacity` permits that starts with all of them free: each attempt that the
/// gate grants adds a reader, and each return by a reader at work takes one
/// away.
pub open spec fn readers_at_work(capacity: nat, events: Seq<GateEvent>) -> nat
    decreases events.len(),
{
    if events.len() == 0 {
        0
    } else {
        let before = readers_at_work(capacity, events.drop_last());
        let gate = ReadGate::fresh(capacity).run(events.drop_last());
        match events.last() {
            GateEvent::Acquire => if gate.grants() {
                before + 1
            } else {
                before
            },
            GateEvent::Release => if before > 0 {
                (before - 1) as nat
            } else {
                before
            },
        }
    }
}

/// However readers come and go at a gate of `capacity` permits, never more
/// than `capacity` of them are at work at once, and the permits that are not
/// free are exactly theirs.
pub proof fn lemma_readers_bounded(capacity: nat, events: Seq<GateEvent>)
    ensures
        readers_at_work(capacity, events) <= capacity,
        readers_at_work(capacity, events) + ReadGate::fresh(capacity).run(events).free == capacity,
        ReadGate::fresh(capacity).run(events).capacity == capacity,
        ReadGate::fresh(capacity).run(events).wf(),
    decreases events.len(),
{
    if events.len() > 0 {
        lemma_readers_bounded(capacity, events.drop_last());
    }
}

/// With as many readers at work as there are permits, one more attempt is
/// refused and changes nothing.
pub proof fn lemma_reader_beyond_capacity_waits(capacity: nat, events: Seq<GateEvent>)
    requires
        readers_at_work(capacity, events) == capacity,
    ensures
        !ReadGate::fresh(capacity).run(events).grants(),
        readers_at_work(capacity, events.push(GateEvent::Acquire)) == capacity,
        ReadGate::fresh(capacity).run(events.push(GateEvent::Acquire)) == ReadGate::fresh(
            capacity,
        ).run(events),
{
    lemma_readers_bounded(capacity, events);
    assert(events.push(GateEvent::Acquire).drop_last() =~= events);
}

/// While as many readers hold a permit as there are permits, one more is
/// refused and nothing changes; as soon as one of them gives its permit back,
/// the next attempt is granted.
pub proof fn lemma_full_gate_blocks(gate: ReadGate)
    requires
        gate.wf(),
        gate.capacity > 0,
        gate.held() == gate.capacity,
    ensures
        !gate.grants(),
        gate.acquired() == gate,
        gate.released().grants(),
        gate.released().acquired() == gate,
{
}

} // verus!
