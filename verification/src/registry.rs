//! The relay's client registry and its fan-out.
//!
//! A registry keeps, for each accepted connection, the peer's address and the
//! handle on which lines are written to it. The handle type `C` is the
//! caller's: nothing here reads or writes it. `Registry::broadcast` decides
//! which line goes to which slot; the caller carries the writes out.
//!
//! Entries are never removed. A peer whose connection is gone keeps its slot,
//! and each later broadcast plans a write to it again.

use vstd::prelude::*;
use vstd::string::*;

verus! {

/// One planned write as contracts see it.
pub struct DeliveryView {
    pub slot: nat,
    pub line: Seq<char>,
}

/// One planned write: `line` goes to the channel in `slot`.
#[derive(Clone, Debug, PartialEq, Eq)]
pub struct Delivery {
    pub slot: usize,
    pub line: String,
}

impl View for Delivery {
    type V = DeliveryView;

    open spec fn view(&self) -> DeliveryView {
        DeliveryView { slot: self.slot as nat, line: self.line@ }
    }
}

/// The plan that sends `line` once to each of `peers` slots, in slot order.
pub open spec fn fan_out(peers: nat, line: Seq<char>) -> Seq<DeliveryView> {
    Seq::new(peers, |i: int| DeliveryView { slot: i as nat, line })
}

/// The lines that reach `slot` when `plan` is carried out one delivery after
/// the other and the writes to the slots in `broken` fail. A failed write is
/// dropped and the next delivery is tried.
pub open spec fn received(plan: Seq<DeliveryView>, broken: Set<nat>, slot: nat) -> Seq<Seq<char>>
    decreases plan.len(),
{
    if plan.len() == 0 {
        Seq::empty()
    } else {
        let before = received(plan.drop_last(), broken, slot);
        if plan.last().slot == slot && !broken.contains(slot) {
            before.push(plan.last().line)
        } else {
            before
        }
    }
}

/// What the acceptor does after one attempt to accept a connection.
#[derive(Debug, PartialEq, Eq)]
pub enum AcceptStep {
    /// The connection stands in this slot: start its reader, then accept on.
    StartReader(usize),
    /// The attempt failed: report it, then accept on.
    Report,
}

/// What the reader of one connection does after one read.
#[derive(Debug, PartialEq, Eq)]
pub enum ReadStep {
    /// A line came: carry these deliveries out, then read on.
    Deliver(Vec<Delivery>),
    /// The stream ended or failed: the reader ends. Its entry stays.
    Stop,
}

/// The connections that a relay writes to, in the order of their arrival.
pub struct Registry<C> {
    entries: Vec<(String, C)>,
}

impl<C> Registry<C> {
    /// The peers' addresses, by slot.
    pub closed spec fn ids(&self) -> Seq<Seq<char>> {
        Seq::new(self.entries@.len(), |i: int| self.entries@[i].0@)
    }

    /// The peers' channels, by slot.
    pub closed spec fn channels(&self) -> Seq<C> {
        Seq::new(self.entries@.len(), |i: int| self.entries@[i].1)
    }

    /// A registry without entries.
    pub fn new() -> (r: Registry<C>)
        ensures
            r.ids() == Seq::<Seq<char>>::empty(),
            r.channels() == Seq::<C>::empty(),
    {
        let r = Registry { entries: Vec::new() };
        assert(r.ids() =~= Seq::<Seq<char>>::empty());
        assert(r.channels() =~= Seq::<C>::empty());
        r
    }

    /// The number of entries: every connection accepted so far.
    pub fn len(&self) -> (n: usize)
        ensures
            n == self.ids().len(),
            n == self.channels().len(),
    {
        self.entries.len()
    }

    /// Adds an entry behind the others and returns its slot. An address that
    /// an earlier entry has is accepted again and gets a slot of its own.
    pub fn register(&mut self, id: String, channel: C) -> (slot: usize)
        ensures
            final(self).ids() == old(self).ids().push(id@),
            final(self).channels() == old(self).channels().push(channel),
            slot == old(self).ids().len(),
    {
        let slot = self.entries.len();
        self.entries.push((id, channel));
        assert(self.ids() =~= old(self).ids().push(id@));
        assert(self.channels() =~= old(self).channels().push(channel));
        slot
    }

    /// The address of the peer in `slot`.
    pub fn id(&self, slot: usize) -> (r: Option<&String>)
        ensures
            r is Some <==> slot < self.ids().len(),
            r matches Some(id) ==> id@ == self.ids()[slot as int],
    {
        if slot < self.entries.len() {
            Some(&self.entries[slot].0)
        } else {
            None
        }
    }

    /// The channel on which the peer in `slot` is written to.
    pub fn channel(&self, slot: usize) -> (r: Option<&C>)
        ensures
            r is Some <==> slot < self.channels().len(),
            r matches Some(c) ==> *c == self.channels()[slot as int],
    {
        if slot < self.entries.len() {
            Some(&self.entries[slot].1)
        } else {
            None
        }
    }

    /// Plans the fan-out of one line: one write for each entry, in slot order,
    /// each with the line as it came. The sender's own entry is among them,
    /// and so is every entry whose connection may be gone: the plan depends on
    /// the number of entries alone.
    pub fn broadcast(&self, line: &str) -> (plan: Vec<Delivery>)
        ensures
            plan@.map_values(|d: Delivery| d@) == fan_out(self.ids().len(), line@),
            plan@.len() == self.ids().len(),
            forall|i: int|
                0 <= i < plan@.len() ==> (#[trigger] plan@[i]).slot == i && plan@[i].line@
                    == line@,
    {
        let mut plan: Vec<Delivery> = Vec::new();
        let mut slot: usize = 0;
        while slot < self.entries.len()
            invariant
                slot <= self.entries@.len(),
                plan@.len() == slot,
                forall|i: int|
                    0 <= i < plan@.len() ==> (#[trigger] plan@[i]).slot == i && plan@[i].line@
                        == line@,
            decreases self.entries@.len() - slot,
        {
            plan.push(Delivery { slot, line: String::from_str(line) });
            slot += 1;
        }
        assert(plan@.map_values(|d: Delivery| d@) =~= fan_out(self.ids().len(), line@));
        plan
    }

    /// The acceptor's step: a connection that was accepted is registered and
    /// gets a reader; a failed attempt changes nothing and is only reported.
    pub fn on_accept(&mut self, accepted: Option<(String, C)>) -> (step: AcceptStep)
        ensures
            match accepted {
                Some((id, channel)) => {
                    &&& final(self).ids() == old(self).ids().push(id@)
                    &&& final(self).channels() == old(self).channels().push(channel)
                    &&& step == AcceptStep::StartReader(old(self).ids().len() as usize)
                },
                None => {
                    &&& final(self).ids() == old(self).ids()
                    &&& final(self).channels() == old(self).channels()
                    &&& step == AcceptStep::Report
                },
            },
    {
        match accepted {
            Some((id, channel)) => AcceptStep::StartReader(self.register(id, channel)),
            None => AcceptStep::Report,
        }
    }

    /// A reader's step: a line that was read is fanned out to every entry as
    /// it came; the end of the stream, or a failed read, ends the reader.
    pub fn on_read(&self, read: Option<&str>) -> (step: ReadStep)
        ensures
            match read {
                Some(line) => step matches ReadStep::Deliver(plan) && plan@.map_values(
                    |d: Delivery| d@,
                ) == fan_out(self.ids().len(), line@),
                None => step is Stop,
            },
    {
        match read {
            Some(line) => ReadStep::Deliver(self.broadcast(line)),
            None => ReadStep::Stop,
        }
    }
}

/// A plan for `peers` slots without its last delivery is the plan for one slot fewer.
proof fn lemma_fan_out_prefix(peers: nat, line: Seq<char>)
    requires
        peers > 0,
    ensures
        fan_out(peers, line).drop_last() == fan_out((peers - 1) as nat, line),
        fan_out(peers, line).last() == (DeliveryView { slot: (peers - 1) as nat, line }),
{
    assert(fan_out(peers, line).drop_last() =~= fan_out((peers - 1) as nat, line));
}

/// Fan-out is complete and isolated: when the plan for `peers` slots is
/// carried out, each slot whose write succeeds receives the line exactly
/// once, as it came, whichever other slots are broken; a broken slot receives
/// nothing, and so does a slot that was never registered.
pub proof fn lemma_fan_out_received(peers: nat, line: Seq<char>, broken: Set<nat>, slot: nat)
    ensures
        received(fan_out(peers, line), broken, slot) == if slot < peers && !broken.contains(slot) {
            seq![line]
        } else {
            Seq::<Seq<char>>::empty()
        },
    decreases peers,
{
    if peers > 0 {
        lemma_fan_out_prefix(peers, line);
        lemma_fan_out_received((peers - 1) as nat, line, broken, slot);
        assert(Seq::<Seq<char>>::empty().push(line) =~= seq![line]);
    }
}

} // verus!
