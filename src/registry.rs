//! The process's logger slot: filled once, then read.

use vstd::prelude::*;

use crate::mogger::Mogger;

verus! {

/// A second logger was offered to a slot that already holds one.
#[derive(Clone, Copy, Debug, PartialEq, Eq)]
pub struct AlreadyInitialized;

/// A write-once slot for the process's logger.
pub struct Registry {
    slot: Option<Mogger>,
}

/// The slot after offering `m` to `slot`, and whether the offer was taken.
pub open spec fn install_outcome(slot: Option<Mogger>, m: Mogger) -> (Option<Mogger>, bool) {
    match slot {
        None => (Some(m), true),
        Some(held) => (Some(held), false),
    }
}

impl Registry {
    /// The logger held, if any.
    pub closed spec fn held(&self) -> Option<Mogger> {
        self.slot
    }

    /// An empty slot.
    pub fn new() -> (r: Registry)
        ensures
            r.held() is None,
    {
        Registry { slot: None }
    }

    /// Puts `m` in the slot if it is empty; otherwise leaves the slot as it was
    /// and reports that it was already filled.
    pub fn install(&mut self, m: Mogger) -> (r: Result<(), AlreadyInitialized>)
        ensures
            (final(self).held(), r is Ok) == install_outcome(old(self).held(), m),
    {
        match self.slot {
            None => {
                self.slot = Some(m);
                Ok(())
            },
            Some(_) => Err(AlreadyInitialized),
        }
    }

    /// The logger held, if any.
    pub fn get(&self) -> (r: Option<&Mogger>)
        ensures
            match self.held() {
                Some(m) => r == Some(&m),
                None => r is None,
            },
    {
        match &self.slot {
            Some(m) => Some(m),
            None => None,
        }
    }
}

/// The slot after offering each of `ms` in turn, starting from `slot`.
pub open spec fn slot_after(slot: Option<Mogger>, ms: Seq<Mogger>) -> Option<Mogger>
    decreases ms.len(),
{
    if ms.len() == 0 {
        slot
    } else {
        slot_after(install_outcome(slot, ms[0]).0, ms.drop_first())
    }
}

/// How many of `ms`, offered in turn starting from `slot`, are taken.
pub open spec fn taken_count(slot: Option<Mogger>, ms: Seq<Mogger>) -> nat
    decreases ms.len(),
{
    if ms.len() == 0 {
        0
    } else {
        let (next, ok) = install_outcome(slot, ms[0]);
        (if ok {
            1nat
        } else {
            0nat
        }) + taken_count(next, ms.drop_first())
    }
}

proof fn lemma_filled_stays(held: Mogger, ms: Seq<Mogger>)
    ensures
        slot_after(Some(held), ms) == Some(held),
        taken_count(Some(held), ms) == 0,
    decreases ms.len(),
{
    if ms.len() > 0 {
        lemma_filled_stays(held, ms.drop_first());
    }
}

/// The slot takes exactly one logger: of any offers made in turn to an empty slot,
/// exactly the first is taken, every later one is refused, and the first stays.
pub proof fn lemma_install_once(ms: Seq<Mogger>)
    requires
        ms.len() > 0,
    ensures
        taken_count(None, ms) == 1,
        slot_after(None, ms) == Some(ms[0]),
        forall|i: int| 0 < i < ms.len() ==> !(#[trigger] install_outcome(slot_after(None, ms.take(i)), ms[i]).1),
{
    lemma_filled_stays(ms[0], ms.drop_first());
    assert forall|i: int| 0 < i < ms.len() implies !(#[trigger] install_outcome(slot_after(None, ms.take(i)), ms[i]).1) by {
        lemma_filled_stays(ms[0], ms.take(i).drop_first());
        assert(ms.take(i)[0] == ms[0]);
    }
}

} // verus!
