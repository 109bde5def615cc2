//! The pool of scenario instances a runtime keeps: instances are reserved,
//! checked out to run an iteration, and checked back in afterwards.
use vstd::prelude::*;

use std::collections::VecDeque;

use crate::services::InfoMessage;

verus! {

/// The instances of a runtime: the idle ones, first in first out, and how
/// many have been reserved in all.
pub struct RuntimeInner<H> {
    pub instances: VecDeque<H>,
    pub length: usize,
}

/// What checking out an instance gives: an idle instance, or the need to
/// reserve a new one first.
pub enum Checkout<H> {
    /// An idle instance, to be reported with the message.
    Instance(H, InfoMessage),
    /// No instance is idle.
    ReserveFirst,
}

impl<H> RuntimeInner<H> {
    /// No more instances are idle than have been reserved.
    pub open spec fn well_formed(&self) -> bool {
        self.instances@.len() <= self.length
    }

    /// The idle instances, the next to be checked out first.
    pub open spec fn idle(&self) -> Seq<H> {
        self.instances@
    }

    /// How many instances have been reserved.
    pub open spec fn spec_capacity(&self) -> nat {
        self.length as nat
    }

    /// How many instances are checked out.
    pub open spec fn spec_active_count(&self) -> int {
        self.spec_capacity() - self.idle().len()
    }

    /// A pool with no instances.
    pub fn new() -> (r: RuntimeInner<H>)
        ensures
            r.well_formed(),
            r.idle().len() == 0,
            r.spec_capacity() == 0,
    {
        RuntimeInner { instances: VecDeque::new(), length: 0 }
    }

    /// How many instances have been reserved.
    pub fn capacity(&self) -> (n: usize)
        requires
            self.well_formed(),
        ensures
            n == self.spec_capacity(),
            self.idle().len() <= n,
    {
        self.length
    }

    /// How many instances are checked out.
    pub fn active_count(&self) -> (n: usize)
        requires
            self.well_formed(),
        ensures
            n == self.spec_active_count(),
            n <= self.spec_capacity(),
    {
        self.length - self.instances.len()
    }

    /// Adds a newly reserved instance as idle, and gives the message that
    /// reports it.
    pub fn reserve_instance(&mut self, handle: H) -> (m: InfoMessage)
        requires
            old(self).well_formed(),
            old(self).spec_capacity() < usize::MAX,
        ensures
            final(self).well_formed(),
            final(self).idle() == old(self).idle().push(handle),
            final(self).spec_capacity() == old(self).spec_capacity() + 1,
            m is InstanceReserved,
    {
        self.instances.push_back(handle);
        self.length = self.length + 1;
        InfoMessage::InstanceReserved
    }

    /// Takes the idle instance that has waited longest, if any.
    pub fn checkout_instance(&mut self) -> (r: Option<H>)
        requires
            old(self).well_formed(),
        ensures
            final(self).well_formed(),
            final(self).spec_capacity() == old(self).spec_capacity(),
            old(self).idle().len() == 0 ==> r is None && final(self).idle() == old(self).idle(),
            old(self).idle().len() > 0 ==> r == Some(old(self).idle()[0])
                && final(self).idle() == old(self).idle().drop_first(),
    {
        self.instances.pop_front()
    }

    /// Puts a checked-out instance back as idle, last in line, and gives the
    /// message that reports it.
    pub fn checkin_instance(&mut self, handle: H) -> (m: InfoMessage)
        requires
            old(self).well_formed(),
            old(self).spec_active_count() > 0,
        ensures
            final(self).well_formed(),
            final(self).idle() == old(self).idle().push(handle),
            final(self).spec_capacity() == old(self).spec_capacity(),
            m is InstanceCheckedIn,
    {
        self.instances.push_back(handle);
        InfoMessage::InstanceCheckedIn
    }

    /// Checks out the idle instance that has waited longest, with the message
    /// that reports it, or says that a new instance must be reserved first.
    pub fn checkout_or_create_instance(&mut self) -> (r: Checkout<H>)
        requires
            old(self).well_formed(),
        ensures
            final(self).well_formed(),
            final(self).spec_capacity() == old(self).spec_capacity(),
            old(self).idle().len() == 0 ==> r is ReserveFirst && final(self).idle() == old(self).idle(),
            old(self).idle().len() > 0 ==> final(self).idle() == old(self).idle().drop_first(),
            old(self).idle().len() > 0 ==> (r matches Checkout::Instance(h, m) && h == old(self).idle()[0] && m is InstanceCheckedOut),
    {
        match self.checkout_instance() {
            Some(h) => Checkout::Instance(h, InfoMessage::InstanceCheckedOut),
            None => Checkout::ReserveFirst,
        }
    }
}

/// Checking out an idle instance and checking it back in leaves as many
/// instances checked out and reserved as before, and moves the instance
/// from the front of the idle line to its back.
pub proof fn lemma_checkout_checkin<H>(before: RuntimeInner<H>, out: RuntimeInner<H>, back: RuntimeInner<H>, h: H)
    requires
        before.idle().len() > 0,
        h == before.idle()[0],
        out.idle() == before.idle().drop_first(),
        out.spec_capacity() == before.spec_capacity(),
        back.idle() == out.idle().push(h),
        back.spec_capacity() == out.spec_capacity(),
    ensures
        back.spec_active_count() == before.spec_active_count(),
        back.spec_capacity() == before.spec_capacity(),
        back.idle() == before.idle().drop_first().push(before.idle()[0]),
{
}

/// Reserving an instance adds one to the capacity and leaves the number of
/// checked-out instances as it was.
pub proof fn lemma_reserve_keeps_active<H>(before: RuntimeInner<H>, after: RuntimeInner<H>, h: H)
    requires
        after.idle() == before.idle().push(h),
        after.spec_capacity() == before.spec_capacity() + 1,
    ensures
        after.spec_active_count() == before.spec_active_count(),
{
}

/// In a well-formed pool no more instances are checked out than have been
/// reserved, and never fewer than none.
pub proof fn lemma_active_within_capacity<H>(pool: RuntimeInner<H>)
    requires
        pool.well_formed(),
    ensures
        0 <= pool.spec_active_count() <= pool.spec_capacity(),
        pool.spec_active_count() + pool.idle().len() == pool.spec_capacity(),
{
}

} // verus!
