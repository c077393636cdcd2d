//! AMF (TS 23.501 / 38.413): the 5G counterpart of the MME, talking NGAP to
//! gNodeBs. It owns a subscriber store, an IMSI registry and an HSS of its
//! own, separate from the MME's: a subscriber used on both sides is
//! provisioned in both.
//!
//! Only the AMF's state and its construction are here. The NGAP and 5GS
//! NAS handling (Registration: identity, 5G-AKA, security mode) is not:
//! the Registration procedure it would dispatch to is not written yet, so
//! there is no behaviour to give it.

use vstd::prelude::*;

use crate::ecs::registry::ImsiRegistry;
use crate::ecs::world::{count_true, World};
use crate::hss::{Hss, SubscriberEntry};

verus! {

/// The AMF's state.
pub struct Amf {
    pub world: World,
    pub registry: ImsiRegistry,
    pub hss: Hss,
}

impl Amf {
    /// An AMF with no subscribers.
    pub fn new() -> (a: Self)
        ensures
            a.world.wf(),
            a.world@.live.len() == 0,
            a.world@.free_ids.len() == 0,
            a.registry@ == Map::<u64, u32>::empty(),
            a.hss@ == Map::<u64, SubscriberEntry>::empty(),
    {
        Amf { world: World::new(), registry: ImsiRegistry::new(), hss: Hss::new() }
    }

    /// The HSS, to provision subscribers.
    pub fn hss_mut(&mut self) -> (h: &mut Hss)
        ensures
            *h == old(self).hss,
            final(self).hss == *final(h),
            final(self).world == old(self).world,
            final(self).registry == old(self).registry,
    {
        &mut self.hss
    }

    /// Number of live subscriber entities.
    pub fn subscriber_count(&self) -> (n: usize)
        requires
            self.world.wf(),
        ensures
            n == count_true(self.world@.live),
    {
        self.world.subscriber_count()
    }
}

impl Default for Amf {
    fn default() -> (a: Self)
        ensures
            a.world.wf(),
            a.world@.live.len() == 0,
            a.world@.free_ids.len() == 0,
            a.registry@ == Map::<u64, u32>::empty(),
            a.hss@ == Map::<u64, SubscriberEntry>::empty(),
    {
        Amf::new()
    }
}

} // verus!
