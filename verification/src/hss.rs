//! In-memory Home Subscriber Server: per-IMSI Milenage keys and the 48-bit
//! sequence number, and EPS-AKA authentication vector generation.

use std::collections::HashMap;

use vstd::prelude::*;

use crate::auth::keys::{hex_decoded, is_hex_of_len, sqn_bytes, AuthKey, OpCode, SQN_MASK};
use crate::auth::milenage::{is_milenage_vector, opc_from_op, AuthVector, MilenageContext};

verus! {

broadcast use vstd::std_specs::hash::group_hash_axioms;

/// The AMF every generated vector carries (bit 0 set: UMTS AKA).
pub open spec fn hss_amf() -> Seq<u8> {
    seq![0x80u8, 0x00u8]
}

/// One authentication vector and what it was made from.
#[derive(Debug)]
pub struct HssAuthInfo {
    pub rand: [u8; 16],
    pub vector: AuthVector,
    /// The SQN the vector carries (6 bytes, big-endian).
    pub sqn_used: [u8; 6],
}

#[derive(Clone, Copy)]
struct SubscriberRecord {
    ctx: MilenageContext,
    sqn: u64,
}

/// What the HSS holds for one subscriber: K, OPc and the next SQN.
pub struct SubscriberEntry {
    pub k: Seq<u8>,
    pub opc: Seq<u8>,
    pub sqn: u64,
}

impl SubscriberRecord {
    spec fn entry(self) -> SubscriberEntry {
        SubscriberEntry { k: self.ctx.key_bytes(), opc: self.ctx.opc_bytes(), sqn: self.sqn }
    }

    fn sqn_bytes(&self) -> (b: [u8; 6])
        ensures
            b@ == sqn_bytes(self.sqn),
    {
        crate::auth::keys::Sqn(self.sqn).to_bytes()
    }
}

/// Calls `rand::random::<[u8; 16]>()`.
/// Trusted for nothing: the bytes come from the thread-local generator, so
/// no contract is stated about them.
#[verifier::external_body]
fn random_rand() -> (r: [u8; 16]) {
    rand::random::<[u8; 16]>()
}

/// The Home Subscriber Server.
pub struct Hss {
    subscribers: HashMap<u64, SubscriberRecord>,
}

impl View for Hss {
    type V = Map<u64, SubscriberEntry>;

    closed spec fn view(&self) -> Map<u64, SubscriberEntry> {
        Map::new(|imsi: u64| self.subscribers@.contains_key(imsi), |imsi: u64| self.subscribers@[imsi].entry())
    }
}

/// The next SQN after `sqn`: one more, kept to 48 bits.
pub open spec fn next_sqn(sqn: u64) -> u64 {
    (((sqn as int + 1) % 0x1_0000_0000_0000_0000) as u64) & SQN_MASK
}

/// Every subscriber's SQN holds 48 bits.
pub open spec fn sqns_in_range(m: Map<u64, SubscriberEntry>) -> bool {
    forall|imsi: u64| m.contains_key(imsi) ==> #[trigger] m[imsi].sqn <= SQN_MASK
}

/// What `generate_auth_vector_with_rand` returns and leaves behind for a
/// provisioned subscriber.
pub open spec fn vector_for(old: Map<u64, SubscriberEntry>, imsi: u64, rand: Seq<u8>, info: HssAuthInfo) -> bool {
    let e = old[imsi];
    &&& info.rand@ == rand
    &&& info.sqn_used@ == sqn_bytes(e.sqn)
    &&& is_milenage_vector(info.vector, e.k, e.opc, rand, sqn_bytes(e.sqn), hss_amf())
}

impl Hss {
    /// The HSS keeps each SQN within 48 bits.
    #[verifier::type_invariant]
    spec fn sqns_masked(self) -> bool {
        forall|imsi: u64| self.subscribers@.contains_key(imsi) ==> #[trigger] self.subscribers@[imsi].sqn <= SQN_MASK
    }

    /// The type invariant, read through the view.
    proof fn lemma_in_range(&self)
        requires
            self.sqns_masked(),
        ensures
            sqns_in_range(self@),
    {
        assert forall|imsi: u64| self@.contains_key(imsi) implies #[trigger] self@[imsi].sqn <= SQN_MASK by {
            assert(self.subscribers@.contains_key(imsi));
        }
    }

    /// An empty HSS.
    pub fn new() -> (h: Self)
        ensures
            h@ == Map::<u64, SubscriberEntry>::empty(),
            sqns_in_range(h@),
    {
        let h = Hss { subscribers: HashMap::new() };
        proof {
            assert(h@ =~= Map::<u64, SubscriberEntry>::empty());
        }
        h
    }

    fn put(&mut self, imsi: u64, rec: SubscriberRecord)
        requires
            rec.sqn <= SQN_MASK,
        ensures
            sqns_in_range(final(self)@),
            final(self)@ == old(self)@.insert(imsi, rec.entry()),
    {
        proof {
            use_type_invariant(&*self);
        }
        let mut m = HashMap::new();
        std::mem::swap(&mut m, &mut self.subscribers);
        m.insert(imsi, rec);
        self.subscribers = m;
        proof {
            use_type_invariant(&*self);
            self.lemma_in_range();
        }
        proof {
            assert(final(self)@ =~= old(self)@.insert(imsi, rec.entry()));
        }
    }

    /// Provision (or re-provision) a subscriber with K and OPc; its SQN
    /// starts at 0.
    pub fn provision(&mut self, imsi: u64, k: AuthKey, opc: OpCode)
        ensures
            sqns_in_range(final(self)@),
            final(self)@ == old(self)@.insert(imsi, SubscriberEntry { k: k.0@, opc: opc.0@, sqn: 0 }),
    {
        proof {
            use_type_invariant(&*self);
            self.lemma_in_range();
        }
        let ctx = MilenageContext::new(k, opc);
        self.put(imsi, SubscriberRecord { ctx, sqn: 0 });
    }

    /// Provision from hex strings; an error, and no change, when either is
    /// not 32 hex digits.
    pub fn provision_hex(&mut self, imsi: u64, k_hex: &str, opc_hex: &str) -> (r: Result<(), hex::FromHexError>)
        ensures
            sqns_in_range(final(self)@),
            r.is_ok() <==> is_hex_of_len(k_hex@, 16) && is_hex_of_len(opc_hex@, 16),
            r.is_ok() ==> final(self)@ == old(self)@.insert(
                imsi,
                SubscriberEntry { k: hex_decoded(k_hex@), opc: hex_decoded(opc_hex@), sqn: 0 },
            ),
            r.is_err() ==> final(self)@ == old(self)@,
    {
        proof {
            use_type_invariant(&*self);
            self.lemma_in_range();
        }
        let k = match AuthKey::from_hex(k_hex) {
            Ok(k) => k,
            Err(e) => {
                return Err(e);
            },
        };
        let opc = match OpCode::from_hex(opc_hex) {
            Ok(o) => o,
            Err(e) => {
                return Err(e);
            },
        };
        self.provision(imsi, k, opc);
        Ok(())
    }

    /// Provision with the operator code OP; OPc is derived from it.
    pub fn provision_with_op(&mut self, imsi: u64, k: AuthKey, op: [u8; 16])
        ensures
            sqns_in_range(final(self)@),
            final(self)@ == old(self)@.insert(imsi, SubscriberEntry { k: k.0@, opc: opc_from_op(k.0@, op@), sqn: 0 }),
    {
        proof {
            use_type_invariant(&*self);
            self.lemma_in_range();
        }
        let ctx = MilenageContext::with_op(k, &op);
        self.put(imsi, SubscriberRecord { ctx, sqn: 0 });
    }

    /// Remove a subscriber; `true` when it was provisioned.
    pub fn deprovision(&mut self, imsi: u64) -> (r: bool)
        ensures
            sqns_in_range(final(self)@),
            r == old(self)@.contains_key(imsi),
            final(self)@ == old(self)@.remove(imsi),
    {
        proof {
            use_type_invariant(&*self);
        }
        let mut m = HashMap::new();
        std::mem::swap(&mut m, &mut self.subscribers);
        let r = m.remove(&imsi).is_some();
        self.subscribers = m;
        proof {
            use_type_invariant(&*self);
            self.lemma_in_range();
        }
        proof {
            assert(final(self)@ =~= old(self)@.remove(imsi));
        }
        r
    }

    /// Whether a subscriber is provisioned.
    pub fn has_subscriber(&self, imsi: u64) -> (r: bool)
        ensures
            r == self@.contains_key(imsi),
    {
        self.subscribers.contains_key(&imsi)
    }

    /// Same as `has_subscriber`.
    pub fn contains(&self, imsi: u64) -> (r: bool)
        ensures
            r == self@.contains_key(imsi),
    {
        self.has_subscriber(imsi)
    }

    /// Generate an authentication vector with a fresh random RAND.
    pub fn generate_auth_vector(&mut self, imsi: u64) -> (r: Option<HssAuthInfo>)
        ensures
            sqns_in_range(final(self)@),
            r is Some <==> old(self)@.contains_key(imsi),
            r matches Some(info) ==> vector_for(old(self)@, imsi, info.rand@, info),
            old(self)@.contains_key(imsi) ==> final(self)@ == old(self)@.insert(
                imsi,
                SubscriberEntry { sqn: next_sqn(old(self)@[imsi].sqn), ..old(self)@[imsi] },
            ),
            !old(self)@.contains_key(imsi) ==> final(self)@ == old(self)@,
    {
        proof {
            use_type_invariant(&*self);
            self.lemma_in_range();
        }
        if !self.subscribers.contains_key(&imsi) {
            return None;
        }
        let rand = random_rand();
        self.generate_auth_vector_with_rand(imsi, rand)
    }

    /// Generate an authentication vector for a given RAND: the vector under
    /// the subscriber's SQN, which then advances by one (kept to 48 bits).
    /// `None`, and no change, for an unknown IMSI.
    pub fn generate_auth_vector_with_rand(&mut self, imsi: u64, rand: [u8; 16]) -> (r: Option<HssAuthInfo>)
        ensures
            sqns_in_range(final(self)@),
            r is Some <==> old(self)@.contains_key(imsi),
            r matches Some(info) ==> vector_for(old(self)@, imsi, rand@, info),
            old(self)@.contains_key(imsi) ==> final(self)@ == old(self)@.insert(
                imsi,
                SubscriberEntry { sqn: next_sqn(old(self)@[imsi].sqn), ..old(self)@[imsi] },
            ),
            !old(self)@.contains_key(imsi) ==> final(self)@ == old(self)@,
    {
        proof {
            use_type_invariant(&*self);
            self.lemma_in_range();
        }
        let rec = match self.subscribers.get(&imsi) {
            Some(r) => *r,
            None => {
                return None;
            },
        };
        let sqn_used = rec.sqn_bytes();
        let amf = [0x80u8, 0x00u8];
        let vector = rec.ctx.generate_vector(&rand, &sqn_used, &amf);
        proof {
            assert(amf@ =~= hss_amf());
        }
        let next = rec.sqn.wrapping_add(1) & SQN_MASK;
        proof {
            let w = rec.sqn.wrapping_add(1);
            assert(w & 0x0000_FFFF_FFFF_FFFFu64 <= 0x0000_FFFF_FFFF_FFFFu64) by (bit_vector);
        }
        self.put(imsi, SubscriberRecord { ctx: rec.ctx, sqn: next });
        proof {
            assert(old(self)@[imsi] == rec.entry());
        }
        Some(HssAuthInfo { rand, vector, sqn_used })
    }

    /// Set a subscriber's SQN (kept to 48 bits); `false`, and no change,
    /// for an unknown IMSI.
    pub fn update_sqn(&mut self, imsi: u64, new_sqn: u64) -> (r: bool)
        ensures
            sqns_in_range(final(self)@),
            r == old(self)@.contains_key(imsi),
            r ==> final(self)@ == old(self)@.insert(imsi, SubscriberEntry { sqn: new_sqn & SQN_MASK, ..old(self)@[imsi] }),
            !r ==> final(self)@ == old(self)@,
    {
        proof {
            use_type_invariant(&*self);
            self.lemma_in_range();
        }
        let rec = match self.subscribers.get(&imsi) {
            Some(r) => *r,
            None => {
                return false;
            },
        };
        proof {
            assert(new_sqn & 0x0000_FFFF_FFFF_FFFFu64 <= 0x0000_FFFF_FFFF_FFFFu64) by (bit_vector);
        }
        self.put(imsi, SubscriberRecord { ctx: rec.ctx, sqn: new_sqn & SQN_MASK });
        true
    }

    /// A subscriber's next SQN.
    pub fn sqn(&self, imsi: u64) -> (r: Option<u64>)
        ensures
            r == (if self@.contains_key(imsi) { Some(self@[imsi].sqn) } else { None::<u64> }),
            sqns_in_range(self@),
    {
        proof {
            use_type_invariant(self);
            self.lemma_in_range();
        }
        match self.subscribers.get(&imsi) {
            Some(rec) => Some(rec.sqn),
            None => None,
        }
    }
}

impl Default for Hss {
    fn default() -> (h: Self)
        ensures
            h@ == Map::<u64, SubscriberEntry>::empty(),
            sqns_in_range(h@),
    {
        Hss::new()
    }
}

/// The SQN only ever holds 48 bits once the HSS has touched it.
pub proof fn law_next_sqn_is_48_bits(sqn: u64)
    ensures
        next_sqn(sqn) <= SQN_MASK,
        sqn < SQN_MASK ==> next_sqn(sqn) == sqn + 1,
        sqn == SQN_MASK ==> next_sqn(sqn) == 0,
{
    let n = ((sqn as int + 1) % 0x1_0000_0000_0000_0000) as u64;
    assert(n & 0x0000_FFFF_FFFF_FFFFu64 <= 0x0000_FFFF_FFFF_FFFFu64) by (bit_vector);
    if sqn < SQN_MASK {
        assert(n == sqn + 1);
        assert(n < 0x0000_FFFF_FFFF_FFFFu64 + 1 ==> n & 0x0000_FFFF_FFFF_FFFFu64 == n) by (bit_vector);
    }
    if sqn == SQN_MASK {
        assert(n == 0x1_0000_0000_0000u64);
        assert(0x1_0000_0000_0000u64 & 0x0000_FFFF_FFFF_FFFFu64 == 0) by (bit_vector);
    }
}

} // verus!
