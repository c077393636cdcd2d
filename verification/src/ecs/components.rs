//! Component types of the subscriber store.
//!
//! The NAS security context is not a field of [`SecurityContext`]: it is
//! created once, at Security Mode Complete, and lives for the session,
//! while the AKA material here is live only during the challenge and is
//! wiped as soon as it has been used.

use vstd::prelude::*;

verus! {

/// Writes zeros over a byte array, with volatile writes the compiler keeps
/// (`zeroize::Zeroize::zeroize` on `[u8; N]`).
/// Trusted: per the crate's source, each element is overwritten with
/// `u8::default()`, that is 0.
#[verifier::external_body]
pub(crate) fn zeroize_bytes<const N: usize>(buf: &mut [u8; N])
    ensures
        forall|i: int| 0 <= i < N ==> final(buf)@[i] == 0u8,
{
    zeroize::Zeroize::zeroize(buf);
}

/// All `n` bytes of `s` are zero.
pub open spec fn all_zero(s: Seq<u8>, n: nat) -> bool {
    s.len() == n && forall|i: int| 0 <= i < n ==> s[i] == 0u8
}

/// Who the subscriber is and where it is reached.
#[derive(Debug, Clone, Copy)]
pub struct IdentityComponent {
    pub imsi: u64,
    pub enb_ue_s1ap_id: u32,
    pub ue_ip: [u8; 4],
}

impl IdentityComponent {
    /// The identity of a fresh slot: all zero.
    pub fn empty() -> (c: Self)
        ensures
            c.imsi == 0,
            c.enb_ue_s1ap_id == 0,
            all_zero(c.ue_ip@, 4),
    {
        let c = IdentityComponent { imsi: 0, enb_ue_s1ap_id: 0, ue_ip: [0u8; 4] };
        assert(all_zero(c.ue_ip@, 4));
        c
    }
}

/// Where a subscriber stands in authentication.
#[derive(Debug, Clone, Copy, PartialEq, Eq, Structural)]
pub enum AuthState {
    Unauthenticated,
    ChallengeIssued,
    Authenticated,
    Failed(AuthFailReason),
}

/// Why authentication failed.
#[derive(Debug, Clone, Copy, PartialEq, Eq, Structural)]
pub enum AuthFailReason {
    ResMismatch,
    MacFailure,
    SqnOutOfRange,
    InternalError,
}

/// EPS-AKA material in flight between the challenge and the Kasme
/// derivation. PLMN and SQN are not secret.
#[derive(Clone)]
pub struct SecurityContext {
    pub pending_rand: [u8; 16],
    pub pending_xres: [u8; 8],
    pub ck: [u8; 16],
    pub ik: [u8; 16],
    pub ak: [u8; 6],
    pub plmn: [u8; 3],
    pub sqn_used: [u8; 6],
}

impl SecurityContext {
    /// Every field zero.
    pub open spec fn is_empty(&self) -> bool {
        &&& all_zero(self.pending_rand@, 16)
        &&& all_zero(self.pending_xres@, 8)
        &&& all_zero(self.ck@, 16)
        &&& all_zero(self.ik@, 16)
        &&& all_zero(self.ak@, 6)
        &&& all_zero(self.plmn@, 3)
        &&& all_zero(self.sqn_used@, 6)
    }

    pub fn new_empty() -> (c: Self)
        ensures
            c.is_empty(),
    {
        let c = SecurityContext {
            pending_rand: [0u8; 16],
            pending_xres: [0u8; 8],
            ck: [0u8; 16],
            ik: [0u8; 16],
            ak: [0u8; 6],
            plmn: [0u8; 3],
            sqn_used: [0u8; 6],
        };
        assert(c.is_empty());
        c
    }

    /// Wipe RAND and XRES — right after RES verification, pass or fail.
    pub fn clear_pending_challenge(&mut self)
        ensures
            all_zero(final(self).pending_rand@, 16),
            all_zero(final(self).pending_xres@, 8),
            final(self).ck == old(self).ck,
            final(self).ik == old(self).ik,
            final(self).ak == old(self).ak,
            final(self).plmn == old(self).plmn,
            final(self).sqn_used == old(self).sqn_used,
    {
        zeroize_bytes(&mut self.pending_rand);
        zeroize_bytes(&mut self.pending_xres);
    }

    /// Wipe CK, IK and AK — right after Kasme has been derived from them.
    pub fn clear_post_kasme(&mut self)
        ensures
            all_zero(final(self).ck@, 16),
            all_zero(final(self).ik@, 16),
            all_zero(final(self).ak@, 6),
            final(self).pending_rand == old(self).pending_rand,
            final(self).pending_xres == old(self).pending_xres,
            final(self).plmn == old(self).plmn,
            final(self).sqn_used == old(self).sqn_used,
    {
        zeroize_bytes(&mut self.ck);
        zeroize_bytes(&mut self.ik);
        zeroize_bytes(&mut self.ak);
    }
}

/// 5G-AKA material in flight: the challenge, XRES*, and the keys KAUSF is
/// derived from.
#[derive(Clone)]
pub struct Nas5gsAkaContext {
    pub pending_rand: [u8; 16],
    pub pending_xres_star: [u8; 16],
    pub ck: [u8; 16],
    pub ik: [u8; 16],
    pub ak: [u8; 6],
    pub sqn_used: [u8; 6],
}

impl Nas5gsAkaContext {
    /// Every field zero.
    pub open spec fn is_empty(&self) -> bool {
        &&& all_zero(self.pending_rand@, 16)
        &&& all_zero(self.pending_xres_star@, 16)
        &&& all_zero(self.ck@, 16)
        &&& all_zero(self.ik@, 16)
        &&& all_zero(self.ak@, 6)
        &&& all_zero(self.sqn_used@, 6)
    }

    pub fn new_empty() -> (c: Self)
        ensures
            c.is_empty(),
    {
        let c = Nas5gsAkaContext {
            pending_rand: [0u8; 16],
            pending_xres_star: [0u8; 16],
            ck: [0u8; 16],
            ik: [0u8; 16],
            ak: [0u8; 6],
            sqn_used: [0u8; 6],
        };
        assert(c.is_empty());
        c
    }
}

/// GTP-U tunnel endpoints of a session.
#[derive(Debug, Clone, Copy, PartialEq, Eq)]
pub struct TunnelComponent {
    pub ul_teid: u32,
    pub dl_teid: u32,
    pub enb_addr: [u8; 4],
}

} // verus!
