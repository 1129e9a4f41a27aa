use crate::keys::Pubkey;
use crate::override_set::RateLimitOverrideAction;
use vstd::prelude::*;

verus! {

/// Tokens left this network.
#[derive(Clone, Copy, Debug, PartialEq, Eq)]
pub struct OFTSent {
    pub guid: [u8; 32],
    pub dst_eid: u32,
    pub from: Pubkey,
    pub amount_sent_ld: u64,
    pub amount_received_ld: u64,
}

/// Tokens arrived on this network.
#[derive(Clone, Copy, Debug, PartialEq, Eq)]
pub struct OFTReceived {
    pub guid: [u8; 32],
    pub src_eid: u32,
    pub to: Pubkey,
    pub amount_received_ld: u64,
}

/// An account was added to, or removed from, the override set.
#[derive(Clone, Copy, Debug, PartialEq, Eq)]
pub struct RateLimitOverrideUpdated {
    pub address: Pubkey,
    pub action: RateLimitOverrideAction,
}

/// A transfer identifier was added to, or removed from, the override set.
#[derive(Clone, Copy, Debug, PartialEq, Eq)]
pub struct RateLimitOverrideGuidUpdated {
    pub guid: [u8; 32],
    pub action: RateLimitOverrideAction,
}

/// A transfer passed the rate limit because its account is exempt.
#[derive(Clone, Copy, Debug, PartialEq, Eq)]
pub struct RateLimitOverrideTriggered {
    pub address: Pubkey,
    pub amount_ld: u64,
}

/// A transfer passed the rate limit because its identifier is exempt.
#[derive(Clone, Copy, Debug, PartialEq, Eq)]
pub struct RateLimitOverrideGuidTriggered {
    pub guid: [u8; 32],
    pub amount_ld: u64,
}

/// The notifications of a batch on accounts that went through: one for each
/// step, in the order of the request.
pub open spec fn address_events(
    actions: Seq<RateLimitOverrideAction>,
    addresses: Seq<Pubkey>,
) -> Seq<RateLimitOverrideUpdated>
    recommends
        actions.len() == addresses.len(),
{
    Seq::new(
        actions.len(),
        |i: int| RateLimitOverrideUpdated { address: addresses[i], action: actions[i] },
    )
}

/// The notifications of a batch on transfer identifiers that went through:
/// one for each step, in the order of the request.
pub open spec fn guid_events(
    actions: Seq<RateLimitOverrideAction>,
    guids: Seq<[u8; 32]>,
) -> Seq<RateLimitOverrideGuidUpdated>
    recommends
        actions.len() == guids.len(),
{
    Seq::new(
        actions.len(),
        |i: int| RateLimitOverrideGuidUpdated { guid: guids[i], action: actions[i] },
    )
}

} // verus!
