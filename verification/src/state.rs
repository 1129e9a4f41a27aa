use crate::amounts::{
    checked_local_amount, dust_free, lemma_dust_free_bounds, lemma_shared_amount_bound,
    shared_amount,
};
use crate::errors::OFTError;
use crate::keys::Pubkey;
use crate::override_set::OverrideSet;
use vstd::prelude::*;

verus! {

/// How the token is held on this network.
#[derive(Clone, Copy, Debug, PartialEq, Eq, Structural)]
pub enum OFTType {
    Native,
    Adapter,
}

/// The record that owns the conversion rate, the administrator identity and
/// the two override sets.
pub struct OFTStore {
    // immutable
    pub oft_type: OFTType,
    pub ld2sd_rate: u64,
    pub token_mint: Pubkey,
    pub token_escrow: Pubkey,
    pub endpoint_program: Pubkey,
    pub bump: u8,
    // mutable
    pub tvl_ld: u64,
    // configurable
    pub admin: Pubkey,
    pub default_fee_bps: u16,
    pub paused: bool,
    pub pauser: Option<Pubkey>,
    pub unpauser: Option<Pubkey>,
    /// Accounts that are exempt from the rate limit, for all peers.
    pub rate_limit_override: OverrideSet<Pubkey>,
    /// Transfers that are exempt from the rate limit, by their identifier.
    pub rate_limit_override_guids: OverrideSet<[u8; 32]>,
}

/// The two account addresses that a receive-types query hands out.
#[derive(Clone, Copy, Debug, PartialEq, Eq)]
pub struct LzReceiveTypesAccounts {
    pub oft_store: Pubkey,
    pub token_mint: Pubkey,
}

impl OFTStore {
    /// The conversion rate is at least one and both override sets are
    /// well-formed.
    pub open spec fn wf(&self) -> bool {
        &&& self.ld2sd_rate >= 1
        &&& self.rate_limit_override.wf()
        &&& self.rate_limit_override_guids.wf()
    }

    /// This record with another set of account overrides.
    pub open spec fn with_address_overrides(self, overrides: OverrideSet<Pubkey>) -> OFTStore {
        OFTStore { rate_limit_override: overrides, ..self }
    }

    /// This record with another set of transfer overrides.
    pub open spec fn with_guid_overrides(self, overrides: OverrideSet<[u8; 32]>) -> OFTStore {
        OFTStore { rate_limit_override_guids: overrides, ..self }
    }

    /// A fresh record with empty override sets of the given capacities,
    /// nothing locked, no fee and no pause. A conversion rate of zero is
    /// turned down.
    pub fn new(
        oft_type: OFTType,
        ld2sd_rate: u64,
        token_mint: Pubkey,
        token_escrow: Pubkey,
        endpoint_program: Pubkey,
        bump: u8,
        admin: Pubkey,
        max_rate_limit_overrides: u8,
        max_rate_limit_override_guid_count: u8,
    ) -> (result: Result<OFTStore, OFTError>)
        ensures
            match result {
                Ok(store) => {
                    &&& ld2sd_rate > 0
                    &&& store.wf()
                    &&& store.oft_type == oft_type
                    &&& store.ld2sd_rate == ld2sd_rate
                    &&& store.token_mint == token_mint
                    &&& store.token_escrow == token_escrow
                    &&& store.endpoint_program == endpoint_program
                    &&& store.bump == bump
                    &&& store.tvl_ld == 0
                    &&& store.admin == admin
                    &&& store.default_fee_bps == 0
                    &&& !store.paused
                    &&& store.pauser.is_none()
                    &&& store.unpauser.is_none()
                    &&& store.rate_limit_override@ == Seq::<Pubkey>::empty()
                    &&& store.rate_limit_override.spec_capacity() == max_rate_limit_overrides
                    &&& store.rate_limit_override_guids@ == Seq::<[u8; 32]>::empty()
                    &&& store.rate_limit_override_guids.spec_capacity()
                        == max_rate_limit_override_guid_count
                },
                Err(e) => ld2sd_rate == 0 && e == OFTError::InvalidConversionRate,
            },
    {
        if ld2sd_rate == 0 {
            return Err(OFTError::InvalidConversionRate);
        }
        Ok(
            OFTStore {
                oft_type,
                ld2sd_rate,
                token_mint,
                token_escrow,
                endpoint_program,
                bump,
                tvl_ld: 0,
                admin,
                default_fee_bps: 0,
                paused: false,
                pauser: None,
                unpauser: None,
                rate_limit_override: OverrideSet::new(max_rate_limit_overrides),
                rate_limit_override_guids: OverrideSet::new(max_rate_limit_override_guid_count),
            },
        )
    }

    /// Converts a local-decimal amount to shared decimals, rounding down.
    pub fn ld2sd(&self, amount_ld: u64) -> (amount_sd: u64)
        requires
            self.ld2sd_rate > 0,
        ensures
            amount_sd == shared_amount(amount_ld as nat, self.ld2sd_rate as nat),
            amount_sd <= amount_ld,
    {
        proof {
            lemma_shared_amount_bound(amount_ld as nat, self.ld2sd_rate as nat);
        }
        amount_ld / self.ld2sd_rate
    }

    /// Converts a shared-decimal amount to local decimals, or reports that
    /// the product does not fit in 64 bits.
    pub fn sd2ld(&self, amount_sd: u64) -> (result: Result<u64, OFTError>)
        ensures
            result == checked_local_amount(amount_sd as nat, self.ld2sd_rate as nat),
    {
        match amount_sd.checked_mul(self.ld2sd_rate) {
            Some(amount_ld) => Ok(amount_ld),
            None => Err(OFTError::AmountOverflow),
        }
    }

    /// Rounds a local-decimal amount down to the largest multiple of the
    /// conversion rate, leaving out the dust.
    pub fn remove_dust(&self, amount_ld: u64) -> (cleaned: u64)
        requires
            self.ld2sd_rate > 0,
        ensures
            cleaned == dust_free(amount_ld as nat, self.ld2sd_rate as nat),
            cleaned % self.ld2sd_rate == 0,
            cleaned <= amount_ld,
            amount_ld - cleaned < self.ld2sd_rate,
    {
        proof {
            lemma_dust_free_bounds(amount_ld as nat, self.ld2sd_rate as nat);
        }
        amount_ld - amount_ld % self.ld2sd_rate
    }

    /// Whether the account is exempt from the rate limit.
    pub fn is_rate_limit_override(&self, account: &Pubkey) -> (exempt: bool)
        ensures
            exempt == self.rate_limit_override@.contains(*account),
    {
        self.rate_limit_override.contains(account)
    }

    /// Whether the transfer with this identifier is exempt from the rate
    /// limit.
    pub fn is_rate_limit_override_guid(&self, guid: &[u8; 32]) -> (exempt: bool)
        ensures
            exempt == self.rate_limit_override_guids@.contains(*guid),
    {
        self.rate_limit_override_guids.contains(guid)
    }
}

} // verus!
