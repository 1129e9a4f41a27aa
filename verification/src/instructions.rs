use crate::errors::OFTError;
use crate::events::{
    address_events, guid_events, RateLimitOverrideGuidUpdated, RateLimitOverrideUpdated,
};
use crate::keys::{OverrideKey, Pubkey};
use crate::override_set::{
    batch_outcome, lemma_batch_fails_with_prefix, lemma_batch_next, step_outcome,
    RateLimitOverrideAction,
};
use crate::state::OFTStore;
use vstd::prelude::*;

verus! {

/// A request on the account overrides: who asks, and the record asked of.
pub struct ManageRateLimitOverride {
    pub admin: Pubkey,
    pub oft_store: OFTStore,
}

/// A request on the transfer overrides: who asks, and the record asked of.
pub struct ManageRateLimitOverrideGuid {
    pub admin: Pubkey,
    pub oft_store: OFTStore,
}

/// A batch on accounts: `actions[i]` applies to `addresses[i]`.
pub struct ManageRateLimitOverrideAddressParams {
    pub addresses: Vec<Pubkey>,
    pub actions: Vec<RateLimitOverrideAction>,
}

/// A batch on transfer identifiers: `actions[i]` applies to `guids[i]`.
pub struct ManageRateLimitOverrideGuidParams {
    pub guids: Vec<[u8; 32]>,
    pub actions: Vec<RateLimitOverrideAction>,
}

/// What a request does to a list of overrides. A caller other than the
/// administrator is turned down first, then a batch whose two sequences
/// differ in length; after that the batch decides.
pub open spec fn request_outcome<K>(
    caller: Pubkey,
    admin: Pubkey,
    entries: Seq<K>,
    capacity: nat,
    actions: Seq<RateLimitOverrideAction>,
    keys: Seq<K>,
) -> Result<Seq<K>, OFTError> {
    if caller != admin {
        Err(OFTError::Unauthorized)
    } else if actions.len() != keys.len() {
        Err(OFTError::ManageRateLimitOverrideParamsLengthMismatch)
    } else {
        batch_outcome(entries, capacity, actions, keys)
    }
}

impl ManageRateLimitOverride {
    /// Applies a batch to the account overrides on behalf of the caller.
    /// Either every step goes through, and the notifications come back in
    /// request order, or the overrides are as they were before the call.
    pub fn apply_address(
        ctx: &mut ManageRateLimitOverride,
        params: &ManageRateLimitOverrideAddressParams,
    ) -> (result: Result<Vec<RateLimitOverrideUpdated>, OFTError>)
        requires
            old(ctx).oft_store.rate_limit_override.wf(),
        ensures
            final(ctx).admin == old(ctx).admin,
            final(ctx).oft_store == old(ctx).oft_store.with_address_overrides(
                final(ctx).oft_store.rate_limit_override,
            ),
            final(ctx).oft_store.rate_limit_override.wf(),
            final(ctx).oft_store.rate_limit_override.spec_capacity() == old(
                ctx,
            ).oft_store.rate_limit_override.spec_capacity(),
            match request_outcome(
                old(ctx).admin,
                old(ctx).oft_store.admin,
                old(ctx).oft_store.rate_limit_override@,
                old(ctx).oft_store.rate_limit_override.spec_capacity(),
                params.actions@,
                params.addresses@,
            ) {
                Ok(entries) => {
                    &&& final(ctx).oft_store.rate_limit_override@ == entries
                    &&& match result {
                        Ok(events) => events@ == address_events(params.actions@, params.addresses@),
                        Err(_) => false,
                    }
                },
                Err(e) => {
                    &&& final(ctx).oft_store.rate_limit_override@ == old(
                        ctx,
                    ).oft_store.rate_limit_override@
                    &&& match result {
                        Ok(_) => false,
                        Err(raised) => raised == e,
                    }
                },
            },
    {
        if !ctx.admin.same(&ctx.oft_store.admin) {
            return Err(OFTError::Unauthorized);
        }
        if params.actions.len() != params.addresses.len() {
            return Err(OFTError::ManageRateLimitOverrideParamsLengthMismatch);
        }
        let ghost before = ctx.oft_store.rate_limit_override@;
        let ghost capacity = ctx.oft_store.rate_limit_override.spec_capacity();
        let snapshot = ctx.oft_store.rate_limit_override.snapshot();
        let mut events: Vec<RateLimitOverrideUpdated> = Vec::new();
        let mut i: usize = 0;
        while i < params.actions.len()
            invariant
                i <= params.actions@.len(),
                params.actions@.len() == params.addresses@.len(),
                ctx.admin == old(ctx).admin,
                old(ctx).admin == old(ctx).oft_store.admin,
                ctx.oft_store == old(ctx).oft_store.with_address_overrides(
                    ctx.oft_store.rate_limit_override,
                ),
                before == old(ctx).oft_store.rate_limit_override@,
                capacity == old(ctx).oft_store.rate_limit_override.spec_capacity(),
                old(ctx).oft_store.rate_limit_override.wf(),
                ctx.oft_store.rate_limit_override.wf(),
                ctx.oft_store.rate_limit_override.spec_capacity() == capacity,
                snapshot@ == before,
                snapshot.spec_capacity() == capacity,
                batch_outcome(
                    before,
                    capacity,
                    params.actions@.take(i as int),
                    params.addresses@.take(i as int),
                ) == Ok::<Seq<Pubkey>, OFTError>(ctx.oft_store.rate_limit_override@),
                events@ == address_events(
                    params.actions@.take(i as int),
                    params.addresses@.take(i as int),
                ),
            decreases params.actions@.len() - i,
        {
            proof {
                lemma_batch_next(before, capacity, params.actions@, params.addresses@, i as int);
            }
            match Self::process_address_action(ctx, &params.actions[i], &params.addresses[i]) {
                Ok(event) => {
                    events.push(event);
                },
                Err(e) => {
                    proof {
                        lemma_batch_fails_with_prefix(
                            before,
                            capacity,
                            params.actions@,
                            params.addresses@,
                            i + 1,
                        );
                    }
                    ctx.oft_store.rate_limit_override = snapshot;
                    return Err(e);
                },
            }
            assert(events@ =~= address_events(
                params.actions@.take(i + 1),
                params.addresses@.take(i + 1),
            ));
            i += 1;
        }
        assert(params.actions@.take(i as int) =~= params.actions@);
        assert(params.addresses@.take(i as int) =~= params.addresses@);
        Ok(events)
    }

    /// Applies one action to the account overrides and hands back its
    /// notification; a step that fails changes nothing.
    fn process_address_action(
        ctx: &mut ManageRateLimitOverride,
        action: &RateLimitOverrideAction,
        address: &Pubkey,
    ) -> (result: Result<RateLimitOverrideUpdated, OFTError>)
        requires
            old(ctx).oft_store.rate_limit_override.wf(),
        ensures
            final(ctx).admin == old(ctx).admin,
            final(ctx).oft_store == old(ctx).oft_store.with_address_overrides(
                final(ctx).oft_store.rate_limit_override,
            ),
            final(ctx).oft_store.rate_limit_override.wf(),
            final(ctx).oft_store.rate_limit_override.spec_capacity() == old(
                ctx,
            ).oft_store.rate_limit_override.spec_capacity(),
            match step_outcome(
                old(ctx).oft_store.rate_limit_override@,
                old(ctx).oft_store.rate_limit_override.spec_capacity(),
                *action,
                *address,
            ) {
                Ok(entries) => {
                    &&& final(ctx).oft_store.rate_limit_override@ == entries
                    &&& result == Ok::<RateLimitOverrideUpdated, OFTError>(
                        (RateLimitOverrideUpdated { address: *address, action: *action }),
                    )
                },
                Err(e) => {
                    &&& *final(ctx) == *old(ctx)
                    &&& result == Err::<RateLimitOverrideUpdated, OFTError>(e)
                },
            },
    {
        match action {
            RateLimitOverrideAction::Add => {
                match ctx.oft_store.rate_limit_override.add(*address) {
                    Ok(()) => Ok(
                        RateLimitOverrideUpdated {
                            address: *address,
                            action: RateLimitOverrideAction::Add,
                        },
                    ),
                    Err(e) => Err(e),
                }
            },
            RateLimitOverrideAction::Remove => {
                match ctx.oft_store.rate_limit_override.remove(address) {
                    Ok(()) => Ok(
                        RateLimitOverrideUpdated {
                            address: *address,
                            action: RateLimitOverrideAction::Remove,
                        },
                    ),
                    Err(e) => Err(e),
                }
            },
        }
    }

    /// Applies a batch to the transfer overrides on behalf of the caller.
    /// Either every step goes through, and the notifications come back in
    /// request order, or the overrides are as they were before the call.
    pub fn apply_guid(
        ctx: &mut ManageRateLimitOverride,
        params: &ManageRateLimitOverrideGuidParams,
    ) -> (result: Result<Vec<RateLimitOverrideGuidUpdated>, OFTError>)
        requires
            old(ctx).oft_store.rate_limit_override_guids.wf(),
        ensures
            final(ctx).admin == old(ctx).admin,
            final(ctx).oft_store == old(ctx).oft_store.with_guid_overrides(
                final(ctx).oft_store.rate_limit_override_guids,
            ),
            final(ctx).oft_store.rate_limit_override_guids.wf(),
            final(ctx).oft_store.rate_limit_override_guids.spec_capacity() == old(
                ctx,
            ).oft_store.rate_limit_override_guids.spec_capacity(),
            match request_outcome(
                old(ctx).admin,
                old(ctx).oft_store.admin,
                old(ctx).oft_store.rate_limit_override_guids@,
                old(ctx).oft_store.rate_limit_override_guids.spec_capacity(),
                params.actions@,
                params.guids@,
            ) {
                Ok(entries) => {
                    &&& final(ctx).oft_store.rate_limit_override_guids@ == entries
                    &&& match result {
                        Ok(events) => events@ == guid_events(params.actions@, params.guids@),
                        Err(_) => false,
                    }
                },
                Err(e) => {
                    &&& final(ctx).oft_store.rate_limit_override_guids@ == old(
                        ctx,
                    ).oft_store.rate_limit_override_guids@
                    &&& match result {
                        Ok(_) => false,
                        Err(raised) => raised == e,
                    }
                },
            },
    {
        if !ctx.admin.same(&ctx.oft_store.admin) {
            return Err(OFTError::Unauthorized);
        }
        if params.actions.len() != params.guids.len() {
            return Err(OFTError::ManageRateLimitOverrideParamsLengthMismatch);
        }
        let ghost before = ctx.oft_store.rate_limit_override_guids@;
        let ghost capacity = ctx.oft_store.rate_limit_override_guids.spec_capacity();
        let snapshot = ctx.oft_store.rate_limit_override_guids.snapshot();
        let mut events: Vec<RateLimitOverrideGuidUpdated> = Vec::new();
        let mut i: usize = 0;
        while i < params.actions.len()
            invariant
                i <= params.actions@.len(),
                params.actions@.len() == params.guids@.len(),
                ctx.admin == old(ctx).admin,
                old(ctx).admin == old(ctx).oft_store.admin,
                ctx.oft_store == old(ctx).oft_store.with_guid_overrides(
                    ctx.oft_store.rate_limit_override_guids,
                ),
                before == old(ctx).oft_store.rate_limit_override_guids@,
                capacity == old(ctx).oft_store.rate_limit_override_guids.spec_capacity(),
                old(ctx).oft_store.rate_limit_override_guids.wf(),
                ctx.oft_store.rate_limit_override_guids.wf(),
                ctx.oft_store.rate_limit_override_guids.spec_capacity() == capacity,
                snapshot@ == before,
                snapshot.spec_capacity() == capacity,
                batch_outcome(
                    before,
                    capacity,
                    params.actions@.take(i as int),
                    params.guids@.take(i as int),
                ) == Ok::<Seq<[u8; 32]>, OFTError>(ctx.oft_store.rate_limit_override_guids@),
                events@ == guid_events(
                    params.actions@.take(i as int),
                    params.guids@.take(i as int),
                ),
            decreases params.actions@.len() - i,
        {
            proof {
                lemma_batch_next(before, capacity, params.actions@, params.guids@, i as int);
            }
            match Self::process_guid_action(ctx, &params.actions[i], &params.guids[i]) {
                Ok(event) => {
                    events.push(event);
                },
                Err(e) => {
                    proof {
                        lemma_batch_fails_with_prefix(
                            before,
                            capacity,
                            params.actions@,
                            params.guids@,
                            i + 1,
                        );
                    }
                    ctx.oft_store.rate_limit_override_guids = snapshot;
                    return Err(e);
                },
            }
            assert(events@ =~= guid_events(
                params.actions@.take(i + 1),
                params.guids@.take(i + 1),
            ));
            i += 1;
        }
        assert(params.actions@.take(i as int) =~= params.actions@);
        assert(params.guids@.take(i as int) =~= params.guids@);
        Ok(events)
    }

    /// Applies one action to the transfer overrides and hands back its
    /// notification; a step that fails changes nothing.
    fn process_guid_action(
        ctx: &mut ManageRateLimitOverride,
        action: &RateLimitOverrideAction,
        guid: &[u8; 32],
    ) -> (result: Result<RateLimitOverrideGuidUpdated, OFTError>)
        requires
            old(ctx).oft_store.rate_limit_override_guids.wf(),
        ensures
            final(ctx).admin == old(ctx).admin,
            final(ctx).oft_store == old(ctx).oft_store.with_guid_overrides(
                final(ctx).oft_store.rate_limit_override_guids,
            ),
            final(ctx).oft_store.rate_limit_override_guids.wf(),
            final(ctx).oft_store.rate_limit_override_guids.spec_capacity() == old(
                ctx,
            ).oft_store.rate_limit_override_guids.spec_capacity(),
            match step_outcome(
                old(ctx).oft_store.rate_limit_override_guids@,
                old(ctx).oft_store.rate_limit_override_guids.spec_capacity(),
                *action,
                *guid,
            ) {
                Ok(entries) => {
                    &&& final(ctx).oft_store.rate_limit_override_guids@ == entries
                    &&& result == Ok::<RateLimitOverrideGuidUpdated, OFTError>(
                        (RateLimitOverrideGuidUpdated { guid: *guid, action: *action }),
                    )
                },
                Err(e) => {
                    &&& *final(ctx) == *old(ctx)
                    &&& result == Err::<RateLimitOverrideGuidUpdated, OFTError>(e)
                },
            },
    {
        match action {
            RateLimitOverrideAction::Add => {
                match ctx.oft_store.rate_limit_override_guids.add(*guid) {
                    Ok(()) => Ok(
                        RateLimitOverrideGuidUpdated {
                            guid: *guid,
                            action: RateLimitOverrideAction::Add,
                        },
                    ),
                    Err(e) => Err(e),
                }
            },
            RateLimitOverrideAction::Remove => {
                match ctx.oft_store.rate_limit_override_guids.remove(guid) {
                    Ok(()) => Ok(
                        RateLimitOverrideGuidUpdated {
                            guid: *guid,
                            action: RateLimitOverrideAction::Remove,
                        },
                    ),
                    Err(e) => Err(e),
                }
            },
        }
    }
}

} // verus!
