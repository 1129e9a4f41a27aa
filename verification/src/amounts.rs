use vstd::arithmetic::div_mod::{
    lemma_div_by_multiple, lemma_fundamental_div_mod, lemma_mod_multiples_basic,
};
use crate::errors::OFTError;
use vstd::prelude::*;

verus! {

/// The shared-decimal amount for a local-decimal amount: the quotient of the
/// amount by the conversion rate, rounded down.
pub open spec fn shared_amount(amount_ld: nat, rate: nat) -> nat
    recommends
        rate > 0,
{
    amount_ld / rate
}

/// The local-decimal amount for a shared-decimal amount, as a mathematical
/// integer that may exceed 64 bits.
pub open spec fn local_amount(amount_sd: nat, rate: nat) -> nat {
    amount_sd * rate
}

/// The local-decimal amount for a shared-decimal amount where it fits in 64
/// bits, and the overflow error where it does not.
pub open spec fn checked_local_amount(amount_sd: nat, rate: nat) -> Result<u64, OFTError> {
    if local_amount(amount_sd, rate) <= u64::MAX {
        Ok(local_amount(amount_sd, rate) as u64)
    } else {
        Err(OFTError::AmountOverflow)
    }
}

/// The part of a local-decimal amount that is lost on the way to shared
/// decimals and back.
pub open spec fn dust(amount_ld: nat, rate: nat) -> nat
    recommends
        rate > 0,
{
    amount_ld % rate
}

/// A local-decimal amount without its dust.
pub open spec fn dust_free(amount_ld: nat, rate: nat) -> nat
    recommends
        rate > 0,
{
    (amount_ld - dust(amount_ld, rate)) as nat
}

/// A shared-decimal amount never exceeds the local-decimal amount it came
/// from.
pub proof fn lemma_shared_amount_bound(amount_ld: nat, rate: nat)
    requires
        rate > 0,
    ensures
        shared_amount(amount_ld, rate) <= amount_ld,
{
    let a = amount_ld as int;
    let r = rate as int;
    lemma_fundamental_div_mod(a, r);
    assert(a / r <= a) by (nonlinear_arith)
        requires
            a == r * (a / r) + a % r,
            0 <= a % r,
            0 <= a,
            r >= 1,
    ;
}

/// An amount without its dust is a multiple of the rate, does not exceed the
/// amount, and falls short of it by less than the rate.
pub proof fn lemma_dust_free_bounds(amount_ld: nat, rate: nat)
    requires
        rate > 0,
    ensures
        dust_free(amount_ld, rate) % rate == 0,
        dust_free(amount_ld, rate) <= amount_ld,
        amount_ld - dust_free(amount_ld, rate) == dust(amount_ld, rate),
        amount_ld - dust_free(amount_ld, rate) < rate,
{
    let a = amount_ld as int;
    let r = rate as int;
    lemma_fundamental_div_mod(a, r);
    assert(a - a % r == (a / r) * r) by (nonlinear_arith)
        requires
            a == r * (a / r) + a % r,
    ;
    lemma_mod_multiples_basic(a / r, r);
}

/// No multiple of the rate lies above an amount without its dust and at or
/// below the amount itself.
pub proof fn lemma_no_multiple_above_dust_free(amount_ld: nat, rate: nat, multiple: nat)
    requires
        rate > 0,
        multiple % rate == 0,
        multiple <= amount_ld,
    ensures
        multiple <= dust_free(amount_ld, rate),
{
    let a = amount_ld as int;
    let r = rate as int;
    let m = multiple as int;
    lemma_fundamental_div_mod(a, r);
    lemma_fundamental_div_mod(m, r);
    assert(m / r <= a / r) by (nonlinear_arith)
        requires
            0 <= m <= a,
            r > 0,
    ;
    assert(r * (m / r) <= r * (a / r)) by (nonlinear_arith)
        requires
            m / r <= a / r,
            r > 0,
    ;
}

/// Going to shared decimals and back gives the amount without its dust, and
/// never more than the amount that went in; for an amount of 64 bits the way
/// back cannot overflow.
pub proof fn lemma_round_trip_removes_dust(amount_ld: nat, rate: nat)
    requires
        rate > 0,
    ensures
        local_amount(shared_amount(amount_ld, rate), rate) == dust_free(amount_ld, rate),
        local_amount(shared_amount(amount_ld, rate), rate) <= amount_ld,
        amount_ld <= u64::MAX ==> checked_local_amount(shared_amount(amount_ld, rate), rate) == Ok::<
            u64,
            OFTError,
        >(dust_free(amount_ld, rate) as u64),
{
    let a = amount_ld as int;
    let r = rate as int;
    lemma_fundamental_div_mod(a, r);
    assert((a / r) * r == a - a % r) by (nonlinear_arith)
        requires
            a == r * (a / r) + a % r,
    ;
}

/// Going to local decimals and back gives the shared-decimal amount again.
pub proof fn lemma_shared_of_local(amount_sd: nat, rate: nat)
    requires
        rate > 0,
    ensures
        shared_amount(local_amount(amount_sd, rate), rate) == amount_sd,
        dust(local_amount(amount_sd, rate), rate) == 0,
{
    lemma_div_by_multiple(amount_sd as int, rate as int);
    lemma_mod_multiples_basic(amount_sd as int, rate as int);
}

/// The shared-decimal amount is exact only for an amount without dust: an
/// amount that is no multiple of the rate comes back strictly smaller.
pub proof fn lemma_round_trip_exact_iff_no_dust(amount_ld: nat, rate: nat)
    requires
        rate > 0,
    ensures
        local_amount(shared_amount(amount_ld, rate), rate) == amount_ld <==> amount_ld % rate == 0,
{
    lemma_round_trip_removes_dust(amount_ld, rate);
    lemma_dust_free_bounds(amount_ld, rate);
}

} // verus!
