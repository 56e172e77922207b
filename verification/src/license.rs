//! The license record and the three operations that mutate it.

use vstd::prelude::*;

verus! {

/// An opaque caller or owner identity (a public-key-like identifier).
/// Only equality of identities matters to the logic, so an identity is
/// modeled as a single machine word.
#[derive(Clone, Copy, PartialEq, Eq, Structural, Debug)]
pub struct Identity {
    pub key: u64,
}

/// The error taxonomy of the license logic.
///
/// `UnauthorizedAuthority` is raised by `renew_license` and
/// `set_active_status` when the caller is not the record's stored authority.
/// `DuplicateLicense` is raised when issuance targets an already-occupied
/// `(owner, software_id)` address. `LicenseNotActive` and `LicenseExpired`
/// belong to the reader-side validity check (`check_validity`); the mutating
/// operations never raise them.
#[derive(Clone, Copy, PartialEq, Eq, Structural, Debug)]
pub enum ErrorCode {
    UnauthorizedAuthority,
    LicenseNotActive,
    LicenseExpired,
    DuplicateLicense,
}

/// A license record: fixed-size, scalar fields only.
///
/// `owner`, `authority` and `software_id` never change after issuance.
/// `purchase_timestamp` and `expiration_timestamp` are seconds since the
/// epoch; `is_active` is an administrative flag independent of time-based
/// expiration.
#[derive(Clone, Copy, PartialEq, Eq, Structural, Debug)]
pub struct LicenseAccount {
    pub owner: Identity,
    pub authority: Identity,
    pub software_id: u64,
    pub purchase_timestamp: i64,
    pub expiration_timestamp: i64,
    pub is_active: bool,
}

/// The inputs of an issuance, as resolved and authenticated by the host:
/// the user the license is granted to, and the signing authority.
#[derive(Clone, Copy, PartialEq, Eq, Structural, Debug)]
pub struct IssueLicense {
    pub user: Identity,
    pub authority: Identity,
}

/// The authenticated signer of a renewal request.
#[derive(Clone, Copy, PartialEq, Eq, Structural, Debug)]
pub struct RenewLicense {
    pub authority: Identity,
}

/// The authenticated signer of a status-change request.
#[derive(Clone, Copy, PartialEq, Eq, Structural, Debug)]
pub struct UpdateStatus {
    pub authority: Identity,
}

/// The record that an issuance at time `now` creates.
pub open spec fn issued(
    ctx: IssueLicense,
    software_id: u64,
    duration_seconds: i64,
    now: i64,
) -> LicenseAccount {
    LicenseAccount {
        owner: ctx.user,
        authority: ctx.authority,
        software_id,
        purchase_timestamp: now,
        expiration_timestamp: (now + duration_seconds) as i64,
        is_active: true,
    }
}

/// The anchor time of a renewal: the later of the current expiration and
/// the current time. Renewing an unexpired license extends it; renewing an
/// expired one resumes counting from now.
pub open spec fn renew_base(expiration: int, now: int) -> int {
    if expiration > now {
        expiration
    } else {
        now
    }
}

/// The record that a successful renewal at time `now` produces.
pub open spec fn renewed(l: LicenseAccount, duration_seconds: i64, now: i64) -> LicenseAccount {
    LicenseAccount {
        owner: l.owner,
        authority: l.authority,
        software_id: l.software_id,
        purchase_timestamp: now,
        expiration_timestamp: (renew_base(l.expiration_timestamp as int, now as int)
            + duration_seconds) as i64,
        is_active: true,
    }
}

/// The record after a status change.
pub open spec fn with_active(l: LicenseAccount, status: bool) -> LicenseAccount {
    LicenseAccount {
        owner: l.owner,
        authority: l.authority,
        software_id: l.software_id,
        purchase_timestamp: l.purchase_timestamp,
        expiration_timestamp: l.expiration_timestamp,
        is_active: status,
    }
}

/// Issue a new license to `ctx.user` for product `software_id`, managed by
/// `ctx.authority`, valid from `now` for `duration_seconds`.
///
/// The host must have authenticated `ctx.authority` as the signer. A
/// non-positive duration is accepted and yields an immediately expired
/// record; callers needing positive durations must enforce that themselves.
pub fn issue_license(
    ctx: &IssueLicense,
    software_id: u64,
    duration_seconds: i64,
    now: i64,
) -> (license: LicenseAccount)
    requires
        i64::MIN <= now + duration_seconds <= i64::MAX,
    ensures
        license == issued(*ctx, software_id, duration_seconds, now),
        license.expiration_timestamp == license.purchase_timestamp + duration_seconds,
        license.is_active,
{
    LicenseAccount {
        owner: ctx.user,
        authority: ctx.authority,
        software_id,
        purchase_timestamp: now,
        expiration_timestamp: now + duration_seconds,
        is_active: true,
    }
}

/// Renew `license` for `duration_seconds` from the later of its current
/// expiration and `now`; reset its purchase time to `now` and reactivate it.
///
/// Fails with `UnauthorizedAuthority`, leaving the record untouched, unless
/// the caller is the record's stored authority.
pub fn renew_license(
    license: &mut LicenseAccount,
    ctx: &RenewLicense,
    duration_seconds: i64,
    now: i64,
) -> (result: Result<(), ErrorCode>)
    requires
        ctx.authority == old(license).authority ==> i64::MIN <= renew_base(
            old(license).expiration_timestamp as int,
            now as int,
        ) + duration_seconds <= i64::MAX,
    ensures
        ctx.authority == old(license).authority ==> result == Ok::<(), ErrorCode>(())
            && *final(license) == renewed(*old(license), duration_seconds, now),
        ctx.authority != old(license).authority ==> result == Err::<(), ErrorCode>(
            ErrorCode::UnauthorizedAuthority,
        ) && *final(license) == *old(license),
        result is Ok ==> final(license).is_active,
{
    if ctx.authority != license.authority {
        return Err(ErrorCode::UnauthorizedAuthority);
    }
    let start_time: i64 = if license.expiration_timestamp > now {
        license.expiration_timestamp
    } else {
        now
    };
    license.expiration_timestamp = start_time + duration_seconds;
    license.is_active = true;
    license.purchase_timestamp = now;
    Ok(())
}

/// Set the administrative `is_active` flag of `license` to `status`,
/// touching no other field; the revocation and reinstatement path.
///
/// Fails with `UnauthorizedAuthority`, leaving the record untouched, unless
/// the caller is the record's stored authority.
pub fn set_active_status(
    license: &mut LicenseAccount,
    ctx: &UpdateStatus,
    status: bool,
) -> (result: Result<(), ErrorCode>)
    ensures
        ctx.authority == old(license).authority ==> result == Ok::<(), ErrorCode>(())
            && *final(license) == with_active(*old(license), status),
        ctx.authority != old(license).authority ==> result == Err::<(), ErrorCode>(
            ErrorCode::UnauthorizedAuthority,
        ) && *final(license) == *old(license),
        final(license).purchase_timestamp == old(license).purchase_timestamp,
        final(license).expiration_timestamp == old(license).expiration_timestamp,
{
    if ctx.authority != license.authority {
        return Err(ErrorCode::UnauthorizedAuthority);
    }
    license.is_active = status;
    Ok(())
}

/// The reader-side validity contract: a license is currently valid exactly
/// when it is administratively active and its expiration lies in the
/// future. The two conditions are orthogonal; consumers must check both.
pub fn is_currently_valid(license: &LicenseAccount, now: i64) -> (r: bool)
    ensures
        r == (license.is_active && now < license.expiration_timestamp),
{
    license.is_active && now < license.expiration_timestamp
}

/// The reader-side query path over the two validity fields: `Ok` exactly
/// when the license is currently valid, `LicenseNotActive` exactly when the
/// administrative flag is down, and `LicenseExpired` exactly when the
/// license is active but past its expiration. Reads only; mutates nothing.
pub fn check_validity(license: &LicenseAccount, now: i64) -> (result: Result<(), ErrorCode>)
    ensures
        result == Ok::<(), ErrorCode>(()) <==> license.is_active && now
            < license.expiration_timestamp,
        result == Err::<(), ErrorCode>(ErrorCode::LicenseNotActive) <==> !license.is_active,
        result == Err::<(), ErrorCode>(ErrorCode::LicenseExpired) <==> license.is_active && now
            >= license.expiration_timestamp,
{
    if !license.is_active {
        Err(ErrorCode::LicenseNotActive)
    } else if now >= license.expiration_timestamp {
        Err(ErrorCode::LicenseExpired)
    } else {
        Ok(())
    }
}

/// One renewal step never shortens a license and never leaves its
/// expiration in the past, provided the added duration is non-negative:
/// the new expiration is at least the old one and at least `now`.
///
/// A negative duration breaks this: renewing an unexpired license by a
/// negative amount moves its expiration backwards.
pub proof fn lemma_renew_extends(l: LicenseAccount, duration_seconds: i64, now: i64)
    requires
        duration_seconds >= 0,
        renew_base(l.expiration_timestamp as int, now as int) + duration_seconds <= i64::MAX,
    ensures
        renewed(l, duration_seconds, now).expiration_timestamp >= l.expiration_timestamp,
        renewed(l, duration_seconds, now).expiration_timestamp >= now,
        renewed(l, duration_seconds, now).is_active,
{
}

/// The expiration that a chain of renewals yields, each step anchored at
/// the later of the running expiration and that step's `now`, over
/// unbounded integers. `steps` lists each renewal as
/// `(duration_seconds, now)`, oldest first.
pub open spec fn renewal_chain_exp(expiration: int, steps: Seq<(int, int)>) -> int
    decreases steps.len(),
{
    if steps.len() == 0 {
        expiration
    } else {
        renewal_chain_exp(
            renew_base(expiration, steps[0].1) + steps[0].0,
            steps.drop_first(),
        )
    }
}

/// Renewal is monotonic across any sequence of renewals: as long as every
/// added duration is non-negative, the final expiration is at least the
/// initial one.
pub proof fn lemma_renewal_chain_monotonic(expiration: int, steps: Seq<(int, int)>)
    requires
        forall|k: int| 0 <= k < steps.len() ==> (#[trigger] steps[k]).0 >= 0,
    ensures
        renewal_chain_exp(expiration, steps) >= expiration,
    decreases steps.len(),
{
    if steps.len() > 0 {
        let next: int = renew_base(expiration, steps[0].1) + steps[0].0;
        assert(next >= expiration);
        assert(forall|k: int|
            0 <= k < steps.drop_first().len() ==> (#[trigger] steps.drop_first()[k]).0 >= 0);
        lemma_renewal_chain_monotonic(next, steps.drop_first());
    }
}

} // verus!
