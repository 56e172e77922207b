//! A registry of license records, addressed by `(owner, software_id)`.
//!
//! The registry realizes the addressing contract of the core: every record
//! is located by its `(owner, software_id)` pair alone — never by authority —
//! so one owner may hold independent licenses per product, and at most one
//! record exists per pair. Issuance at an occupied address fails with
//! `DuplicateLicense` and changes nothing.

use vstd::prelude::*;
use crate::license::{
    ErrorCode, Identity, IssueLicense, LicenseAccount, RenewLicense, UpdateStatus, issued,
    renew_base, renewed, with_active, issue_license, renew_license, set_active_status,
};

verus! {

/// Whether record `l` sits at the address `(owner, software_id)`.
pub open spec fn addr_eq(l: LicenseAccount, owner: Identity, software_id: u64) -> bool {
    l.owner == owner && l.software_id == software_id
}

/// All the license records the host currently persists, in order of
/// issuance. Its invariant: no two records share an address.
pub struct LicenseRegistry {
    pub licenses: Vec<LicenseAccount>,
}

impl View for LicenseRegistry {
    type V = Seq<LicenseAccount>;

    open spec fn view(&self) -> Seq<LicenseAccount> {
        self.licenses@
    }
}

impl LicenseRegistry {
    /// The addressing invariant: distinct records have distinct
    /// `(owner, software_id)` addresses.
    pub open spec fn wf(self) -> bool {
        forall|i: int, j: int|
            #![trigger self@[i], self@[j]]
            0 <= i < j < self@.len() ==> !(self@[i].owner == self@[j].owner
                && self@[i].software_id == self@[j].software_id)
    }

    /// Whether some record sits at `(owner, software_id)`.
    pub open spec fn has_license(self, owner: Identity, software_id: u64) -> bool {
        exists|i: int| 0 <= i < self@.len() && #[trigger] addr_eq(self@[i], owner, software_id)
    }

    /// The position of the record at `(owner, software_id)`; meaningful
    /// only when `has_license` holds, and then unique under `wf`.
    pub open spec fn index_of(self, owner: Identity, software_id: u64) -> int {
        choose|i: int| 0 <= i < self@.len() && #[trigger] addr_eq(self@[i], owner, software_id)
    }

    /// The record at `(owner, software_id)`; meaningful only when
    /// `has_license` holds.
    pub open spec fn license_at(self, owner: Identity, software_id: u64) -> LicenseAccount {
        self@[self.index_of(owner, software_id)]
    }

    /// An empty registry.
    pub fn new() -> (r: LicenseRegistry)
        ensures
            r.wf(),
            r@ =~= Seq::<LicenseAccount>::empty(),
    {
        LicenseRegistry { licenses: Vec::new() }
    }

    /// Look up the record at `(owner, software_id)`, if any.
    pub fn find_license(&self, owner: Identity, software_id: u64) -> (r: Option<LicenseAccount>)
        ensures
            match r {
                Some(l) => self.has_license(owner, software_id) && addr_eq(l, owner, software_id)
                    && exists|i: int| 0 <= i < self@.len() && self@[i] == l,
                None => !self.has_license(owner, software_id),
            },
    {
        let mut i: usize = 0;
        while i < self.licenses.len()
            invariant
                i <= self.licenses.len(),
                forall|k: int| 0 <= k < i ==> !addr_eq(self.licenses@[k], owner, software_id),
            decreases self.licenses.len() - i,
        {
            let l = self.licenses[i];
            if l.owner == owner && l.software_id == software_id {
                proof {
                    assert(addr_eq(self@[i as int], owner, software_id));
                }
                return Some(l);
            }
            i = i + 1;
        }
        None
    }

    /// The position of the record at `(owner, software_id)`, which the
    /// caller must know to exist.
    fn position_of(&self, owner: Identity, software_id: u64) -> (i: usize)
        requires
            self.has_license(owner, software_id),
        ensures
            i < self@.len(),
            addr_eq(self@[i as int], owner, software_id),
    {
        let mut i: usize = 0;
        while i < self.licenses.len()
            invariant
                i <= self.licenses.len(),
                self.has_license(owner, software_id),
                forall|k: int| 0 <= k < i ==> !addr_eq(self.licenses@[k], owner, software_id),
            decreases self.licenses.len() - i,
        {
            let l = self.licenses[i];
            if l.owner == owner && l.software_id == software_id {
                proof {
                    assert(addr_eq(self@[i as int], owner, software_id));
                }
                return i;
            }
            i = i + 1;
        }
        proof {
            let w: int = choose|k: int|
                0 <= k < self@.len() && #[trigger] addr_eq(self@[k], owner, software_id);
            assert(!addr_eq(self@[w], owner, software_id));
            assert(false);
        }
        0
    }

    /// Issue a new license at `(ctx.user, software_id)`.
    ///
    /// Fails with `DuplicateLicense`, changing nothing, when a record
    /// already sits at that address; otherwise appends the freshly issued
    /// record and returns a copy of it.
    pub fn issue(
        &mut self,
        ctx: &IssueLicense,
        software_id: u64,
        duration_seconds: i64,
        now: i64,
    ) -> (result: Result<LicenseAccount, ErrorCode>)
        requires
            old(self).wf(),
            i64::MIN <= now + duration_seconds <= i64::MAX,
        ensures
            final(self).wf(),
            final(self).has_license(ctx.user, software_id),
            old(self).has_license(ctx.user, software_id) ==> result == Err::<
                LicenseAccount,
                ErrorCode,
            >(ErrorCode::DuplicateLicense) && final(self)@ == old(self)@,
            !old(self).has_license(ctx.user, software_id) ==> result == Ok::<
                LicenseAccount,
                ErrorCode,
            >(issued(*ctx, software_id, duration_seconds, now)) && final(self)@ == old(
                self,
            )@.push(issued(*ctx, software_id, duration_seconds, now)),
    {
        match self.find_license(ctx.user, software_id) {
            Some(_) => Err(ErrorCode::DuplicateLicense),
            None => {
                let license = issue_license(ctx, software_id, duration_seconds, now);
                self.licenses.push(license);
                proof {
                    let n: int = self@.len() - 1;
                    assert(addr_eq(self@[n], ctx.user, software_id));
                    lemma_push_fresh_preserves_wf(
                        *old(self),
                        *self,
                        ctx.user,
                        software_id,
                        license,
                    );
                }
                Ok(license)
            },
        }
    }

    /// Renew the license at `(owner, software_id)`, which must exist.
    ///
    /// Fails with `UnauthorizedAuthority`, changing nothing, unless
    /// `ctx.authority` matches the record's stored authority; on success
    /// that one record is replaced by its renewal and every other record is
    /// untouched.
    pub fn renew(
        &mut self,
        ctx: &RenewLicense,
        owner: Identity,
        software_id: u64,
        duration_seconds: i64,
        now: i64,
    ) -> (result: Result<(), ErrorCode>)
        requires
            old(self).wf(),
            old(self).has_license(owner, software_id),
            ctx.authority == old(self).license_at(owner, software_id).authority ==> i64::MIN
                <= renew_base(
                old(self).license_at(owner, software_id).expiration_timestamp as int,
                now as int,
            ) + duration_seconds <= i64::MAX,
        ensures
            final(self).wf(),
            ctx.authority == old(self).license_at(owner, software_id).authority ==> result
                == Ok::<(), ErrorCode>(()) && final(self)@ == old(self)@.update(
                old(self).index_of(owner, software_id),
                renewed(old(self).license_at(owner, software_id), duration_seconds, now),
            ),
            ctx.authority != old(self).license_at(owner, software_id).authority ==> result
                == Err::<(), ErrorCode>(ErrorCode::UnauthorizedAuthority) && final(self)@ == old(
                self,
            )@,
    {
        let i = self.position_of(owner, software_id);
        proof {
            lemma_addr_unique(*self, owner, software_id, i as int, self.index_of(owner, software_id));
        }
        let mut l = self.licenses[i];
        match renew_license(&mut l, ctx, duration_seconds, now) {
            Ok(()) => {
                self.licenses.set(i, l);
                proof {
                    lemma_replace_at_same_address_preserves_wf(*old(self), *self, i as int);
                }
                Ok(())
            },
            Err(e) => Err(e),
        }
    }

    /// Set the `is_active` flag of the license at `(owner, software_id)`,
    /// which must exist, to `status`.
    ///
    /// Fails with `UnauthorizedAuthority`, changing nothing, unless
    /// `ctx.authority` matches the record's stored authority. No timestamp
    /// of any record changes, whether the call succeeds or fails.
    pub fn set_status(
        &mut self,
        ctx: &UpdateStatus,
        owner: Identity,
        software_id: u64,
        status: bool,
    ) -> (result: Result<(), ErrorCode>)
        requires
            old(self).wf(),
            old(self).has_license(owner, software_id),
        ensures
            final(self).wf(),
            ctx.authority == old(self).license_at(owner, software_id).authority ==> result
                == Ok::<(), ErrorCode>(()) && final(self)@ == old(self)@.update(
                old(self).index_of(owner, software_id),
                with_active(old(self).license_at(owner, software_id), status),
            ),
            ctx.authority != old(self).license_at(owner, software_id).authority ==> result
                == Err::<(), ErrorCode>(ErrorCode::UnauthorizedAuthority) && final(self)@ == old(
                self,
            )@,
            final(self)@.len() == old(self)@.len(),
            forall|k: int|
                0 <= k < old(self)@.len() ==> #[trigger] final(self)@[k].purchase_timestamp == old(
                    self,
                )@[k].purchase_timestamp && final(self)@[k].expiration_timestamp == old(
                    self,
                )@[k].expiration_timestamp,
    {
        let i = self.position_of(owner, software_id);
        proof {
            lemma_addr_unique(*self, owner, software_id, i as int, self.index_of(owner, software_id));
        }
        let mut l = self.licenses[i];
        match set_active_status(&mut l, ctx, status) {
            Ok(()) => {
                self.licenses.set(i, l);
                proof {
                    lemma_replace_at_same_address_preserves_wf(*old(self), *self, i as int);
                }
                Ok(())
            },
            Err(e) => Err(e),
        }
    }
}

/// Under the addressing invariant, an address determines its record's
/// position: two positions holding the same `(owner, software_id)` are one.
pub proof fn lemma_addr_unique(
    r: LicenseRegistry,
    owner: Identity,
    software_id: u64,
    i: int,
    j: int,
)
    requires
        r.wf(),
        r.has_license(owner, software_id),
        0 <= i < r@.len(),
        0 <= j < r@.len(),
        addr_eq(r@[i], owner, software_id),
        addr_eq(r@[j], owner, software_id),
    ensures
        i == j,
        j == r.index_of(owner, software_id) ==> r@[i] == r.license_at(owner, software_id),
{
    if i < j {
        assert(!(r@[i].owner == r@[j].owner && r@[i].software_id == r@[j].software_id));
    } else if j < i {
        assert(!(r@[j].owner == r@[i].owner && r@[j].software_id == r@[i].software_id));
    }
}

/// Appending a record at a hitherto-unoccupied address preserves the
/// addressing invariant.
proof fn lemma_push_fresh_preserves_wf(
    before: LicenseRegistry,
    after: LicenseRegistry,
    owner: Identity,
    software_id: u64,
    l: LicenseAccount,
)
    requires
        before.wf(),
        !before.has_license(owner, software_id),
        addr_eq(l, owner, software_id),
        after@ == before@.push(l),
    ensures
        after.wf(),
{
    assert forall|i: int, j: int|
        0 <= i < j < after@.len() implies !(#[trigger] after@[i].owner == #[trigger] after@[j].owner
        && after@[i].software_id == after@[j].software_id) by {
        if j < before@.len() {
            assert(after@[i] == before@[i]);
            assert(after@[j] == before@[j]);
            assert(!(before@[i].owner == before@[j].owner && before@[i].software_id
                == before@[j].software_id));
        } else {
            assert(after@[j] == l);
            assert(after@[i] == before@[i]);
            if after@[i].owner == l.owner && after@[i].software_id == l.software_id {
                assert(addr_eq(before@[i], owner, software_id));
                assert(false);
            }
        }
    }
}

/// Replacing one record by another at the same address preserves the
/// addressing invariant.
proof fn lemma_replace_at_same_address_preserves_wf(
    before: LicenseRegistry,
    after: LicenseRegistry,
    i: int,
)
    requires
        before.wf(),
        0 <= i < before@.len(),
        after@.len() == before@.len(),
        after@[i].owner == before@[i].owner,
        after@[i].software_id == before@[i].software_id,
        forall|k: int| 0 <= k < before@.len() && k != i ==> #[trigger] after@[k] == before@[k],
    ensures
        after.wf(),
{
    assert forall|p: int, q: int|
        0 <= p < q < after@.len() implies !(#[trigger] after@[p].owner == #[trigger] after@[q].owner
        && after@[p].software_id == after@[q].software_id) by {
        assert(!(before@[p].owner == before@[q].owner && before@[p].software_id
            == before@[q].software_id));
    }
}

} // verus!
